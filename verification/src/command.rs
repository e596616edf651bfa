//! The commands that the helper executes, and what their outcomes mean. Every
//! binary is fixed and absolute; no command line is taken from a caller.
use crate::error::Error;
use crate::text::{decimal, push_decimal, texts, trim, trimmed};
use vstd::prelude::*;
use vstd::utf8::{decode_utf8, valid_utf8};

verus! {

/// Dedicated chain installed by the root-owned installer in UFW before.rules.
pub const CHAIN: &'static str = "waycast-input";

/// UFW's own chain that the dedicated chain is reached from.
pub const HOOK_CHAIN: &'static str = "ufw-before-input";

/// Reserved network-device group, paired with the exact interface name. A new
/// interface reusing that name starts in group 0 and cannot inherit these rules.
pub const DEVICE_GROUP: u32 = 0x574644;

/// The packet filter's front end.
pub const IPTABLES: &'static str = "/usr/bin/iptables";

/// The packet filter's transactional front end.
pub const IPTABLES_RESTORE: &'static str = "/usr/bin/iptables-restore";

/// The link configuration tool.
pub const IP: &'static str = "/usr/bin/ip";

/// The search path in the otherwise empty environment of a command.
pub const COMMAND_PATH: &'static str = "/usr/bin:/usr/sbin";

/// The locale in the otherwise empty environment of a command.
pub const COMMAND_LOCALE: &'static str = "C";

/// How long a command may run.
pub const COMMAND_SECONDS: u64 = 8;

/// A command to execute.
#[derive(Debug)]
pub struct Command {
    /// Absolute path of the executable.
    pub binary: &'static str,
    /// Arguments, in order.
    pub args: Vec<String>,
    /// Text for the standard input; none is attached otherwise.
    pub input: Option<String>,
}

/// A command by what it consists of.
pub struct CommandView {
    pub binary: Seq<char>,
    pub args: Seq<Seq<char>>,
    pub input: Option<Seq<char>>,
}

impl View for Command {
    type V = CommandView;

    open spec fn view(&self) -> CommandView {
        CommandView {
            binary: self.binary@,
            args: texts(self.args@),
            input: match self.input {
                Some(input) => Some(input@),
                None => None,
            },
        }
    }
}

/// What executing a command came to.
#[derive(Debug)]
pub enum Outcome {
    /// The executable could not be started.
    NotStarted,
    /// The started process offered no standard input to write to.
    NoStdin,
    /// It did not finish in time.
    TimedOut,
    /// Talking to it failed midway.
    Broken { error: Error },
    /// It exited.
    Exited { success: bool, stdout: Vec<u8>, stderr: Vec<u8> },
}

/// The text that bytes decode to, with a replacement character for what is no UTF-8.
pub uninterp spec fn lossy_text(bytes: Seq<u8>) -> Seq<char>;

/// `String::from_utf8_lossy`: the text that the bytes decode to. Valid UTF-8
/// decodes to itself; how invalid parts are replaced is left unsaid.
#[verifier::external_body]
fn from_utf8_lossy(bytes: &Vec<u8>) -> (text: String)
    ensures
        text@ == lossy_text(bytes@),
        valid_utf8(bytes@) ==> text@ == decode_utf8(bytes@),
{
    String::from_utf8_lossy(bytes).into_owned()
}

/// The standard output of a command that succeeded, or why there is none.
pub fn output(command: &Command, outcome: Outcome) -> (result: Result<String, Error>)
    ensures
        match outcome {
            Outcome::NotStarted => result matches Err(Error::CommandStart { binary }) && binary@
                == command@.binary,
            Outcome::NoStdin => result == Err::<String, Error>(Error::MissingStdin),
            Outcome::TimedOut => result == Err::<String, Error>(Error::CommandTimedOut),
            Outcome::Broken { error } => result == Err::<String, Error>(error),
            Outcome::Exited { success, stdout, stderr } => if success {
                result matches Ok(text) && text@ == lossy_text(stdout@) && (valid_utf8(stdout@) ==> text@
                    == decode_utf8(stdout@))
            } else {
                result matches Err(Error::CommandFailed { binary, stderr: said }) && binary@
                    == command@.binary && said@ == trimmed(lossy_text(stderr@)) && (valid_utf8(stderr@)
                    ==> said@ == trimmed(decode_utf8(stderr@)))
            },
        },
{
    match outcome {
        Outcome::NotStarted => Err(Error::CommandStart { binary: command.binary.to_owned() }),
        Outcome::NoStdin => Err(Error::MissingStdin),
        Outcome::TimedOut => Err(Error::CommandTimedOut),
        Outcome::Broken { error } => Err(error),
        Outcome::Exited { success, stdout, stderr } => {
            let said = from_utf8_lossy(&stderr);
            report(command.binary, success, from_utf8_lossy(&stdout), said.as_str())
        },
    }
}

/// What an exit with the given decoded output means.
pub fn report(binary: &'static str, success: bool, stdout: String, stderr: &str) -> (result: Result<
    String,
    Error,
>)
    ensures
        success ==> result == Ok::<String, Error>(stdout),
        !success ==> (result matches Err(Error::CommandFailed { binary: named, stderr: said })
            && named@ == binary@ && said@ == trimmed(stderr@)),
{
    if success {
        Ok(stdout)
    } else {
        Err(Error::CommandFailed { binary: binary.to_owned(), stderr: trim(stderr) })
    }
}

/// A packet filter command: it waits a few seconds for the table lock.
pub open spec fn iptables_command(args: Seq<Seq<char>>) -> CommandView {
    CommandView { binary: IPTABLES@, args: seq!["--wait"@, "5"@] + args, input: None }
}

fn iptables(args: Vec<String>) -> (command: Command)
    ensures
        command@ == iptables_command(texts(args@)),
{
    let mut all: Vec<String> = Vec::new();
    all.push("--wait".to_owned());
    all.push("5".to_owned());
    let mut i: usize = 0;
    assert(texts(all@) =~= seq!["--wait"@, "5"@] + texts(args@).take(0));
    while i < args.len()
        invariant
            i <= args@.len(),
            texts(all@) == seq!["--wait"@, "5"@] + texts(args@).take(i as int),
        decreases args@.len() - i,
    {
        let ghost before = texts(all@);
        all.push(args[i].clone());
        assert(texts(all@) =~= before.push(args@[i as int]@));
        assert(texts(args@).take(i + 1) =~= texts(args@).take(i as int).push(args@[i as int]@));
        assert(texts(all@) =~= seq!["--wait"@, "5"@] + texts(args@).take(i + 1));
        i = i + 1;
    }
    assert(texts(args@).take(i as int) =~= texts(args@));
    Command { binary: IPTABLES, args: all, input: None }
}

/// Check that UFW's input rules jump to the dedicated chain.
pub open spec fn hook_check() -> CommandView {
    iptables_command(seq!["-C"@, HOOK_CHAIN@, "-j"@, CHAIN@])
}

/// The command that checks the installation hook.
pub fn hook_command() -> (command: Command)
    ensures
        command@ == hook_check(),
{
    let mut args: Vec<String> = Vec::new();
    args.push("-C".to_owned());
    args.push(HOOK_CHAIN.to_owned());
    args.push("-j".to_owned());
    args.push(CHAIN.to_owned());
    assert(texts(args@) =~= seq!["-C"@, HOOK_CHAIN@, "-j"@, CHAIN@]);
    iptables(args)
}

/// List every rule of the filter table.
pub open spec fn table_list() -> CommandView {
    iptables_command(seq!["-S"@])
}

/// The command that lists the filter table.
pub fn table_command() -> (command: Command)
    ensures
        command@ == table_list(),
{
    let mut args: Vec<String> = Vec::new();
    args.push("-S".to_owned());
    assert(texts(args@) =~= seq!["-S"@]);
    iptables(args)
}

/// List the rules of the dedicated chain.
pub open spec fn chain_list() -> CommandView {
    iptables_command(seq!["-S"@, CHAIN@])
}

/// The command that lists the dedicated chain.
pub fn chain_command() -> (command: Command)
    ensures
        command@ == chain_list(),
{
    let mut args: Vec<String> = Vec::new();
    args.push("-S".to_owned());
    args.push(CHAIN.to_owned());
    assert(texts(args@) =~= seq!["-S"@, CHAIN@]);
    iptables(args)
}

/// Empty the dedicated chain.
pub open spec fn chain_flush() -> CommandView {
    iptables_command(seq!["-F"@, CHAIN@])
}

/// The command that empties the dedicated chain.
pub fn flush_command() -> (command: Command)
    ensures
        command@ == chain_flush(),
{
    let mut args: Vec<String> = Vec::new();
    args.push("-F".to_owned());
    args.push(CHAIN.to_owned());
    assert(texts(args@) =~= seq!["-F"@, CHAIN@]);
    iptables(args)
}

/// Feed a transaction to the packet filter, keeping everything it does not name.
pub open spec fn transaction_restore(script: Seq<char>) -> CommandView {
    CommandView {
        binary: IPTABLES_RESTORE@,
        args: seq!["--wait"@, "5"@, "--noflush"@],
        input: Some(script),
    }
}

/// The command that commits a transaction.
pub fn restore_command(script: String) -> (command: Command)
    ensures
        command@ == transaction_restore(script@),
{
    let mut args: Vec<String> = Vec::new();
    args.push("--wait".to_owned());
    args.push("5".to_owned());
    args.push("--noflush".to_owned());
    assert(texts(args@) =~= seq!["--wait"@, "5"@, "--noflush"@]);
    Command { binary: IPTABLES_RESTORE, args, input: Some(script) }
}

/// Put an interface into the reserved device group.
pub open spec fn interface_tag(name: Seq<char>) -> CommandView {
    CommandView {
        binary: IP@,
        args: seq!["link"@, "set"@, "dev"@, name, "group"@, decimal(DEVICE_GROUP as nat)],
        input: None,
    }
}

/// The command that tags an interface.
pub fn tag_command(name: &str) -> (command: Command)
    ensures
        command@ == interface_tag(name@),
{
    let mut group = String::new();
    push_decimal(&mut group, DEVICE_GROUP);
    assert(group@ =~= decimal(DEVICE_GROUP as nat));
    let mut args: Vec<String> = Vec::new();
    args.push("link".to_owned());
    args.push("set".to_owned());
    args.push("dev".to_owned());
    args.push(name.to_owned());
    args.push("group".to_owned());
    args.push(group);
    assert(texts(args@) =~= interface_tag(name@).args);
    Command { binary: IP, args, input: None }
}

} // verus!
