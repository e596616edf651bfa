//! The order of events in which a session comes up and goes down. Each procedure
//! names the work it waits for and is advanced by the answer to it; an answer to
//! something else leaves it where it is.
use crate::address::{parsed, Ipv4Addr};
use crate::error::Error;
use crate::firewall::{is_valid_name, validate_name, Rules};
use crate::service::{Session, Sink, Slot};
use crate::text::to_chars;
use crate::SessionInfo;
use vstd::prelude::*;

verus! {

/// Name of the connection that the helper manages.
pub const GROUP_NAME: &'static str = "waycast-managed";

/// How long setting up the group may take.
pub const SETUP_SECONDS: u64 = 60;

/// How long an explicit deactivation may take.
pub const CLOSE_SECONDS: u64 = 5;

/// A character of a hardware address.
pub open spec fn is_peer_char(c: char) -> bool {
    '0' <= c <= '9' || 'a' <= c <= 'f' || 'A' <= c <= 'F' || c == ':'
}

/// Seventeen hexadecimal digits and colons.
pub open spec fn is_peer(peer: Seq<char>) -> bool {
    &&& peer.len() == 17
    &&& forall|i: int| 0 <= i < peer.len() ==> is_peer_char(#[trigger] peer[i])
}

fn validate_peer(peer: &str) -> (valid: bool)
    ensures
        valid == is_peer(peer@),
{
    let chars = to_chars(peer);
    if chars.len() != 17 {
        return false;
    }
    let mut i: usize = 0;
    while i < chars.len()
        invariant
            chars@ == peer@,
            chars@.len() == 17,
            i <= chars@.len(),
            forall|k: int| 0 <= k < i ==> is_peer_char(#[trigger] peer@[k]),
        decreases chars@.len() - i,
    {
        let c = chars[i];
        if !(('0' <= c && c <= '9') || ('a' <= c && c <= 'f') || ('A' <= c && c <= 'F') || c == ':') {
            assert(!is_peer_char(peer@[i as int]));
            return false;
        }
        i = i + 1;
    }
    true
}

/// A P2P connection that came up.
#[derive(Debug, PartialEq, Eq)]
pub struct Link {
    /// Kernel P2P data interface.
    pub interface: String,
    /// The display's addressing.
    pub sink: Sink,
}

/// What can cut the setup of a group short.
#[derive(Debug, Clone, Copy, PartialEq, Eq, Structural)]
pub enum Interruption {
    /// It took too long.
    Deadline,
    /// The caller left the bus.
    CallerLost,
}

/// How far a session has come up.
#[derive(Debug)]
pub enum BeginPhase {
    /// The policy is asked.
    Authorizing,
    /// The one session is being claimed.
    Acquiring,
    /// The installation hook is being checked.
    CheckingHook,
    /// Leftover rules are being removed.
    Clearing,
    /// The radio is being opened.
    Opening,
    /// The display is being resolved on the radio.
    Resolving { radio: String },
    /// The group is being formed and prepared.
    Connecting { radio: String },
    /// The rules are being narrowed to the local address.
    Narrowing { rules: Rules, link: Link, local: Ipv4Addr },
    /// The connection is being closed after a failure.
    Closing { error: Error },
    /// The rules are being removed after a failure.
    Unwinding { error: Error },
    /// The session is up.
    Established { rules: Rules, link: Link, local: Ipv4Addr, go_ip: String },
    /// The request was refused.
    Refused { error: Error },
    /// The rules could not be removed.
    Fatal { error: Error },
}

/// A request to begin a session.
#[derive(Debug)]
pub struct Begin {
    /// Unique bus name of the caller.
    pub owner: String,
    /// The radio that the caller selected.
    pub radio: String,
    /// Hardware address of the display.
    pub peer: String,
    pub phase: BeginPhase,
}

/// Work that a request to begin a session waits for.
#[derive(Debug)]
pub enum BeginAction {
    /// Ask the policy about the caller.
    Authorize { owner: String },
    /// Try to get hold of the one session; keep hold of it until the request ends.
    Acquire,
    /// Check the installation hook.
    CheckHook,
    /// Remove the rules.
    ClearRules,
    /// Open the radio. This, and what follows until the group is up, is to be
    /// interrupted at the deadline or when the caller leaves the bus.
    OpenRadio { radio: String },
    /// Resolve the display on the opened radio.
    ResolveSink { peer: String },
    /// Connect to the display, preparing the group as soon as it starts.
    Connect { radio: String },
    /// Put the rules into effect.
    ApplyRules { rules: Rules },
    /// Close the connection.
    CloseConnection,
    /// Answer the caller: the request has ended.
    Reply,
    /// Exit, for the service manager to recover.
    Exit,
}

/// The answer to a [`BeginAction`].
#[derive(Debug)]
pub enum BeginEvent {
    Authorized { result: Result<(), Error> },
    Acquired { slot: Slot },
    HookChecked { result: Result<(), Error> },
    Cleared { result: Result<(), Error> },
    /// The radio that was opened.
    Opened { radio: Result<String, Error> },
    /// The control port that the display advertises.
    Resolved { port: Result<u16, Error> },
    /// The connection, and the rules that the preparation of its group left.
    Connected { link: Result<Link, Error>, prepared: Option<Rules> },
    Interrupted { by: Interruption },
    Applied { result: Result<(), Error> },
    Closed,
}

/// The error that an interruption stands for.
pub open spec fn interruption(by: Interruption) -> Error {
    match by {
        Interruption::Deadline => Error::SetupTimedOut,
        Interruption::CallerLost => Error::CallerLost,
    }
}

/// Whether a request is well formed.
pub open spec fn request_verdict(radio: Seq<char>, peer: Seq<char>) -> Result<(), Error> {
    if !is_valid_name(radio) {
        Err(Error::InvalidName)
    } else if !is_peer(peer) {
        Err(Error::InvalidPeer)
    } else {
        Ok(())
    }
}

/// What follows once the connection is up: narrow the prepared rules to the local
/// address, or close again.
pub open spec fn finalizing(prepared: Option<Rules>, link: Link) -> BeginPhase {
    match (prepared, link.sink.ip_address) {
        (None, _) => BeginPhase::Closing { error: Error::MissingPrepared },
        (_, None) => BeginPhase::Closing { error: Error::MissingLocal },
        (Some(rules), Some(text)) => match parsed(text@) {
            Err(error) => BeginPhase::Closing { error },
            Ok(local) => BeginPhase::Narrowing {
                rules: Rules { local: Some(local), ..rules },
                link,
                local,
            },
        },
    }
}

impl Begin {
    /// The phase after an answer.
    pub open spec fn phase_after(self, event: BeginEvent) -> BeginPhase {
        match (self.phase, event) {
            (BeginPhase::Authorizing, BeginEvent::Authorized { result }) => match result {
                Ok(()) => BeginPhase::Acquiring,
                Err(error) => BeginPhase::Refused { error },
            },
            (BeginPhase::Acquiring, BeginEvent::Acquired { slot }) => match slot {
                Slot::Busy => BeginPhase::Refused { error: Error::SetupBusy },
                Slot::Occupied => BeginPhase::Refused { error: Error::SessionActive },
                Slot::Free => BeginPhase::CheckingHook,
            },
            (BeginPhase::CheckingHook, BeginEvent::HookChecked { result }) => match result {
                Ok(()) => BeginPhase::Clearing,
                Err(error) => BeginPhase::Refused { error },
            },
            (BeginPhase::Clearing, BeginEvent::Cleared { result }) => match result {
                Ok(()) => BeginPhase::Opening,
                Err(error) => BeginPhase::Fatal { error },
            },
            (BeginPhase::Opening, BeginEvent::Opened { radio }) => match radio {
                Ok(radio) => BeginPhase::Resolving { radio },
                Err(error) => BeginPhase::Unwinding { error },
            },
            (BeginPhase::Resolving { radio }, BeginEvent::Resolved { port }) => match port {
                Ok(port) => if port < 1024 {
                    BeginPhase::Unwinding { error: Error::PrivilegedSinkPort }
                } else {
                    BeginPhase::Connecting { radio }
                },
                Err(error) => BeginPhase::Unwinding { error },
            },
            (BeginPhase::Connecting { .. }, BeginEvent::Connected { link, prepared }) => {
                match link {
                    Ok(link) => finalizing(prepared, link),
                    Err(error) => BeginPhase::Unwinding { error },
                }
            },
            (BeginPhase::Opening, BeginEvent::Interrupted { by }) => BeginPhase::Unwinding {
                error: interruption(by),
            },
            (BeginPhase::Resolving { .. }, BeginEvent::Interrupted { by }) => BeginPhase::Unwinding {
                error: interruption(by),
            },
            (BeginPhase::Connecting { .. }, BeginEvent::Interrupted { by }) => BeginPhase::Unwinding {
                error: interruption(by),
            },
            (BeginPhase::Narrowing { rules, link, local }, BeginEvent::Applied { result }) => {
                match (result, link.sink.go_ip_address) {
                    (Err(error), _) => BeginPhase::Closing { error },
                    (Ok(()), None) => BeginPhase::Closing { error: Error::MissingOwnerAddress },
                    (Ok(()), Some(go_ip)) => BeginPhase::Established { rules, link, local, go_ip },
                }
            },
            (BeginPhase::Closing { error }, BeginEvent::Closed) => BeginPhase::Unwinding { error },
            (BeginPhase::Unwinding { error }, BeginEvent::Cleared { result }) => match result {
                Ok(()) => BeginPhase::Refused { error },
                Err(error) => BeginPhase::Fatal { error },
            },
            (phase, _) => phase,
        }
    }

    /// The request after an answer.
    pub open spec fn after(self, event: BeginEvent) -> Begin {
        Begin { phase: self.phase_after(event), ..self }
    }

    /// The work that is waited for.
    pub open spec fn pending(self) -> BeginAction {
        match self.phase {
            BeginPhase::Authorizing => BeginAction::Authorize { owner: self.owner },
            BeginPhase::Acquiring => BeginAction::Acquire,
            BeginPhase::CheckingHook => BeginAction::CheckHook,
            BeginPhase::Clearing => BeginAction::ClearRules,
            BeginPhase::Opening => BeginAction::OpenRadio { radio: self.radio },
            BeginPhase::Resolving { .. } => BeginAction::ResolveSink { peer: self.peer },
            BeginPhase::Connecting { radio } => BeginAction::Connect { radio },
            BeginPhase::Narrowing { rules, .. } => BeginAction::ApplyRules { rules },
            BeginPhase::Closing { .. } => BeginAction::CloseConnection,
            BeginPhase::Unwinding { .. } => BeginAction::ClearRules,
            BeginPhase::Established { .. } => BeginAction::Reply,
            BeginPhase::Refused { .. } => BeginAction::Reply,
            BeginPhase::Fatal { .. } => BeginAction::Exit,
        }
    }

    /// The work that is waited for.
    pub fn action(&self) -> (action: BeginAction)
        ensures
            action == self.pending(),
    {
        match &self.phase {
            BeginPhase::Authorizing => BeginAction::Authorize { owner: self.owner.clone() },
            BeginPhase::Acquiring => BeginAction::Acquire,
            BeginPhase::CheckingHook => BeginAction::CheckHook,
            BeginPhase::Clearing => BeginAction::ClearRules,
            BeginPhase::Opening => BeginAction::OpenRadio { radio: self.radio.clone() },
            BeginPhase::Resolving { .. } => BeginAction::ResolveSink { peer: self.peer.clone() },
            BeginPhase::Connecting { radio } => BeginAction::Connect { radio: radio.clone() },
            BeginPhase::Narrowing { rules, .. } => BeginAction::ApplyRules { rules: rules.clone() },
            BeginPhase::Closing { .. } => BeginAction::CloseConnection,
            BeginPhase::Unwinding { .. } => BeginAction::ClearRules,
            BeginPhase::Established { .. } => BeginAction::Reply,
            BeginPhase::Refused { .. } => BeginAction::Reply,
            BeginPhase::Fatal { .. } => BeginAction::Exit,
        }
    }

    /// Take in an answer.
    pub fn advance(self, event: BeginEvent) -> (next: Begin)
        ensures
            next == self.after(event),
    {
        let Begin { owner, radio: selected, peer, phase } = self;
        let phase = match (phase, event) {
            (BeginPhase::Authorizing, BeginEvent::Authorized { result }) => match result {
                Ok(()) => BeginPhase::Acquiring,
                Err(error) => BeginPhase::Refused { error },
            },
            (BeginPhase::Acquiring, BeginEvent::Acquired { slot }) => match slot {
                Slot::Busy => BeginPhase::Refused { error: Error::SetupBusy },
                Slot::Occupied => BeginPhase::Refused { error: Error::SessionActive },
                Slot::Free => BeginPhase::CheckingHook,
            },
            (BeginPhase::CheckingHook, BeginEvent::HookChecked { result }) => match result {
                Ok(()) => BeginPhase::Clearing,
                Err(error) => BeginPhase::Refused { error },
            },
            (BeginPhase::Clearing, BeginEvent::Cleared { result }) => match result {
                Ok(()) => BeginPhase::Opening,
                Err(error) => BeginPhase::Fatal { error },
            },
            (BeginPhase::Opening, BeginEvent::Opened { radio }) => match radio {
                Ok(radio) => BeginPhase::Resolving { radio },
                Err(error) => BeginPhase::Unwinding { error },
            },
            (BeginPhase::Resolving { radio }, BeginEvent::Resolved { port }) => match port {
                Ok(port) => if port < 1024 {
                    BeginPhase::Unwinding { error: Error::PrivilegedSinkPort }
                } else {
                    BeginPhase::Connecting { radio }
                },
                Err(error) => BeginPhase::Unwinding { error },
            },
            (BeginPhase::Connecting { .. }, BeginEvent::Connected { link, prepared }) => {
                match link {
                    Ok(link) => finalize(prepared, link),
                    Err(error) => BeginPhase::Unwinding { error },
                }
            },
            (BeginPhase::Opening, BeginEvent::Interrupted { by }) => interrupt(by),
            (BeginPhase::Resolving { .. }, BeginEvent::Interrupted { by }) => interrupt(by),
            (BeginPhase::Connecting { .. }, BeginEvent::Interrupted { by }) => interrupt(by),
            (BeginPhase::Narrowing { rules, link, local }, BeginEvent::Applied { result }) => {
                match result {
                    Err(error) => BeginPhase::Closing { error },
                    Ok(()) => match &link.sink.go_ip_address {
                        None => BeginPhase::Closing { error: Error::MissingOwnerAddress },
                        Some(go) => {
                            let go_ip = go.clone();
                            BeginPhase::Established { rules, link, local, go_ip }
                        },
                    },
                }
            },
            (BeginPhase::Closing { error }, BeginEvent::Closed) => BeginPhase::Unwinding { error },
            (BeginPhase::Unwinding { error }, BeginEvent::Cleared { result }) => match result {
                Ok(()) => BeginPhase::Refused { error },
                Err(error) => BeginPhase::Fatal { error },
            },
            (phase, _) => phase,
        };
        Begin { owner, radio: selected, peer, phase }
    }

    /// Whether this is what the caller of a session that is up is told.
    pub open spec fn tells(self, info: SessionInfo) -> bool {
        self.phase matches BeginPhase::Established { link, local, go_ip, .. } && info.interface
            == link.interface && info.local_ip@ == local.text() && info.go_ip == go_ip && info.rtsp_port
            == link.sink.rtsp_port
    }

    /// What to tell the caller of a session that is up.
    pub fn info(&self) -> (info: Option<SessionInfo>)
        ensures
            match self.phase {
                BeginPhase::Established { link, local, go_ip, .. } => info matches Some(told)
                    && told.interface == link.interface && told.local_ip@ == local.text() && told.go_ip
                    == go_ip && told.rtsp_port == link.sink.rtsp_port,
                _ => info is None,
            },
            info matches Some(told) ==> self.tells(told),
    {
        match &self.phase {
            BeginPhase::Established { link, local, go_ip, .. } => Some(
                SessionInfo {
                    interface: link.interface.clone(),
                    local_ip: local.to_text(),
                    go_ip: go_ip.clone(),
                    rtsp_port: link.sink.rtsp_port,
                },
            ),
            _ => None,
        }
    }

    /// How the request ended: with the session to record, or with a refusal. A
    /// request that has not ended by itself comes back.
    pub fn conclude<C, K>(self, connection: C) -> (end: Result<Result<Session<C, K>, Error>, Begin>)
        ensures
            match self.phase {
                BeginPhase::Established { rules, link, .. } => end == Ok::<
                    Result<Session<C, K>, Error>,
                    Begin,
                >(
                    Ok(
                        Session {
                            owner: self.owner,
                            connection,
                            sink: link.sink,
                            rules,
                            sockets: None,
                        },
                    ),
                ),
                BeginPhase::Refused { error } => end == Ok::<Result<Session<C, K>, Error>, Begin>(
                    Err(error),
                ),
                _ => end == Err::<Result<Session<C, K>, Error>, Begin>(self),
            },
    {
        let Begin { owner, radio, peer, phase } = self;
        match phase {
            BeginPhase::Established { rules, link, .. } => Ok(
                Ok(Session { owner, connection, sink: link.sink, rules, sockets: None }),
            ),
            BeginPhase::Refused { error } => Ok(Err(error)),
            phase => Err(Begin { owner, radio, peer, phase }),
        }
    }
}

fn interrupt(by: Interruption) -> (phase: BeginPhase)
    ensures
        phase == (BeginPhase::Unwinding { error: interruption(by) }),
{
    match by {
        Interruption::Deadline => BeginPhase::Unwinding { error: Error::SetupTimedOut },
        Interruption::CallerLost => BeginPhase::Unwinding { error: Error::CallerLost },
    }
}

fn finalize(prepared: Option<Rules>, link: Link) -> (phase: BeginPhase)
    ensures
        phase == finalizing(prepared, link),
{
    let rules = match prepared {
        Some(rules) => rules,
        None => return BeginPhase::Closing { error: Error::MissingPrepared },
    };
    let local = match &link.sink.ip_address {
        Some(text) => match Ipv4Addr::parse(text.as_str()) {
            Ok(local) => local,
            Err(error) => return BeginPhase::Closing { error },
        },
        None => return BeginPhase::Closing { error: Error::MissingLocal },
    };
    let Rules { interface, group_owner, rtsp, local: _, peer, rtcp } = rules;
    let rules = Rules { interface, group_owner, rtsp, local: Some(local), peer, rtcp };
    BeginPhase::Narrowing { rules, link, local }
}

/// Authorize, validate the discovered peer, and activate its P2P group: take a
/// request of an attested caller.
pub fn begin_session(owner: String, radio: String, peer: String) -> (result: Result<Begin, Error>)
    ensures
        match request_verdict(radio@, peer@) {
            Ok(()) => result == Ok::<Begin, Error>(
                Begin { owner, radio, peer, phase: BeginPhase::Authorizing },
            ),
            Err(refused) => result == Err::<Begin, Error>(refused),
        },
{
    match validate_name(radio.as_str()) {
        Ok(()) => {},
        Err(error) => return Err(error),
    }
    if !validate_peer(peer.as_str()) {
        return Err(Error::InvalidPeer);
    }
    Ok(Begin { owner, radio, peer, phase: BeginPhase::Authorizing })
}

/// How far a session has gone down.
#[derive(Debug)]
pub enum Teardown {
    /// The rules are being removed.
    Clearing,
    /// The connection is being closed, whatever became of the rules.
    Closing { cleared: Result<(), Error> },
    /// The session is closed; whether the explicit deactivation went through.
    Closed { clean: bool },
    /// The rules could not be removed.
    Fatal { error: Error },
}

/// Work that a teardown waits for.
#[derive(Debug, Clone, Copy, PartialEq, Eq, Structural)]
pub enum TeardownAction {
    /// Remove the rules.
    ClearRules,
    /// Close the connection, then drop the session.
    CloseConnection,
    /// Nothing: the session is closed.
    Rest,
    /// Exit, for the service manager to recover.
    Exit,
}

/// The answer to a [`TeardownAction`].
#[derive(Debug)]
pub enum TeardownEvent {
    Cleared { result: Result<(), Error> },
    /// Whether the explicit deactivation went through in time.
    Closed { completed: bool },
}

/// Begin to close a session. Rules are cleared even if NM no longer knows the
/// active connection, and the dedicated activation bus is dropped even if
/// deactivation fails.
pub fn close_session() -> (procedure: Teardown)
    ensures
        procedure == Teardown::Clearing,
{
    Teardown::Clearing
}

impl Teardown {
    /// The work that is waited for.
    pub open spec fn pending(self) -> TeardownAction {
        match self {
            Teardown::Clearing => TeardownAction::ClearRules,
            Teardown::Closing { .. } => TeardownAction::CloseConnection,
            Teardown::Closed { .. } => TeardownAction::Rest,
            Teardown::Fatal { .. } => TeardownAction::Exit,
        }
    }

    /// The teardown after an answer.
    pub open spec fn after(self, event: TeardownEvent) -> Teardown {
        match (self, event) {
            (Teardown::Clearing, TeardownEvent::Cleared { result }) => Teardown::Closing {
                cleared: result,
            },
            (Teardown::Closing { cleared }, TeardownEvent::Closed { completed }) => match cleared {
                Ok(()) => Teardown::Closed { clean: completed },
                Err(error) => Teardown::Fatal { error },
            },
            (phase, _) => phase,
        }
    }

    /// The work that is waited for.
    pub fn action(&self) -> (action: TeardownAction)
        ensures
            action == self.pending(),
    {
        match self {
            Teardown::Clearing => TeardownAction::ClearRules,
            Teardown::Closing { .. } => TeardownAction::CloseConnection,
            Teardown::Closed { .. } => TeardownAction::Rest,
            Teardown::Fatal { .. } => TeardownAction::Exit,
        }
    }

    /// Take in an answer.
    pub fn advance(self, event: TeardownEvent) -> (next: Teardown)
        ensures
            next == self.after(event),
    {
        match (self, event) {
            (Teardown::Clearing, TeardownEvent::Cleared { result }) => Teardown::Closing {
                cleared: result,
            },
            (Teardown::Closing { cleared }, TeardownEvent::Closed { completed }) => match cleared {
                Ok(()) => Teardown::Closed { clean: completed },
                Err(error) => Teardown::Fatal { error },
            },
            (phase, _) => phase,
        }
    }
}

} // verus!
