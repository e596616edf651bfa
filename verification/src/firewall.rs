//! UFW-owned hook and temporary rules. No user-supplied command is executed.
use crate::address::Ipv4Addr;
pub use crate::command::CHAIN;
use crate::command::DEVICE_GROUP;
use crate::error::Error;
use crate::number::{number, parse_number};
pub use crate::procedure::{cleanup, ensure_hook};
use crate::text::{
    decimal, hexadecimal, join, joined, opens_with, push_decimal, push_hexadecimal, same_text, texts,
    to_chars, trim, trimmed,
};
use vstd::prelude::*;

verus! {

/// A character that an interface name may hold.
pub open spec fn is_name_char(c: char) -> bool {
    'a' <= c <= 'z' || 'A' <= c <= 'Z' || '0' <= c <= '9' || c == '_' || c == '-'
}

/// Names that are safe to interpolate: one to fifteen letters, digits,
/// underscores and hyphens.
pub open spec fn is_valid_name(name: Seq<char>) -> bool {
    &&& 0 < name.len() <= 15
    &&& forall|i: int| 0 <= i < name.len() ==> is_name_char(#[trigger] name[i])
}

/// Restrict strings interpolated into iptables-restore to kernel interface names.
pub fn validate_name(name: &str) -> (result: Result<(), Error>)
    ensures
        is_valid_name(name@) ==> result == Ok::<(), Error>(()),
        !is_valid_name(name@) ==> result == Err::<(), Error>(Error::InvalidName),
{
    let chars = to_chars(name);
    if chars.len() == 0 || chars.len() > 15 {
        return Err(Error::InvalidName);
    }
    let mut i: usize = 0;
    while i < chars.len()
        invariant
            chars@ == name@,
            0 < chars@.len() <= 15,
            i <= chars@.len(),
            forall|k: int| 0 <= k < i ==> is_name_char(#[trigger] name@[k]),
        decreases chars@.len() - i,
    {
        let c = chars[i];
        if !(('a' <= c && c <= 'z') || ('A' <= c && c <= 'Z') || ('0' <= c && c <= '9') || c == '_'
            || c == '-') {
            assert(!is_name_char(name@[i as int]));
            return Err(Error::InvalidName);
        }
        i = i + 1;
    }
    Ok(())
}

/// The path of an attribute of a network interface.
pub open spec fn attribute(name: Seq<char>, leaf: Seq<char>) -> Seq<char> {
    "/sys/class/net/"@ + name + "/"@ + leaf
}

fn attribute_path(name: &str, leaf: &str) -> (path: String)
    ensures
        path@ == attribute(name@, leaf@),
{
    "/sys/class/net/".to_owned().concat(name).concat("/").concat(leaf)
}

/// Where the kernel shows an interface's index.
pub fn index_path(name: &str) -> (path: String)
    ensures
        path@ == attribute(name@, "ifindex"@),
{
    attribute_path(name, "ifindex")
}

/// Where the kernel shows an interface's device group.
pub fn group_path(name: &str) -> (path: String)
    ensures
        path@ == attribute(name@, "netdev_group"@),
{
    attribute_path(name, "netdev_group")
}

/// Where the kernel links an interface to its radio.
pub fn phy_path(name: &str) -> (path: String)
    ensures
        path@ == attribute(name@, "phy80211"@),
{
    attribute_path(name, "phy80211")
}

/// The number in an attribute file, white space around it aside.
pub open spec fn attribute_number(reading: Result<String, Error>) -> Result<u32, Error> {
    match reading {
        Ok(content) => number(trimmed(content@)),
        Err(error) => Err(error),
    }
}

/// Read the number in an attribute file; a failed read stays the failure it was.
pub fn read_number(reading: Result<String, Error>) -> (result: Result<u32, Error>)
    ensures
        result == attribute_number(reading),
{
    match reading {
        Ok(content) => parse_number(trim(content.as_str()).as_str()),
        Err(error) => Err(error),
    }
}

fn reads_as(reading: &Result<String, Error>, expected: u32) -> (same: bool)
    ensures
        same == (attribute_number(*reading) == Ok::<u32, Error>(expected)),
{
    match reading {
        Ok(content) => match parse_number(trim(content.as_str()).as_str()) {
            Ok(n) => n == expected,
            Err(_) => false,
        },
        Err(_) => false,
    }
}

/// What the kernel shows of an interface name at one moment.
#[derive(Debug)]
pub struct Observation {
    /// Contents of the index attribute.
    pub index: Result<String, Error>,
    /// Where the radio link leads.
    pub phy: Result<String, Error>,
    /// Contents of the device group attribute.
    pub group: Result<String, Error>,
}

/// Validated interface identity; a name alone is not sufficient authorization.
#[derive(Debug, PartialEq, Eq)]
pub struct GroupInterface {
    /// Kernel interface name.
    pub name: String,
    /// Kernel interface index, checked before every firewall update.
    pub index: u32,
    /// Where the radio link of the selected radio leads.
    pub phy: String,
}

impl Clone for GroupInterface {
    fn clone(&self) -> (copy: Self)
        ensures
            copy == *self,
    {
        GroupInterface { name: self.name.clone(), index: self.index, phy: self.phy.clone() }
    }
}

/// Whether a name is one that P2P data interfaces get.
pub open spec fn is_p2p_name(name: Seq<char>) -> bool {
    "p2p-"@.is_prefix_of(name) || name == "p2p0"@
}

impl GroupInterface {
    /// Whether `seen` shows this very interface: same index, same radio.
    pub open spec fn identified(self, seen: Observation) -> bool {
        &&& attribute_number(seen.index) == Ok::<u32, Error>(self.index)
        &&& seen.phy matches Ok(phy) && phy@ == self.phy@
    }

    /// Whether `seen` shows this very interface carrying the helper's tag.
    pub open spec fn present(self, seen: Observation) -> bool {
        &&& self.identified(seen)
        &&& attribute_number(seen.group) == Ok::<u32, Error>(DEVICE_GROUP)
    }

    /// Check the names of a group-start event before anything is looked up by them.
    pub fn validate_names(radio: &str, name: &str) -> (result: Result<(), Error>)
        ensures
            result == name_verdict(radio@, name@),
    {
        match validate_name(radio) {
            Ok(()) => {},
            Err(error) => return Err(error),
        }
        match validate_name(name) {
            Ok(()) => {},
            Err(error) => return Err(error),
        }
        if !(opens_with(&to_chars(name), "p2p-") || same_text(name, "p2p0")) {
            return Err(Error::NotP2pInterface);
        }
        Ok(())
    }

    /// Resolve an interface from a trusted supplicant event and ensure it belongs
    /// to the radio selected through NetworkManager: `radio_phy` is where the
    /// radio's own link leads, `index` the index first read for the interface,
    /// and `seen` what the kernel shows of it afterwards.
    pub fn validate(
        radio: &str,
        name: String,
        radio_phy: Result<String, Error>,
        index: Result<String, Error>,
        seen: &Observation,
    ) -> (result: Result<GroupInterface, Error>)
        ensures
            result == validated(radio@, name, radio_phy, index, *seen),
    {
        match Self::validate_names(radio, name.as_str()) {
            Ok(()) => {},
            Err(error) => return Err(error),
        }
        let phy = match radio_phy {
            Ok(phy) => phy,
            Err(error) => return Err(error),
        };
        let index = match read_number(index) {
            Ok(index) => index,
            Err(error) => return Err(error),
        };
        let interface = GroupInterface { name, index, phy };
        if !interface.identity_matches(seen) {
            return Err(Error::WrongRadio);
        }
        Ok(interface)
    }

    /// Whether this helper may tag the interface, so that name reuse cannot
    /// inherit allowances: `seen` must still show the validated interface, and
    /// nobody else's tag.
    pub fn claim(&self, seen: Observation) -> (result: Result<(), Error>)
        ensures
            result == claim_verdict(*self, seen),
    {
        if !self.identity_matches(&seen) {
            return Err(Error::ReplacedBeforeSetup);
        }
        match read_number(seen.group) {
            Ok(group) => if group != 0 && group != DEVICE_GROUP {
                Err(Error::ForeignDeviceGroup)
            } else {
                Ok(())
            },
            Err(error) => Err(error),
        }
    }

    /// Detect deletion/replacement before reusing an interface-scoped allowance.
    pub fn still_exists(&self, seen: &Observation) -> (present: bool)
        ensures
            present == self.present(*seen),
    {
        self.identity_matches(seen) && reads_as(&seen.group, DEVICE_GROUP)
    }

    fn identity_matches(&self, seen: &Observation) -> (same: bool)
        ensures
            same == self.identified(*seen),
    {
        reads_as(&seen.index, self.index) && match &seen.phy {
            Ok(phy) => same_text(phy.as_str(), self.phy.as_str()),
            Err(_) => false,
        }
    }
}

/// Which names a group-start event may bring: two interface names, the second
/// one that of a P2P data interface.
pub open spec fn name_verdict(radio: Seq<char>, name: Seq<char>) -> Result<(), Error> {
    if !is_valid_name(radio) || !is_valid_name(name) {
        Err(Error::InvalidName)
    } else if !is_p2p_name(name) {
        Err(Error::NotP2pInterface)
    } else {
        Ok(())
    }
}

/// The interface that a group-start event denotes, or why it is refused: both
/// names must be acceptable, and the interface must be linked to the radio and
/// keep the index that was read first.
pub open spec fn validated(
    radio: Seq<char>,
    name: String,
    radio_phy: Result<String, Error>,
    index: Result<String, Error>,
    seen: Observation,
) -> Result<GroupInterface, Error> {
    match (name_verdict(radio, name@), radio_phy, attribute_number(index)) {
        (Err(refused), _, _) => Err(refused),
        (_, Err(failed), _) => Err(failed),
        (_, _, Err(failed)) => Err(failed),
        (Ok(()), Ok(phy), Ok(index)) => {
            let interface = GroupInterface { name, index, phy };
            if interface.identified(seen) {
                Ok(interface)
            } else {
                Err(Error::WrongRadio)
            }
        },
    }
}

/// Whether an interface may be tagged: it must still be the validated one, and be
/// in no device group or in the helper's own.
pub open spec fn claim_verdict(interface: GroupInterface, seen: Observation) -> Result<(), Error> {
    if !interface.identified(seen) {
        Err(Error::ReplacedBeforeSetup)
    } else {
        match attribute_number(seen.group) {
            Ok(group) => if group == 0 || group == DEVICE_GROUP {
                Ok(())
            } else {
                Err(Error::ForeignDeviceGroup)
            },
            Err(failed) => Err(failed),
        }
    }
}

/// Complete desired rules for the single supported casting session.
#[derive(Debug, PartialEq, Eq)]
pub struct Rules {
    /// Interface validated from the selected radio's group-start signal.
    pub interface: GroupInterface,
    /// Whether the source serves DHCP.
    pub group_owner: bool,
    /// Source RTSP listening port, matching its WFD advertisement.
    pub rtsp: u16,
    /// Local IPv4 after address configuration.
    pub local: Option<Ipv4Addr>,
    /// Peer learned from the connected control socket.
    pub peer: Option<Ipv4Addr>,
    /// (Local port, remote port) for RTCP; absent if sink didn't negotiate RTCP.
    pub rtcp: Option<(u16, u16)>,
}

impl Clone for Rules {
    fn clone(&self) -> (copy: Self)
        ensures
            copy == *self,
    {
        Rules {
            interface: self.interface.clone(),
            group_owner: self.group_owner,
            rtsp: self.rtsp,
            local: self.local,
            peer: self.peer,
            rtcp: self.rtcp,
        }
    }
}

/// Words with single spaces between them.
pub open spec fn spaced(words: Seq<Seq<char>>) -> Seq<char> {
    joined(words, " "@)
}

/// What every rule opens with: the dedicated chain, the exact interface name and
/// the reserved device group.
pub open spec fn scope_words(name: Seq<char>) -> Seq<Seq<char>> {
    seq![
        "-A"@,
        CHAIN@,
        "-i"@,
        name,
        "-m"@,
        "devgroup"@,
        "--src-group"@,
        "0x"@ + hexadecimal(DEVICE_GROUP as nat),
    ]
}

/// A packet flow between two UDP ports.
pub open spec fn udp_words(from: Seq<char>, to: Seq<char>) -> Seq<Seq<char>> {
    seq!["-p"@, "udp"@, "--sport"@, from, "--dport"@, to, "-j"@, "ACCEPT"@]
}

/// Connections to a TCP port.
pub open spec fn tcp_words(to: Seq<char>) -> Seq<Seq<char>> {
    seq!["-p"@, "tcp"@, "--dport"@, to, "-j"@, "ACCEPT"@]
}

/// A restriction to one host, where the host is known.
pub open spec fn host_words(option: Seq<char>, host: Option<Ipv4Addr>) -> Seq<Seq<char>> {
    match host {
        Some(ip) => seq![option, ip.text() + "/32"@],
        None => seq![],
    }
}

impl Rules {
    /// The scope with the hosts that are known so far.
    pub open spec fn endpoint_words(self) -> Seq<Seq<char>> {
        scope_words(self.interface.name@) + host_words("-d"@, self.local) + host_words(
            "-s"@,
            self.peer,
        )
    }

    /// The rules of this session, each as its words: replies to a DHCP client,
    /// requests to a DHCP server where the source owns the group, the RTSP
    /// listener, and RTCP where it was negotiated.
    pub open spec fn rule_words(self) -> Seq<Seq<Seq<char>>> {
        let scope = scope_words(self.interface.name@);
        let reply = seq![scope + udp_words("67"@, "68"@)];
        let request = if self.group_owner {
            seq![scope + udp_words("68"@, "67"@)]
        } else {
            seq![]
        };
        let rtsp = seq![self.endpoint_words() + tcp_words(decimal(self.rtsp as nat))];
        let rtcp = match self.rtcp {
            Some((local, remote)) => seq![
                self.endpoint_words() + udp_words(decimal(remote as nat), decimal(local as nat)),
            ],
            None => seq![],
        };
        reply + request + rtsp + rtcp
    }

    /// The rules of this session as text.
    pub open spec fn rule_lines(self) -> Seq<Seq<char>> {
        Seq::new(self.rule_words().len(), |i: int| spaced(self.rule_words()[i]))
    }

    /// Why these rules must not be rendered, if there is a reason.
    pub open spec fn refusal(self) -> Option<Error> {
        if !is_valid_name(self.interface.name@) {
            Some(Error::InvalidName)
        } else if self.rtsp < 1024 {
            Some(Error::PrivilegedRtspPort)
        } else {
            match self.rtcp {
                Some((local, remote)) => if self.local is None || self.peer is None || local < 1024
                    || remote == 0 {
                    Some(Error::RtcpUnvalidated)
                } else {
                    None
                },
                None => None,
            }
        }
    }

    /// Render only this session's allowances. All other traffic returns to UFW.
    pub fn lines(&self) -> (result: Result<Vec<String>, Error>)
        ensures
            match self.refusal() {
                Some(refused) => result == Err::<Vec<String>, Error>(refused),
                None => result matches Ok(lines) && texts(lines@) == self.rule_lines(),
            },
    {
        match validate_name(self.interface.name.as_str()) {
            Ok(()) => {},
            Err(error) => return Err(error),
        }
        if self.rtsp < 1024 {
            return Err(Error::PrivilegedRtspPort);
        }
        let scope = scope(self.interface.name.as_str());
        let mut rules: Vec<String> = Vec::new();
        rules.push(udp_rule(&scope, "67", "68"));
        if self.group_owner {
            // A DHCPDISCOVER has no leased source address yet.
            rules.push(udp_rule(&scope, "68", "67"));
        }
        let mut endpoints = copy(&scope);
        push_host(&mut endpoints, "-d", self.local);
        push_host(&mut endpoints, "-s", self.peer);
        rules.push(tcp_rule(&endpoints, numeral(self.rtsp).as_str()));
        if let Some((local_port, remote_port)) = self.rtcp {
            if self.local.is_none() || self.peer.is_none() || local_port < 1024 || remote_port == 0 {
                return Err(Error::RtcpUnvalidated);
            }
            rules.push(
                udp_rule(&endpoints, numeral(remote_port).as_str(), numeral(local_port).as_str()),
            );
        }
        assert(texts(rules@) =~= self.rule_lines());
        Ok(rules)
    }
}

fn numeral(n: u16) -> (s: String)
    ensures
        s@ == decimal(n as nat),
{
    let mut s = String::new();
    push_decimal(&mut s, n as u32);
    assert(s@ =~= decimal(n as nat));
    s
}

fn copy(list: &Vec<String>) -> (copied: Vec<String>)
    ensures
        texts(copied@) == texts(list@),
{
    let mut copied: Vec<String> = Vec::new();
    let mut i: usize = 0;
    assert(texts(copied@) =~= texts(list@).take(0));
    while i < list.len()
        invariant
            i <= list@.len(),
            texts(copied@) == texts(list@).take(i as int),
        decreases list@.len() - i,
    {
        let ghost before = texts(copied@);
        copied.push(list[i].clone());
        assert(texts(copied@) =~= before.push(list@[i as int]@));
        assert(texts(list@).take(i + 1) =~= before.push(list@[i as int]@));
        i = i + 1;
    }
    assert(texts(list@).take(i as int) =~= texts(list@));
    copied
}

fn push_word(words: &mut Vec<String>, word: &str)
    ensures
        texts(final(words)@) == texts(old(words)@).push(word@),
{
    words.push(word.to_owned());
    assert(texts(words@) =~= texts(old(words)@).push(word@));
}

fn scope(name: &str) -> (words: Vec<String>)
    ensures
        texts(words@) == scope_words(name@),
{
    let mut group = "0x".to_owned();
    push_hexadecimal(&mut group, DEVICE_GROUP);
    let mut words: Vec<String> = Vec::new();
    push_word(&mut words, "-A");
    push_word(&mut words, CHAIN);
    push_word(&mut words, "-i");
    push_word(&mut words, name);
    push_word(&mut words, "-m");
    push_word(&mut words, "devgroup");
    push_word(&mut words, "--src-group");
    push_word(&mut words, group.as_str());
    assert(texts(words@) =~= scope_words(name@));
    words
}

fn push_host(words: &mut Vec<String>, option: &str, host: Option<Ipv4Addr>)
    ensures
        texts(final(words)@) == texts(old(words)@) + host_words(option@, host),
{
    match host {
        Some(ip) => {
            push_word(words, option);
            push_word(words, ip.to_text().concat("/32").as_str());
        },
        None => {},
    }
    assert(texts(words@) =~= texts(old(words)@) + host_words(option@, host));
}

fn udp_rule(opening: &Vec<String>, from: &str, to: &str) -> (rule: String)
    ensures
        rule@ == spaced(texts(opening@) + udp_words(from@, to@)),
{
    let mut words = copy(opening);
    push_word(&mut words, "-p");
    push_word(&mut words, "udp");
    push_word(&mut words, "--sport");
    push_word(&mut words, from);
    push_word(&mut words, "--dport");
    push_word(&mut words, to);
    push_word(&mut words, "-j");
    push_word(&mut words, "ACCEPT");
    assert(texts(words@) =~= texts(opening@) + udp_words(from@, to@));
    join(&words, " ")
}

fn tcp_rule(opening: &Vec<String>, to: &str) -> (rule: String)
    ensures
        rule@ == spaced(texts(opening@) + tcp_words(to@)),
{
    let mut words = copy(opening);
    push_word(&mut words, "-p");
    push_word(&mut words, "tcp");
    push_word(&mut words, "--dport");
    push_word(&mut words, to);
    push_word(&mut words, "-j");
    push_word(&mut words, "ACCEPT");
    assert(texts(words@) =~= texts(opening@) + tcp_words(to@));
    join(&words, " ")
}

} // verus!
