//! Privileged system-bus endpoint. One validated P2P session at a time.
use crate::address::{parsed, Ipv4Addr, SocketAddrV4};
use crate::error::Error;
use crate::firewall::Rules;
use crate::procedure::SOURCE_RTSP_PORT;
use crate::text::same_text;
use vstd::prelude::*;

verus! {

/// How long the bus may take to tell whether a caller is present.
pub const OWNER_SECONDS: u64 = 2;

/// How often a caller's presence is looked into while its group is set up.
pub const OWNER_POLL_MILLIS: u64 = 250;

/// How long the policy may take to decide, which includes asking the user.
pub const POLICY_SECONDS: u64 = 30;

/// How often a session's health is looked into.
pub const SUPERVISE_MILLIS: u64 = 500;

/// A refusal as the bus carries it.
#[derive(Debug, PartialEq, Eq)]
pub enum BusError {
    /// The request failed.
    Failed { text: String },
    /// The request was not attributable to a caller.
    AccessDenied { text: String },
}

/// Report a failure to the caller.
pub fn failed(error: &Error) -> (reply: BusError)
    ensures
        reply matches BusError::Failed { text } && text@ == error.text(),
{
    BusError::Failed { text: error.message() }
}

/// The caller of a request, by the unique name that the bus attests.
pub fn sender(name: Option<String>) -> (result: Result<String, BusError>)
    ensures
        name matches Some(caller) ==> result == Ok::<String, BusError>(caller),
        name is None ==> (result matches Err(BusError::AccessDenied { text }) && text@
            == "Missing bus sender"@),
{
    match name {
        Some(caller) => Ok(caller),
        None => Err(BusError::AccessDenied { text: "Missing bus sender".to_owned() }),
    }
}

/// Only the caller that began a session may act on it.
pub fn require_owner(actual: &str, expected: &str) -> (result: Result<(), Error>)
    ensures
        result == ownership(actual@, expected@),
{
    if !same_text(actual, expected) {
        return Err(Error::NotOwner);
    }
    Ok(())
}

/// Whether `actual` is the owner `expected`.
pub open spec fn ownership(actual: Seq<char>, expected: Seq<char>) -> Result<(), Error> {
    if actual == expected {
        Ok(())
    } else {
        Err(Error::NotOwner)
    }
}

/// A character of an element of a bus name.
pub open spec fn is_bus_char(c: char) -> bool {
    'a' <= c <= 'z' || 'A' <= c <= 'Z' || '0' <= c <= '9' || c == '_' || c == '-'
}

/// Two or more elements with single full stops between them; unless `digits_lead`,
/// no element begins with a digit.
pub open spec fn is_dotted(s: Seq<char>, digits_lead: bool) -> bool {
    &&& s.contains('.')
    &&& forall|i: int| 0 <= i < s.len() ==> #[trigger] s[i] == '.' || is_bus_char(s[i])
    &&& forall|i: int| 0 <= i < s.len() && #[trigger] s[i] == '.' ==> 0 < i < s.len() - 1 && s[i - 1] != '.'
    &&& !digits_lead ==> forall|i: int|
        0 <= i < s.len() && '0' <= #[trigger] s[i] <= '9' ==> 0 < i && s[i - 1] != '.'
}

/// The names that a bus connection can have: unique ones, which begin with a
/// colon, and well-known ones.
pub open spec fn is_bus_name(s: Seq<char>) -> bool {
    &&& s.len() <= 255
    &&& (s.len() > 0 && s[0] == ':' && is_dotted(s.skip(1), true)) || is_dotted(s, false)
}

/// `zbus::names::BusName::try_from`: accepts exactly the unique and the
/// well-known bus names.
#[verifier::external_body]
fn parses_as_bus_name(s: &str) -> (accepted: bool)
    ensures
        accepted == is_bus_name(s@),
{
    zbus::names::BusName::try_from(s).is_ok()
}

/// Whether a caller is still on the bus, from what the bus answered when asked
/// whether its name has an owner; no answer in time, or a failed one, is `None`.
pub fn owner_present(owner: &str, answer: Option<bool>) -> (present: bool)
    ensures
        present == (is_bus_name(owner@) && answer == Some(true)),
{
    if !parses_as_bus_name(owner) {
        return false;
    }
    match answer {
        Some(owned) => owned,
        None => false,
    }
}

/// The service that decides on authorization.
pub const POLICY_SERVICE: &'static str = "org.freedesktop.PolicyKit1";

/// Its object.
pub const POLICY_PATH: &'static str = "/org/freedesktop/PolicyKit1/Authority";

/// Its interface.
pub const POLICY_INTERFACE: &'static str = "org.freedesktop.PolicyKit1.Authority";

/// How the policy identifies a caller: by its unique bus name.
pub const POLICY_SUBJECT: &'static str = "system-bus-name";

/// What a caller must be allowed to do.
pub const POLICY_ACTION: &'static str = "org.waycast.network.configure";

/// Let the policy ask the user.
pub const POLICY_FLAGS: u32 = 1;

/// What the policy is asked.
#[derive(Debug, PartialEq, Eq)]
pub struct PolicyRequest {
    /// How the subject is identified.
    pub subject: &'static str,
    /// Which of its attributes identifies it.
    pub attribute: &'static str,
    /// The attribute: the caller's unique bus name.
    pub name: String,
    /// What the subject wants to do.
    pub action: &'static str,
    /// Particulars of the action, by name.
    pub details: Vec<(String, String)>,
    /// Whether the user may be asked.
    pub flags: u32,
    /// By what the request could be cancelled.
    pub cancellation: &'static str,
}

/// Ask about a caller by the name that the bus attests, never by a claimed user;
/// without particulars, and not to be cancelled.
pub fn policy_request(owner: &str) -> (request: PolicyRequest)
    ensures
        request.subject@ == POLICY_SUBJECT@,
        request.attribute@ == "name"@,
        request.name@ == owner@,
        request.action@ == POLICY_ACTION@,
        request.details@.len() == 0,
        request.flags == POLICY_FLAGS,
        request.cancellation@ == ""@,
{
    PolicyRequest {
        subject: POLICY_SUBJECT,
        attribute: "name",
        name: owner.to_owned(),
        action: POLICY_ACTION,
        details: Vec::new(),
        flags: POLICY_FLAGS,
        cancellation: "",
    }
}

/// The policy's answer.
#[derive(Debug, Clone, Copy, PartialEq, Eq, Structural)]
pub struct PolicyReply {
    /// The subject may do it.
    pub authorized: bool,
    /// The subject could be allowed after more authentication.
    pub challenge: bool,
}

/// What the policy's answer means: only an authorization counts, not the prospect of one.
pub open spec fn authorization(answer: Result<PolicyReply, Error>) -> Result<(), Error> {
    match answer {
        Ok(reply) => if reply.authorized {
            Ok(())
        } else {
            Err(Error::AuthorizationDenied)
        },
        Err(failed) => Err(failed),
    }
}

/// Take the policy's answer; a failure to get one stays the failure it was.
pub fn authorize(answer: Result<PolicyReply, Error>) -> (result: Result<(), Error>)
    ensures
        result == authorization(answer),
{
    match answer {
        Ok(reply) => if !reply.authorized {
            Err(Error::AuthorizationDenied)
        } else {
            Ok(())
        },
        Err(error) => Err(error),
    }
}

/// The type of a socket, as far as it matters.
#[derive(Debug, Clone, Copy, PartialEq, Eq, Structural)]
pub enum SocketKind {
    Stream,
    Datagram,
    Other,
}

/// What the sockets of a media request say of themselves.
#[derive(Debug)]
pub struct SocketReport {
    pub control_kind: Result<SocketKind, Error>,
    pub rtp_kind: Result<SocketKind, Error>,
    pub rtcp_kind: Result<SocketKind, Error>,
    /// Local endpoint of the control socket.
    pub control: Result<SocketAddrV4, Error>,
    /// Remote endpoint of the control socket.
    pub peer: Result<SocketAddrV4, Error>,
    /// Local endpoint of the RTP socket.
    pub rtp: Result<SocketAddrV4, Error>,
    /// Local endpoint of the RTCP socket.
    pub rtcp: Result<SocketAddrV4, Error>,
}

/// The display's addressing as the connection knows it.
#[derive(Debug, PartialEq, Eq)]
pub struct Sink {
    /// The source's own address on the group, once configured.
    pub ip_address: Option<String>,
    /// The group owner's address.
    pub go_ip_address: Option<String>,
    /// RTSP port that the display advertises.
    pub rtsp_port: u16,
}

/// Whether a socket is of the wanted type.
pub open spec fn kind_verdict(kind: Result<SocketKind, Error>, wanted: SocketKind) -> Result<(), Error> {
    match kind {
        Ok(found) => if found == wanted {
            Ok(())
        } else {
            Err(Error::WrongSocketTypes)
        },
        Err(failed) => Err(failed),
    }
}

fn require_kind(kind: Result<SocketKind, Error>, wanted: SocketKind) -> (result: Result<(), Error>)
    ensures
        result == kind_verdict(kind, wanted),
{
    match kind {
        Ok(found) => if found != wanted {
            Err(Error::WrongSocketTypes)
        } else {
            Ok(())
        },
        Err(error) => Err(error),
    }
}

/// The four endpoints of a media request: control, its peer, RTP and RTCP. The
/// sockets must be a stream and two datagram sockets.
pub open spec fn endpoints(report: SocketReport) -> Result<
    (SocketAddrV4, SocketAddrV4, SocketAddrV4, SocketAddrV4),
    Error,
> {
    match (
        kind_verdict(report.control_kind, SocketKind::Stream),
        kind_verdict(report.rtp_kind, SocketKind::Datagram),
        kind_verdict(report.rtcp_kind, SocketKind::Datagram),
    ) {
        (Err(refused), _, _) => Err(refused),
        (_, Err(refused), _) => Err(refused),
        (_, _, Err(refused)) => Err(refused),
        (Ok(()), Ok(()), Ok(())) => match (report.control, report.peer, report.rtp, report.rtcp) {
            (Err(failed), _, _, _) => Err(failed),
            (_, Err(failed), _, _) => Err(failed),
            (_, _, Err(failed), _) => Err(failed),
            (_, _, _, Err(failed)) => Err(failed),
            (Ok(control), Ok(peer), Ok(rtp), Ok(rtcp)) => Ok((control, peer, rtp, rtcp)),
        },
    }
}

/// What a media request is authorized for: the peer's address and the local RTCP port.
pub open spec fn socket_verdict(rules: Rules, sink: Sink, report: SocketReport) -> Result<
    (Ipv4Addr, u16),
    Error,
> {
    match endpoints(report) {
        Err(refused) => Err(refused),
        Ok((control, peer, rtp, rtcp)) => match (rules.local, sink.go_ip_address) {
            (None, _) => Err(Error::NoGroupAddress),
            (_, None) => Err(Error::MissingGroupOwner),
            (Some(local), Some(go)) => match parsed(go@) {
                Err(refused) => Err(refused),
                Ok(go) => match address_verdict(
                    local,
                    go,
                    rules.group_owner,
                    sink.rtsp_port,
                    control,
                    peer,
                    rtp,
                    rtcp,
                ) {
                    Err(refused) => Err(refused),
                    Ok(()) => Ok((peer.ip, rtcp.port)),
                },
            },
        },
    }
}

/// Validate the sockets of a media request by what they say of themselves.
pub fn validate_sockets(rules: &Rules, sink: &Sink, report: SocketReport) -> (result: Result<
    (Ipv4Addr, u16),
    Error,
>)
    ensures
        result == socket_verdict(*rules, *sink, report),
{
    match require_kind(report.control_kind, SocketKind::Stream) {
        Ok(()) => {},
        Err(error) => return Err(error),
    }
    match require_kind(report.rtp_kind, SocketKind::Datagram) {
        Ok(()) => {},
        Err(error) => return Err(error),
    }
    match require_kind(report.rtcp_kind, SocketKind::Datagram) {
        Ok(()) => {},
        Err(error) => return Err(error),
    }
    let control = match report.control {
        Ok(control) => control,
        Err(error) => return Err(error),
    };
    let peer = match report.peer {
        Ok(peer) => peer,
        Err(error) => return Err(error),
    };
    let rtp = match report.rtp {
        Ok(rtp) => rtp,
        Err(error) => return Err(error),
    };
    let rtcp = match report.rtcp {
        Ok(rtcp) => rtcp,
        Err(error) => return Err(error),
    };
    let local = match rules.local {
        Some(local) => local,
        None => return Err(Error::NoGroupAddress),
    };
    let go = match &sink.go_ip_address {
        Some(go) => match Ipv4Addr::parse(go.as_str()) {
            Ok(go) => go,
            Err(error) => return Err(error),
        },
        None => return Err(Error::MissingGroupOwner),
    };
    match validate_addresses(
        local,
        &go,
        rules.group_owner,
        sink.rtsp_port,
        control,
        peer,
        rtp,
        rtcp,
    ) {
        Ok(()) => Ok((peer.ip, rtcp.port)),
        Err(error) => Err(error),
    }
}

/// Whether an address can be that of another host in a group of 256 addresses.
pub open spec fn is_other_host(ip: Ipv4Addr, local: Ipv4Addr) -> bool {
    &&& ip != local
    &&& !ip.loopback()
    &&& !ip.multicast()
    &&& !ip.unspecified()
    &&& ip.d != 0
    &&& ip.d != 255
}

/// Whether two ports are an unprivileged even port and the port after it.
pub open spec fn is_media_pair(rtp: u16, rtcp: u16) -> bool {
    rtp >= 1024 && rtp % 2 == 0 && rtp + 1 == rtcp
}

/// Whether the endpoints are those of this session: bound to its address, on an
/// agreed control port, with the expected peer, and on a media port pair.
pub open spec fn address_verdict(
    local: Ipv4Addr,
    go: Ipv4Addr,
    group_owner: bool,
    rtsp_port: u16,
    control: SocketAddrV4,
    peer: SocketAddrV4,
    rtp: SocketAddrV4,
    rtcp: SocketAddrV4,
) -> Result<(), Error> {
    if control.ip != local || rtp.ip != local || rtcp.ip != local {
        Err(Error::ForeignLocalAddress)
    } else if control.port != SOURCE_RTSP_PORT && peer.port != rtsp_port {
        Err(Error::WrongControlPort)
    } else if !is_other_host(peer.ip, local) {
        Err(Error::InvalidPeerAddress)
    } else if group_owner && !peer.ip.same_subnet(local) {
        Err(Error::PeerOutsideGroup)
    } else if !group_owner && peer.ip != go {
        Err(Error::PeerNotGroupOwner)
    } else if !is_media_pair(rtp.port, rtcp.port) {
        Err(Error::WrongMediaPorts)
    } else {
        Ok(())
    }
}

/// Validate the endpoints of a media request against the session.
pub fn validate_addresses(
    local: Ipv4Addr,
    go: &Ipv4Addr,
    group_owner: bool,
    rtsp_port: u16,
    control: SocketAddrV4,
    peer: SocketAddrV4,
    rtp: SocketAddrV4,
    rtcp: SocketAddrV4,
) -> (result: Result<(), Error>)
    ensures
        result == address_verdict(local, *go, group_owner, rtsp_port, control, peer, rtp, rtcp),
{
    if control.ip != local || rtp.ip != local || rtcp.ip != local {
        return Err(Error::ForeignLocalAddress);
    }
    if control.port != SOURCE_RTSP_PORT && peer.port != rtsp_port {
        return Err(Error::WrongControlPort);
    }
    let ip = peer.ip;
    if ip == local || ip.a == 127 || (224 <= ip.a && ip.a <= 239) || (ip.a == 0 && ip.b == 0 && ip.c == 0
        && ip.d == 0) || ip.d == 0 || ip.d == 255 {
        return Err(Error::InvalidPeerAddress);
    }
    if group_owner {
        if ip.a != local.a || ip.b != local.b || ip.c != local.c {
            return Err(Error::PeerOutsideGroup);
        }
    } else if ip != *go {
        return Err(Error::PeerNotGroupOwner);
    }
    if rtp.port < 1024 || rtp.port % 2 != 0 || rtp.port == u16::MAX || rtp.port + 1 != rtcp.port {
        return Err(Error::WrongMediaPorts);
    }
    Ok(())
}

/// A casting session. `C` is the handle of its P2P connection and `K` that of the
/// media sockets.
#[derive(Debug)]
pub struct Session<C, K> {
    /// Unique bus name of the caller that began it.
    pub owner: String,
    /// The group stays up as long as this is held.
    pub connection: C,
    /// The display's addressing.
    pub sink: Sink,
    /// The rules that are in effect.
    pub rules: Rules,
    /// Pin the permitted sockets until session cleanup; prevent port reuse.
    pub sockets: Option<K>,
}

/// D-Bus service state. Installation policy, not caller-supplied UID, grants access.
#[derive(Debug)]
pub struct NetworkService<C, K> {
    pub session: Option<Session<C, K>>,
}

/// Whether the one session can be begun.
#[derive(Debug, Clone, Copy, PartialEq, Eq, Structural)]
pub enum Slot {
    /// Another request is being worked on.
    Busy,
    /// There is a session.
    Occupied,
    /// There is none.
    Free,
}

/// What is known of a session's health; `None` is not known yet.
#[derive(Debug, Clone, Copy, PartialEq, Eq, Structural)]
pub struct Health {
    /// The caller is on the bus.
    pub owner: Option<bool>,
    /// The connection is active.
    pub connection: Option<bool>,
    /// The rules are in effect as they were made.
    pub rules: Option<bool>,
}

/// A question about a session's health.
#[derive(Debug, Clone, Copy, PartialEq, Eq, Structural)]
pub enum Probe {
    Owner,
    Connection,
    Rules,
}

impl Health {
    /// Nothing is known yet.
    pub open spec fn unknown() -> Health {
        Health { owner: None, connection: None, rules: None }
    }

    /// Start with nothing known.
    pub fn new() -> (health: Health)
        ensures
            health == Health::unknown(),
    {
        Health { owner: None, connection: None, rules: None }
    }

    /// Whether one of the answers ends the session.
    pub open spec fn broken(self) -> bool {
        self.owner == Some(false) || self.connection == Some(false) || self.rules == Some(false)
    }

    /// What to ask next, in a fixed order; nothing once an answer ended the session.
    pub open spec fn question(self) -> Option<Probe> {
        if self.broken() {
            None
        } else if self.owner is None {
            Some(Probe::Owner)
        } else if self.connection is None {
            Some(Probe::Connection)
        } else if self.rules is None {
            Some(Probe::Rules)
        } else {
            None
        }
    }

    /// What is known after an answer.
    pub open spec fn answered(self, probe: Probe, good: bool) -> Health {
        match probe {
            Probe::Owner => Health { owner: Some(good), ..self },
            Probe::Connection => Health { connection: Some(good), ..self },
            Probe::Rules => Health { rules: Some(good), ..self },
        }
    }

    /// What to ask next.
    pub fn next_probe(&self) -> (probe: Option<Probe>)
        ensures
            probe == self.question(),
    {
        match (self.owner, self.connection, self.rules) {
            (Some(false), _, _) => None,
            (_, Some(false), _) => None,
            (_, _, Some(false)) => None,
            (None, _, _) => Some(Probe::Owner),
            (_, None, _) => Some(Probe::Connection),
            (_, _, None) => Some(Probe::Rules),
            _ => None,
        }
    }

    /// Take in an answer.
    pub fn answer(self, probe: Probe, good: bool) -> (health: Health)
        ensures
            health == self.answered(probe, good),
    {
        match probe {
            Probe::Owner => Health { owner: Some(good), ..self },
            Probe::Connection => Health { connection: Some(good), ..self },
            Probe::Rules => Health { rules: Some(good), ..self },
        }
    }
}

/// The rules after a media request was validated: RTSP narrowed to the peer, and
/// RTCP where the display offered a port.
pub open spec fn media_rules(rules: Rules, peer: Ipv4Addr, port: u16, sink_rtcp: u16) -> Rules {
    Rules {
        peer: Some(peer),
        rtcp: if sink_rtcp != 0 {
            Some((port, sink_rtcp))
        } else {
            None
        },
        ..rules
    }
}

impl<C, K> NetworkService<C, K> {
    /// A service without a session.
    pub fn new() -> (service: NetworkService<C, K>)
        ensures
            service.session is None,
    {
        NetworkService { session: None }
    }

    /// Whether a session can be begun, given that no other request is being worked on.
    pub fn slot(&self) -> (slot: Slot)
        ensures
            slot == (if self.session is Some {
                Slot::Occupied
            } else {
                Slot::Free
            }),
    {
        match &self.session {
            Some(_) => Slot::Occupied,
            None => Slot::Free,
        }
    }

    /// The service once a session was set up; a session that is there already stays.
    pub open spec fn after_install(self, session: Session<C, K>) -> NetworkService<C, K> {
        match self.session {
            None => NetworkService { session: Some(session) },
            Some(_) => self,
        }
    }

    /// Record the session that was set up; a session that is there already stays.
    pub fn install(&mut self, session: Session<C, K>) -> (result: Result<(), Error>)
        ensures
            *final(self) == old(self).after_install(session),
            old(self).session is None ==> result == Ok::<(), Error>(()),
            old(self).session is Some ==> result == Err::<(), Error>(Error::SessionActive),
    {
        match &self.session {
            Some(_) => Err(Error::SessionActive),
            None => {
                self.session = Some(session);
                Ok(())
            },
        }
    }

    /// Whether `caller` may ask for media at all.
    pub open spec fn admission(self, caller: Seq<char>) -> Result<(), Error> {
        match self.session {
            None => Err(Error::NoSession),
            Some(session) => ownership(caller, session.owner@),
        }
    }

    /// Whether a caller may ask for media, before its sockets are looked at.
    pub fn admit_media(&self, caller: &str) -> (result: Result<(), Error>)
        ensures
            result == self.admission(caller@),
    {
        match &self.session {
            None => Err(Error::NoSession),
            Some(session) => require_owner(caller, session.owner.as_str()),
        }
    }

    /// What a media request of `caller` would put into effect.
    pub open spec fn media_plan(self, caller: Seq<char>, report: SocketReport, sink_rtcp: u16) -> Result<
        Rules,
        Error,
    > {
        match (self.admission(caller), self.session) {
            (Err(refused), _) => Err(refused),
            (Ok(()), None) => Err(Error::NoSession),
            (Ok(()), Some(session)) => match socket_verdict(session.rules, session.sink, report) {
                Err(refused) => Err(refused),
                Ok((peer, port)) => Ok(media_rules(session.rules, peer, port, sink_rtcp)),
            },
        }
    }

    /// Validate actual sockets passed over D-Bus, then name the rules that authorize
    /// precisely their RTCP flow.
    pub fn authorize_media(&self, caller: &str, report: SocketReport, sink_rtcp: u16) -> (result: Result<
        Rules,
        Error,
    >)
        ensures
            result == self.media_plan(caller@, report, sink_rtcp),
    {
        match self.admit_media(caller) {
            Ok(()) => {},
            Err(error) => return Err(error),
        }
        match &self.session {
            None => Err(Error::NoSession),
            Some(session) => match validate_sockets(&session.rules, &session.sink, report) {
                Ok((peer, port)) => {
                    let mut rules = session.rules.clone();
                    rules.peer = Some(peer);
                    rules.rtcp = if sink_rtcp != 0 { Some((port, sink_rtcp)) } else { None };
                    Ok(rules)
                },
                Err(error) => Err(error),
            },
        }
    }

    /// The service once the rules of a media request took effect, or did not.
    pub open spec fn after_media(self, rules: Rules, applied: Result<(), Error>, sockets: K) -> NetworkService<
        C,
        K,
    > {
        match (applied, self.session) {
            (Ok(()), Some(session)) => NetworkService {
                session: Some(Session { rules, sockets: Some(sockets), ..session }),
            },
            _ => self,
        }
    }

    /// Record that the rules of a media request took effect, and hold its sockets;
    /// where they did not, the session stays as it was.
    pub fn settle_media(&mut self, rules: Rules, applied: Result<(), Error>, sockets: K) -> (result: Result<
        (),
        Error,
    >)
        ensures
            *final(self) == old(self).after_media(rules, applied, sockets),
            result == match (applied, old(self).session) {
                (Err(failed), _) => Err::<(), Error>(failed),
                (Ok(()), None) => Err::<(), Error>(Error::NoSession),
                (Ok(()), Some(_)) => Ok::<(), Error>(()),
            },
    {
        match applied {
            Ok(()) => match self.session.take() {
                Some(session) => {
                    self.session = Some(Session { rules, sockets: Some(sockets), ..session });
                    Ok(())
                },
                None => Err(Error::NoSession),
            },
            Err(error) => Err(error),
        }
    }

    /// The service once `caller` asked to end the session.
    pub open spec fn after_end(self, caller: Seq<char>) -> NetworkService<C, K> {
        if self.alive(caller) {
            NetworkService { session: None }
        } else {
            self
        }
    }

    /// Idempotent teardown for the caller that owns the session: what is left to close.
    pub fn end_session(&mut self, caller: &str) -> (result: Result<Option<Session<C, K>>, Error>)
        ensures
            *final(self) == old(self).after_end(caller@),
            result == match old(self).session {
                None => Ok::<Option<Session<C, K>>, Error>(None),
                Some(session) => match ownership(caller@, session.owner@) {
                    Ok(()) => Ok::<Option<Session<C, K>>, Error>(Some(session)),
                    Err(refused) => Err::<Option<Session<C, K>>, Error>(refused),
                },
            },
    {
        match &self.session {
            Some(session) => match require_owner(caller, session.owner.as_str()) {
                Ok(()) => {},
                Err(error) => return Err(error),
            },
            None => {},
        }
        Ok(self.session.take())
    }

    /// Whether `caller` owns the session.
    pub open spec fn alive(self, caller: Seq<char>) -> bool {
        self.session matches Some(session) && session.owner@ == caller
    }

    /// Polling health endpoint bound to the caller; never returns another user's state.
    pub fn session_alive(&self, caller: &str) -> (alive: bool)
        ensures
            alive == self.alive(caller@),
    {
        match &self.session {
            Some(session) => same_text(session.owner.as_str(), caller),
            None => false,
        }
    }

    /// The service once its session's health was looked into.
    pub open spec fn after_supervision(self, health: Health) -> NetworkService<C, K> {
        if health.broken() {
            NetworkService { session: None }
        } else {
            self
        }
    }

    /// Monitor caller lifetime and the exact rule/interface state. A reload ends
    /// the session instead of reopening permissions from potentially stale data:
    /// what is left to close.
    pub fn supervise(&mut self, health: Health) -> (ended: Option<Session<C, K>>)
        ensures
            *final(self) == old(self).after_supervision(health),
            ended == (if health.broken() {
                old(self).session
            } else {
                None
            }),
    {
        match (health.owner, health.connection, health.rules) {
            (Some(false), _, _) => self.session.take(),
            (_, Some(false), _) => self.session.take(),
            (_, _, Some(false)) => self.session.take(),
            _ => None,
        }
    }
}

impl<C, K> Default for NetworkService<C, K> {
    fn default() -> (service: NetworkService<C, K>)
        ensures
            service.session is None,
    {
        NetworkService::new()
    }
}

} // verus!
