//! The unprivileged side: what a client makes of the helper's replies.
use crate::address::Ipv4Addr;
use crate::error::Error;
use crate::firewall::Rules;
use crate::service::{media_rules, Sink};
use crate::setup::Link;
use crate::SessionInfo;
use vstd::prelude::*;

verus! {

/// How long a client waits for a session to begin.
pub const BEGIN_SECONDS: u64 = 120;

/// How long a client waits for media to be authorized.
pub const MEDIA_SECONDS: u64 = 10;

/// How long a client waits for a session to end.
pub const END_SECONDS: u64 = 15;

/// How long a client waits for a sign of life.
pub const ALIVE_SECONDS: u64 = 3;

/// What a request to the helper came to.
#[derive(Debug)]
pub enum Reply<T> {
    /// There was no reply in time.
    TimedOut,
    /// The request failed, in the words of the bus or of the helper.
    Failed { cause: String },
    /// The helper's reply.
    Received { value: T },
}

/// Take the reply to a request to begin a session: the connection that the helper
/// set up, with the addressing that the helper tells.
pub fn begin(reply: Reply<SessionInfo>) -> (result: Result<Link, Error>)
    ensures
        match reply {
            Reply::TimedOut => result == Err::<Link, Error>(Error::BeginTimedOut),
            Reply::Failed { cause } => result == Err::<Link, Error>(Error::BeginFailed { cause }),
            Reply::Received { value } => result == Ok::<Link, Error>(adopted(value)) && (
            result matches Ok(link) && link.interface == value.interface && link.sink.ip_address == Some(
                value.local_ip,
            ) && link.sink.go_ip_address == Some(value.go_ip) && link.sink.rtsp_port == value.rtsp_port),
        },
{
    match reply {
        Reply::TimedOut => Err(Error::BeginTimedOut),
        Reply::Failed { cause } => Err(Error::BeginFailed { cause }),
        Reply::Received { value } => {
            let SessionInfo { interface, local_ip, go_ip, rtsp_port } = value;
            Ok(
                Link {
                    interface,
                    sink: Sink {
                        ip_address: Some(local_ip),
                        go_ip_address: Some(go_ip),
                        rtsp_port,
                    },
                },
            )
        },
    }
}

/// The connection that the helper's addressing describes.
pub open spec fn adopted(info: SessionInfo) -> Link {
    Link {
        interface: info.interface,
        sink: Sink {
            ip_address: Some(info.local_ip),
            go_ip_address: Some(info.go_ip),
            rtsp_port: info.rtsp_port,
        },
    }
}

/// Whether the helper still owns this caller's session: only its own word for it
/// counts, in time.
pub fn alive(reply: &Reply<bool>) -> (alive: bool)
    ensures
        alive == (*reply == (Reply::Received { value: true })),
{
    match reply {
        Reply::Received { value } => *value,
        _ => false,
    }
}

/// The display's RTCP port as a media request carries it.
pub open spec fn carried_port(sink_rtcp: Option<u16>) -> u16 {
    match sink_rtcp {
        Some(port) => port,
        None => 0,
    }
}

/// Write the display's RTCP port into a media request; none is written as zero.
pub fn rtcp_argument(sink_rtcp: Option<u16>) -> (port: u16)
    ensures
        port == carried_port(sink_rtcp),
{
    match sink_rtcp {
        Some(port) => port,
        None => 0,
    }
}

/// Insist that the session's owner still holds it.
pub fn require_session<B>(held: Option<B>) -> (result: Result<B, Error>)
    ensures
        held matches Some(session) ==> result == Ok::<B, Error>(session),
        held is None ==> result == Err::<B, Error>(Error::SessionEnded),
{
    match held {
        Some(session) => Ok(session),
        None => Err(Error::SessionEnded),
    }
}

/// A display that negotiated no RTCP, or named no usable port, gets no RTCP rule;
/// any other port that a client carries to the helper is the one that the rule names.
pub proof fn law_negotiated_port_is_permitted(
    rules: Rules,
    peer: Ipv4Addr,
    local_port: u16,
    sink_rtcp: Option<u16>,
)
    ensures
        media_rules(rules, peer, local_port, carried_port(sink_rtcp)).rtcp == match sink_rtcp {
            Some(port) => if port != 0 {
                Some((local_port, port))
            } else {
                None
            },
            None => None,
        },
{
}

} // verus!
