//! What holds of the service over any course of requests.
use crate::address::{parsed, Ipv4Addr, SocketAddrV4};
use crate::error::Error;
use crate::firewall::Rules;
use crate::procedure::SOURCE_RTSP_PORT;
use crate::service::{
    address_verdict, is_media_pair, is_other_host, socket_verdict, Health, NetworkService, Probe, Session,
    SocketReport,
};
use vstd::prelude::*;

verus! {

/// Something that can happen to the service.
pub enum Step<C, K> {
    /// A session was set up.
    Install { session: Session<C, K> },
    /// A caller asked for media; whether its rules took effect where they were accepted.
    Media {
        caller: Seq<char>,
        report: SocketReport,
        sink_rtcp: u16,
        applied: Result<(), Error>,
        sockets: K,
    },
    /// A caller asked to end the session.
    End { caller: Seq<char> },
    /// The session's health was looked into.
    Supervise { health: Health },
}

impl<C, K> NetworkService<C, K> {
    /// The service after one step.
    pub open spec fn after_step(self, step: Step<C, K>) -> NetworkService<C, K> {
        match step {
            Step::Install { session } => self.after_install(session),
            Step::Media { caller, report, sink_rtcp, applied, sockets } => match self.media_plan(
                caller,
                report,
                sink_rtcp,
            ) {
                Ok(rules) => self.after_media(rules, applied, sockets),
                Err(_) => self,
            },
            Step::End { caller } => self.after_end(caller),
            Step::Supervise { health } => self.after_supervision(health),
        }
    }

    /// The service after a number of steps.
    pub open spec fn after_steps(self, steps: Seq<Step<C, K>>) -> NetworkService<C, K>
        decreases steps.len(),
    {
        if steps.len() == 0 {
            self
        } else {
            self.after_steps(steps.drop_last()).after_step(steps.last())
        }
    }

    /// Whether the session, if there is one, is sound: its rules can be rendered,
    /// open the source's own port and are narrowed to the local address; its sockets
    /// are held exactly when its peer is known, and RTCP is permitted only then.
    pub open spec fn well_formed(self) -> bool {
        self.session matches Some(session) ==> {
            &&& session.rules.refusal() is None
            &&& session.rules.rtsp == SOURCE_RTSP_PORT
            &&& session.rules.local is Some
            &&& session.sockets is Some <==> session.rules.peer is Some
            &&& session.rules.rtcp is Some ==> session.sockets is Some
        }
    }
}

/// Whether a step comes neither from the owner nor from ill health.
pub open spec fn is_foreign<C, K>(step: Step<C, K>, owner: Seq<char>) -> bool {
    match step {
        Step::Install { .. } => true,
        Step::Media { caller, .. } => caller != owner,
        Step::End { caller } => caller != owner,
        Step::Supervise { health } => !health.broken(),
    }
}

/// Other callers cannot change or end a session, nor begin one beside it, however
/// often they try.
pub proof fn law_strangers_change_nothing<C, K>(
    service: NetworkService<C, K>,
    session: Session<C, K>,
    steps: Seq<Step<C, K>>,
)
    requires
        service.session == Some(session),
        forall|i: int| 0 <= i < steps.len() ==> is_foreign(#[trigger] steps[i], session.owner@),
    ensures
        service.after_steps(steps) == service,
    decreases steps.len(),
{
    if steps.len() > 0 {
        let front = steps.drop_last();
        assert forall|i: int| 0 <= i < front.len() implies is_foreign(
            #[trigger] front[i],
            session.owner@,
        ) by {
            assert(front[i] == steps[i]);
        }
        law_strangers_change_nothing(service, session, front);
        assert(is_foreign(steps[steps.len() - 1], session.owner@));
    }
}

/// A stranger's media request is refused as such, whatever sockets it brings.
pub proof fn law_strangers_get_no_media<C, K>(
    service: NetworkService<C, K>,
    session: Session<C, K>,
    caller: Seq<char>,
    report: SocketReport,
    sink_rtcp: u16,
)
    requires
        service.session == Some(session),
        caller != session.owner@,
    ensures
        service.media_plan(caller, report, sink_rtcp) == Err::<Rules, Error>(Error::NotOwner),
{
}

/// While a session lasts, it stays the same caller's, on the same connection, the
/// same interface and the same local address.
pub proof fn law_session_keeps_its_identity<C, K>(service: NetworkService<C, K>, step: Step<C, K>)
    requires
        service.session is Some,
        service.after_step(step).session is Some,
    ensures
        ({
            let before = service.session->0;
            let after = service.after_step(step).session->0;
            &&& after.owner == before.owner
            &&& after.connection == before.connection
            &&& after.sink == before.sink
            &&& after.rules.interface == before.rules.interface
            &&& after.rules.group_owner == before.rules.group_owner
            &&& after.rules.rtsp == before.rules.rtsp
            &&& after.rules.local == before.rules.local
        }),
{
}

/// A session's rules and sockets change only together, by a media request of its
/// owner whose rules took effect; once sockets are held, some are held until the
/// session ends.
pub proof fn law_sockets_are_pinned_with_their_rules<C, K>(service: NetworkService<C, K>, step: Step<C, K>)
    requires
        service.session is Some,
        service.after_step(step).session is Some,
    ensures
        ({
            let before = service.session->0;
            let after = service.after_step(step).session->0;
            &&& before.sockets is Some ==> after.sockets is Some
            &&& after != before ==> (step matches Step::Media {
                caller,
                report,
                sink_rtcp,
                applied,
                sockets,
            } && caller == before.owner@ && applied is Ok && service.media_plan(caller, report, sink_rtcp)
                == Ok::<Rules, Error>(after.rules) && after.sockets == Some(sockets))
        }),
{
}

/// A session ends only at its owner's request or by ill health.
pub proof fn law_sessions_end_for_a_reason<C, K>(service: NetworkService<C, K>, step: Step<C, K>)
    requires
        service.session is Some,
        service.after_step(step).session is None,
    ensures
        match step {
            Step::End { caller } => service.alive(caller),
            Step::Supervise { health } => health.broken(),
            _ => false,
        },
{
}

/// Ending a session is idempotent: once its owner has ended it, nobody has a
/// session, and ending by any caller changes nothing more. An end by anyone else
/// changes nothing in the first place.
pub proof fn law_ending_is_idempotent<C, K>(
    service: NetworkService<C, K>,
    caller: Seq<char>,
    other: Seq<char>,
)
    ensures
        service.alive(caller) ==> {
            &&& service.after_end(caller).session is None
            &&& !service.after_end(caller).alive(other)
            &&& service.after_end(caller).after_end(other) == service.after_end(caller)
        },
        !service.alive(caller) ==> service.after_end(caller) == service,
        service.after_end(caller).after_end(caller) == service.after_end(caller),
        !service.after_end(caller).alive(caller),
{
}

/// A session is alive for at most one caller.
pub proof fn law_one_owner<C, K>(service: NetworkService<C, K>, x: Seq<char>, y: Seq<char>)
    requires
        service.alive(x),
        service.alive(y),
    ensures
        x == y,
{
}

/// Endpoints are accepted if and only if all three sockets are bound to the
/// session's address, the control connection uses the source's own port or the
/// display's, the peer is the group owner or, where the source owns the group,
/// another host of it, and the media ports are an unprivileged even port and the
/// odd port after it.
pub proof fn law_accepted_endpoints(
    local: Ipv4Addr,
    go: Ipv4Addr,
    group_owner: bool,
    rtsp_port: u16,
    control: SocketAddrV4,
    peer: SocketAddrV4,
    rtp: SocketAddrV4,
    rtcp: SocketAddrV4,
)
    ensures
        address_verdict(local, go, group_owner, rtsp_port, control, peer, rtp, rtcp) is Ok <==> {
            &&& control.ip == local && rtp.ip == local && rtcp.ip == local
            &&& control.port == SOURCE_RTSP_PORT || peer.port == rtsp_port
            &&& is_other_host(peer.ip, local)
            &&& if group_owner {
                peer.ip.same_subnet(local)
            } else {
                peer.ip == go
            }
            &&& is_media_pair(rtp.port, rtcp.port)
        },
        address_verdict(local, go, group_owner, rtsp_port, control, peer, rtp, rtcp) is Ok ==> rtcp.port % 2
            == 1 && rtcp.port > 1024,
{
}

/// A media request that is accepted only narrows the session's rules to the
/// control connection's peer and adds the flow from the display's port, where it
/// named one, to the reserved port.
pub proof fn law_media_only_narrows<C, K>(
    service: NetworkService<C, K>,
    caller: Seq<char>,
    report: SocketReport,
    sink_rtcp: u16,
    rules: Rules,
)
    requires
        service.media_plan(caller, report, sink_rtcp) == Ok::<Rules, Error>(rules),
    ensures
        service.alive(caller),
        report.peer matches Ok(peer) && rules.peer == Some(peer.ip),
        report.rtcp matches Ok(rtcp) && rules.rtcp == (if sink_rtcp == 0 {
            None
        } else {
            Some((rtcp.port, sink_rtcp))
        }),
        rules == (Rules { peer: rules.peer, rtcp: rules.rtcp, ..service.session->0.rules }),
{
}

/// The rules of an accepted media request can be rendered.
pub proof fn law_accepted_media_can_be_rendered<C, K>(
    service: NetworkService<C, K>,
    caller: Seq<char>,
    report: SocketReport,
    sink_rtcp: u16,
    rules: Rules,
)
    requires
        service.well_formed(),
        service.media_plan(caller, report, sink_rtcp) == Ok::<Rules, Error>(rules),
    ensures
        rules.refusal() is None,
{
    let session = service.session->0;
    assert(socket_verdict(session.rules, session.sink, report) is Ok);
    assert(parsed(session.sink.go_ip_address->0@) is Ok);
}

/// A sound session stays sound, whatever happens to it.
pub proof fn law_sound_sessions_stay_sound<C, K>(service: NetworkService<C, K>, step: Step<C, K>)
    requires
        service.well_formed(),
        !(step is Install),
    ensures
        service.after_step(step).well_formed(),
{
    if let Step::Media { caller, report, sink_rtcp, .. } = step {
        if let Ok(rules) = service.media_plan(caller, report, sink_rtcp) {
            law_accepted_media_can_be_rendered(service, caller, report, sink_rtcp, rules);
        }
    }
}

/// What is known of a session's health after the next question was answered.
pub open spec fn probed(health: Health, answers: spec_fn(Probe) -> bool) -> Health {
    match health.question() {
        Some(probe) => health.answered(probe, answers(probe)),
        None => health,
    }
}

/// After at most three questions nothing is left to ask, and the session is ended
/// if and only if one of the answers was bad. After a bad answer nothing more is asked.
pub proof fn law_health_is_decided_by_three_answers(answers: spec_fn(Probe) -> bool)
    ensures
        ({
            let first = probed(Health::unknown(), answers);
            let second = probed(first, answers);
            let third = probed(second, answers);
            &&& third.question() is None
            &&& third.broken() <==> !(answers(Probe::Owner) && answers(Probe::Connection) && answers(
                Probe::Rules,
            ))
            &&& !answers(Probe::Owner) ==> first.broken() && third == first
            &&& !answers(Probe::Connection) ==> second.broken() && third == second
        }),
{
}

} // verus!
