//! What holds of a session from the preparation of its group to its end.
use crate::address::Ipv4Addr;
use crate::firewall::{is_p2p_name, is_valid_name, Rules};
use crate::history::{in_order, law_each_check_was_passed};
use crate::procedure::{first_rules, HostReply, Preparation, SOURCE_RTSP_PORT};
use crate::procedure_laws::law_preparation_follows_its_steps;
use crate::service::{NetworkService, Session};
use crate::service_laws::{law_session_keeps_its_identity, law_sound_sessions_stay_sound, Step};
use crate::setup::{Begin, BeginEvent, BeginPhase, Link};
use crate::setup_laws::{is_connection, law_phases_are_earned, narrowed_steps};
use vstd::prelude::*;

verus! {

/// Whether some preparation ended with these rules in effect.
pub open spec fn was_prepared(rules: Rules) -> bool {
    exists|radio: String, name: String, group_owner: bool, replies: Seq<HostReply>|
        #[trigger] Preparation::begun(radio, name, group_owner).after_all(replies)
            == (Preparation::Prepared { rules })
}

/// The rules that a preparation ends with are the first rules of a P2P data
/// interface, and can be rendered.
pub proof fn law_prepared_rules(rules: Rules)
    requires
        was_prepared(rules),
    ensures
        rules == first_rules(rules.interface, rules.group_owner),
        is_valid_name(rules.interface.name@),
        is_p2p_name(rules.interface.name@),
        rules.refusal() is None,
{
    let (radio, name, group_owner, replies) = choose|
        radio: String,
        name: String,
        group_owner: bool,
        replies: Seq<HostReply>,
    |
        #[trigger] Preparation::begun(radio, name, group_owner).after_all(replies)
            == (Preparation::Prepared { rules });
    law_preparation_follows_its_steps(radio, name, group_owner, replies);
}

/// Whether every connection among some events came up with the rules of a preparation.
pub open spec fn come_prepared(events: Seq<BeginEvent>) -> bool {
    forall|i: int|
        0 <= i < events.len() ==> (#[trigger] events[i] matches BeginEvent::Connected {
            prepared: Some(rules),
            ..
        } ==> was_prepared(rules))
}

/// An established session opens the source's own port on its local address, to
/// nobody in particular yet and without RTCP, and its rules can be rendered.
pub proof fn law_established_rules(
    request: Begin,
    events: Seq<BeginEvent>,
    rules: Rules,
    link: Link,
    local: Ipv4Addr,
    go_ip: String,
)
    requires
        request.phase is Authorizing,
        come_prepared(events),
        request.after_all(events).phase == (BeginPhase::Established { rules, link, local, go_ip }),
    ensures
        rules.refusal() is None,
        rules.rtsp == SOURCE_RTSP_PORT,
        rules.local == Some(local),
        rules.peer is None,
        rules.rtcp is None,
        is_p2p_name(rules.interface.name@),
{
    law_phases_are_earned(request, events);
    let radio = choose|radio: String|
        in_order(#[trigger] narrowed_steps(radio, rules, link, local), events);
    let checks = narrowed_steps(radio, rules, link, local);
    law_each_check_was_passed(checks, events, 6);
    let n = choose|n: int| 0 <= n < events.len() && (checks[6])(#[trigger] events[n]);
    assert(is_connection(events[n], rules, link, local));
    if let BeginEvent::Connected { prepared: Some(prepared), .. } = events[n] {
        law_prepared_rules(prepared);
    }
}

/// Whether a session is what a request came to.
pub open spec fn sets_up<C, K>(request: Begin, events: Seq<BeginEvent>, session: Session<C, K>) -> bool {
    &&& request.phase is Authorizing
    &&& come_prepared(events)
    &&& request.after_all(events).phase matches BeginPhase::Established { rules, link, .. } && {
        &&& session.owner == request.owner
        &&& session.sink == link.sink
        &&& session.rules == rules
        &&& session.sockets is None
    }
}

/// Whether every session among some steps was set up by a request.
pub open spec fn are_set_up<C, K>(steps: Seq<Step<C, K>>) -> bool {
    forall|i: int|
        0 <= i < steps.len() ==> (#[trigger] steps[i] matches Step::Install { session } ==> exists|
            request: Begin,
            events: Seq<BeginEvent>,
        | #[trigger]
            sets_up(request, events, session))
}

/// The invariant of the service. Whatever happens from the start on, a session's
/// rules can be rendered, open the source's own port and are narrowed to the local
/// address; its sockets are held exactly when its peer is known, and RTCP is
/// permitted only then; and it stays the same owner's as long as it lasts.
pub proof fn law_every_session_is_sound<C, K>(service: NetworkService<C, K>, steps: Seq<Step<C, K>>)
    requires
        service.session is None,
        are_set_up(steps),
    ensures
        service.after_steps(steps).well_formed(),
        steps.len() > 0 ==> {
            let before = service.after_steps(steps.drop_last()).session;
            let after = service.after_steps(steps).session;
            before is Some && after is Some ==> before->0.owner == after->0.owner
        },
    decreases steps.len(),
{
    if steps.len() > 0 {
        let front = steps.drop_last();
        let before = service.after_steps(front);
        let step = steps[steps.len() - 1];
        assert forall|i: int| 0 <= i < front.len() implies (#[trigger] front[i] matches Step::Install {
            session,
        } ==> exists|request: Begin, events: Seq<BeginEvent>| #[trigger]
            sets_up(request, events, session)) by {
            assert(front[i] == steps[i]);
        }
        law_every_session_is_sound(service, front);
        if let Step::Install { session } = step {
            let (request, events) = choose|request: Begin, events: Seq<BeginEvent>| #[trigger]
                sets_up(request, events, session);
            if let BeginPhase::Established { rules, link, local, go_ip } = request.after_all(
                events,
            ).phase {
                law_established_rules(request, events, rules, link, local, go_ip);
            }
        } else {
            law_sound_sessions_stay_sound(before, step);
        }
        if before.session is Some && before.after_step(step).session is Some {
            law_session_keeps_its_identity(before, step);
        }
    }
}

} // verus!
