//! What holds of bringing a session up and down over any course of events.
use crate::address::{parsed, Ipv4Addr};
use crate::error::Error;
use crate::firewall::Rules;
use crate::history::{
    in_order, lemma_in_order_empty, lemma_in_order_grows, lemma_in_order_shortens,
};
use crate::service::Slot;
use crate::setup::{Begin, BeginAction, BeginEvent, BeginPhase, Link, Teardown, TeardownEvent};
use vstd::prelude::*;

verus! {

impl Begin {
    /// The request after a number of events.
    pub open spec fn after_all(self, events: Seq<BeginEvent>) -> Begin
        decreases events.len(),
    {
        if events.len() == 0 {
            self
        } else {
            self.after_all(events.drop_last()).after(events.last())
        }
    }
}

/// An event by which the caller was authorized.
pub open spec fn is_authorization(event: BeginEvent) -> bool {
    event matches BeginEvent::Authorized { result } && result is Ok
}

/// An event by which the one session was free, and claimed.
pub open spec fn is_claim(event: BeginEvent) -> bool {
    event == (BeginEvent::Acquired { slot: Slot::Free })
}

/// An event by which the installation hook was found in place.
pub open spec fn is_hook(event: BeginEvent) -> bool {
    event matches BeginEvent::HookChecked { result } && result is Ok
}

/// An event by which leftover rules were removed.
pub open spec fn is_clearing(event: BeginEvent) -> bool {
    event matches BeginEvent::Cleared { result } && result is Ok
}

/// An event by which the radio was opened.
pub open spec fn is_opening(event: BeginEvent, radio: String) -> bool {
    event == (BeginEvent::Opened { radio: Ok(radio) })
}

/// An event by which the display was resolved, with an unprivileged port.
pub open spec fn is_resolution(event: BeginEvent) -> bool {
    event matches BeginEvent::Resolved { port } && port matches Ok(port) && port >= 1024
}

/// An event by which a connection came up with prepared rules and with a local
/// address that these were narrowed to.
pub open spec fn is_connection(event: BeginEvent, rules: Rules, link: Link, local: Ipv4Addr) -> bool {
    event matches BeginEvent::Connected { link: got, prepared: Some(prepared) } && got == Ok::<Link, Error>(
        link,
    ) && rules == (Rules { local: Some(local), ..prepared }) && (link.sink.ip_address matches Some(text)
        && parsed(text@) == Ok::<Ipv4Addr, Error>(local))
}

/// An event by which rules took effect.
pub open spec fn is_application(event: BeginEvent) -> bool {
    event matches BeginEvent::Applied { result } && result is Ok
}

/// The caller was authorized.
pub open spec fn authorized_steps() -> Seq<spec_fn(BeginEvent) -> bool> {
    seq![|event: BeginEvent| is_authorization(event)]
}

/// The session was then claimed.
pub open spec fn claimed_steps() -> Seq<spec_fn(BeginEvent) -> bool> {
    authorized_steps().push(|event: BeginEvent| is_claim(event))
}

/// The hook was then found in place.
pub open spec fn hooked_steps() -> Seq<spec_fn(BeginEvent) -> bool> {
    claimed_steps().push(|event: BeginEvent| is_hook(event))
}

/// Leftover rules were then removed.
pub open spec fn cleared_steps() -> Seq<spec_fn(BeginEvent) -> bool> {
    hooked_steps().push(|event: BeginEvent| is_clearing(event))
}

/// The hook was found in place, and removing rules later failed.
pub open spec fn uncleared_steps(error: Error) -> Seq<spec_fn(BeginEvent) -> bool> {
    hooked_steps().push(|event: BeginEvent| event == (BeginEvent::Cleared { result: Err(error) }))
}

/// The radio was opened after leftover rules were removed.
pub open spec fn opened_steps(radio: String) -> Seq<spec_fn(BeginEvent) -> bool> {
    cleared_steps().push(|event: BeginEvent| is_opening(event, radio))
}

/// The display was then resolved on it.
pub open spec fn resolved_steps(radio: String) -> Seq<spec_fn(BeginEvent) -> bool> {
    opened_steps(radio).push(|event: BeginEvent| is_resolution(event))
}

/// The connection then came up.
pub open spec fn connected_steps(radio: String, rules: Rules, link: Link, local: Ipv4Addr) -> Seq<
    spec_fn(BeginEvent) -> bool,
> {
    resolved_steps(radio).push(|event: BeginEvent| is_connection(event, rules, link, local))
}

/// The narrowed rules then took effect.
pub open spec fn narrowed_steps(radio: String, rules: Rules, link: Link, local: Ipv4Addr) -> Seq<
    spec_fn(BeginEvent) -> bool,
> {
    connected_steps(radio, rules, link, local).push(|event: BeginEvent| is_application(event))
}

/// What must have happened, in this order, for a request to be in a phase.
pub open spec fn earned(phase: BeginPhase, events: Seq<BeginEvent>) -> bool {
    match phase {
        BeginPhase::Authorizing => true,
        BeginPhase::Acquiring => in_order(authorized_steps(), events),
        BeginPhase::CheckingHook => in_order(claimed_steps(), events),
        BeginPhase::Clearing => in_order(hooked_steps(), events),
        BeginPhase::Opening => in_order(cleared_steps(), events),
        BeginPhase::Resolving { radio } => in_order(opened_steps(radio), events),
        BeginPhase::Connecting { radio } => in_order(resolved_steps(radio), events),
        BeginPhase::Narrowing { rules, link, local } => exists|radio: String|
            in_order(#[trigger] connected_steps(radio, rules, link, local), events),
        BeginPhase::Closing { .. } => in_order(cleared_steps(), events),
        BeginPhase::Unwinding { .. } => in_order(cleared_steps(), events),
        BeginPhase::Established { rules, link, local, go_ip } => link.sink.go_ip_address == Some(go_ip)
            && exists|radio: String|
            in_order(#[trigger] narrowed_steps(radio, rules, link, local), events),
        BeginPhase::Refused { .. } => true,
        BeginPhase::Fatal { error } => in_order(uncleared_steps(error), events),
    }
}

proof fn lemma_uncleared(error: Error, events: Seq<BeginEvent>)
    requires
        events.len() > 0,
        in_order(hooked_steps(), events.drop_last()),
        events.last() == (BeginEvent::Cleared { result: Err(error) }),
    ensures
        in_order(uncleared_steps(error), events),
{
    lemma_in_order_grows(
        hooked_steps(),
        |event: BeginEvent| event == (BeginEvent::Cleared { result: Err(error) }),
        events,
    );
}

proof fn lemma_opened_was_cleared(radio: String, events: Seq<BeginEvent>)
    requires
        in_order(opened_steps(radio), events),
    ensures
        in_order(cleared_steps(), events),
{
    lemma_in_order_shortens(
        cleared_steps(),
        |event: BeginEvent| is_opening(event, radio),
        events,
    );
}

proof fn lemma_resolved_was_cleared(radio: String, events: Seq<BeginEvent>)
    requires
        in_order(resolved_steps(radio), events),
    ensures
        in_order(cleared_steps(), events),
{
    lemma_in_order_shortens(opened_steps(radio), |event: BeginEvent| is_resolution(event), events);
    lemma_opened_was_cleared(radio, events);
}

proof fn lemma_connected_was_cleared(
    radio: String,
    rules: Rules,
    link: Link,
    local: Ipv4Addr,
    events: Seq<BeginEvent>,
)
    requires
        in_order(connected_steps(radio, rules, link, local), events),
    ensures
        in_order(cleared_steps(), events),
{
    lemma_in_order_shortens(
        resolved_steps(radio),
        |event: BeginEvent| is_connection(event, rules, link, local),
        events,
    );
    lemma_resolved_was_cleared(radio, events);
}

/// Whatever events come, a request is only ever in a phase that it earned: the
/// caller is authorized before the session is claimed, the hook is checked and
/// leftovers are removed before the radio is touched, and a session is established
/// only once the prepared rules were narrowed to its local address.
#[verifier::spinoff_prover]
pub proof fn law_phases_are_earned(request: Begin, events: Seq<BeginEvent>)
    requires
        request.phase is Authorizing,
    ensures
        earned(request.after_all(events).phase, events),
        request.after_all(events) == (Begin { phase: request.after_all(events).phase, ..request }),
    decreases events.len(),
{
    if events.len() > 0 {
        let front = events.drop_last();
        let before = request.after_all(front);
        let now = before.after(events.last());
        let clearing = |event: BeginEvent| is_clearing(event);
        law_phases_are_earned(request, front);
        match before.phase {
            BeginPhase::Authorizing => {
                let check = |event: BeginEvent| is_authorization(event);
                lemma_in_order_empty(front);
                lemma_in_order_grows(seq![], check, events);
                assert(seq![].push(check) =~= authorized_steps());
            },
            BeginPhase::Acquiring => {
                lemma_in_order_grows(
                    authorized_steps(),
                    |event: BeginEvent| is_claim(event),
                    events,
                );
            },
            BeginPhase::CheckingHook => {
                lemma_in_order_grows(claimed_steps(), |event: BeginEvent| is_hook(event), events);
            },
            BeginPhase::Clearing => {
                lemma_in_order_grows(hooked_steps(), clearing, events);
                if let BeginPhase::Fatal { error } = now.phase {
                    lemma_uncleared(error, events);
                }
            },
            BeginPhase::Opening => {
                lemma_in_order_grows(cleared_steps(), clearing, events);
                if let BeginPhase::Resolving { radio } = now.phase {
                    lemma_in_order_grows(
                        cleared_steps(),
                        |event: BeginEvent| is_opening(event, radio),
                        events,
                    );
                }
            },
            BeginPhase::Resolving { radio } => {
                lemma_in_order_grows(
                    opened_steps(radio),
                    |event: BeginEvent| is_resolution(event),
                    events,
                );
                lemma_opened_was_cleared(radio, events);
            },
            BeginPhase::Connecting { radio } => {
                lemma_in_order_grows(resolved_steps(radio), clearing, events);
                lemma_resolved_was_cleared(radio, events);
                if let BeginPhase::Narrowing { rules, link, local } = now.phase {
                    lemma_in_order_grows(
                        resolved_steps(radio),
                        |event: BeginEvent| is_connection(event, rules, link, local),
                        events,
                    );
                    assert(in_order(connected_steps(radio, rules, link, local), events));
                }
            },
            BeginPhase::Narrowing { rules, link, local } => {
                let radio = choose|radio: String|
                    in_order(#[trigger] connected_steps(radio, rules, link, local), front);
                lemma_in_order_grows(
                    connected_steps(radio, rules, link, local),
                    |event: BeginEvent| is_application(event),
                    events,
                );
                lemma_connected_was_cleared(radio, rules, link, local, events);
                match now.phase {
                    BeginPhase::Narrowing { rules: r, link: l, local: a } => {
                        assert(in_order(connected_steps(radio, r, l, a), events));
                    },
                    BeginPhase::Established { rules: r, link: l, local: a, go_ip } => {
                        assert(in_order(narrowed_steps(radio, r, l, a), events));
                        assert(l.sink.go_ip_address == Some(go_ip));
                    },
                    _ => {},
                }
            },
            BeginPhase::Established { rules, link, local, .. } => {
                let radio = choose|radio: String|
                    in_order(#[trigger] narrowed_steps(radio, rules, link, local), front);
                lemma_in_order_grows(narrowed_steps(radio, rules, link, local), clearing, events);
            },
            BeginPhase::Closing { .. } => {
                lemma_in_order_grows(cleared_steps(), clearing, events);
            },
            BeginPhase::Unwinding { .. } => {
                lemma_in_order_grows(cleared_steps(), clearing, events);
                if let BeginPhase::Fatal { error } = now.phase {
                    lemma_in_order_shortens(hooked_steps(), clearing, front);
                    lemma_uncleared(error, events);
                }
            },
            BeginPhase::Refused { .. } => {},
            BeginPhase::Fatal { error } => {
                lemma_in_order_grows(uncleared_steps(error), clearing, events);
            },
        }
    }
}

/// Without an authorization nothing happens but the question for it and the reply:
/// neither the firewall nor the network is touched.
pub proof fn law_authorization_comes_first(request: Begin, events: Seq<BeginEvent>)
    requires
        request.phase is Authorizing,
        forall|i: int| 0 <= i < events.len() ==> !is_authorization(#[trigger] events[i]),
    ensures
        match request.after_all(events).pending() {
            BeginAction::Authorize { owner } => owner == request.owner,
            BeginAction::Reply => request.after_all(events).phase is Refused,
            _ => false,
        },
    decreases events.len(),
{
    if events.len() > 0 {
        let front = events.drop_last();
        assert forall|i: int| 0 <= i < front.len() implies !is_authorization(#[trigger] front[i]) by {
            assert(front[i] == events[i]);
        }
        law_authorization_comes_first(request, front);
        assert(!is_authorization(events[events.len() - 1]));
        law_phases_are_earned(request, front);
    }
}

/// A denied request is refused with the reason, and stays so.
pub proof fn law_denial_is_final(request: Begin, error: Error, events: Seq<BeginEvent>)
    requires
        request.phase is Authorizing,
    ensures
        request.after(BeginEvent::Authorized { result: Err(error) }).after_all(events).phase
            == (BeginPhase::Refused { error }),
    decreases events.len(),
{
    if events.len() > 0 {
        law_denial_is_final(request, error, events.drop_last());
    }
}

/// What a request has left on the host.
pub struct Ledger {
    /// Rules may be in effect.
    pub rules: bool,
    /// A connection is up.
    pub connection: bool,
}

impl Ledger {
    /// The ledger after an event in a phase.
    pub open spec fn after(self, phase: BeginPhase, event: BeginEvent) -> Ledger {
        match (phase, event) {
            (BeginPhase::Connecting { .. }, BeginEvent::Connected { link, .. }) => Ledger {
                rules: true,
                connection: link is Ok,
            },
            (BeginPhase::Connecting { .. }, BeginEvent::Interrupted { .. }) => Ledger {
                rules: true,
                ..self
            },
            (BeginPhase::Closing { .. }, BeginEvent::Closed) => Ledger { connection: false, ..self },
            (BeginPhase::Clearing, BeginEvent::Cleared { result: Ok(()) }) => Ledger {
                rules: false,
                ..self
            },
            (BeginPhase::Unwinding { .. }, BeginEvent::Cleared { result: Ok(()) }) => Ledger {
                rules: false,
                ..self
            },
            _ => self,
        }
    }
}

impl Begin {
    /// What the request has left on the host after a number of events.
    pub open spec fn ledger(self, events: Seq<BeginEvent>) -> Ledger
        decreases events.len(),
    {
        if events.len() == 0 {
            Ledger { rules: false, connection: false }
        } else {
            self.ledger(events.drop_last()).after(
                self.after_all(events.drop_last()).phase,
                events.last(),
            )
        }
    }
}

/// A refused request leaves neither rules nor a connection behind; a session that
/// is established has its connection; and the helper exits only where rules could
/// not be removed, never with a connection up.
#[verifier::spinoff_prover]
pub proof fn law_refusals_leave_nothing_behind(request: Begin, events: Seq<BeginEvent>)
    requires
        request.phase is Authorizing,
    ensures
        match request.after_all(events).phase {
            BeginPhase::Narrowing { .. } => request.ledger(events).connection,
            BeginPhase::Closing { .. } => request.ledger(events).connection,
            BeginPhase::Established { .. } => request.ledger(events).connection,
            BeginPhase::Unwinding { .. } => !request.ledger(events).connection,
            BeginPhase::Fatal { .. } => !request.ledger(events).connection,
            _ => request.ledger(events) == (Ledger { rules: false, connection: false }),
        },
    decreases events.len(),
{
    if events.len() > 0 {
        law_refusals_leave_nothing_behind(request, events.drop_last());
    }
}

/// A failure is reported as it was, however the request is unwound.
pub proof fn law_failures_are_reported_as_they_were(request: Begin, error: Error)
    ensures
        request.phase == (BeginPhase::Unwinding { error }) ==> request.after(
            BeginEvent::Cleared { result: Ok(()) },
        ).phase == (BeginPhase::Refused { error }),
        request.phase == (BeginPhase::Closing { error }) ==> request.after(BeginEvent::Closed).after(
            BeginEvent::Cleared { result: Ok(()) },
        ).phase == (BeginPhase::Refused { error }),
{
}

/// A session is established where every answer is good.
pub proof fn law_good_answers_establish_the_session(
    request: Begin,
    radio: String,
    port: u16,
    link: Link,
    prepared: Rules,
    text: String,
    local: Ipv4Addr,
    go_ip: String,
)
    requires
        request.phase is Authorizing,
        port >= 1024,
        link.sink.ip_address == Some(text),
        parsed(text@) == Ok::<Ipv4Addr, Error>(local),
        link.sink.go_ip_address == Some(go_ip),
    ensures
        request.after(BeginEvent::Authorized { result: Ok(()) }).after(
            BeginEvent::Acquired { slot: Slot::Free },
        ).after(BeginEvent::HookChecked { result: Ok(()) }).after(
            BeginEvent::Cleared { result: Ok(()) },
        ).after(BeginEvent::Opened { radio: Ok(radio) }).after(
            BeginEvent::Resolved { port: Ok(port) },
        ).after(BeginEvent::Connected { link: Ok(link), prepared: Some(prepared) }).after(
            BeginEvent::Applied { result: Ok(()) },
        ).phase == (BeginPhase::Established {
            rules: Rules { local: Some(local), ..prepared },
            link,
            local,
            go_ip,
        }),
{
}

impl Teardown {
    /// The teardown after a number of events.
    pub open spec fn after_all(self, events: Seq<TeardownEvent>) -> Teardown
        decreases events.len(),
    {
        if events.len() == 0 {
            self
        } else {
            self.after_all(events.drop_last()).after(events.last())
        }
    }
}

/// The failure in a result, if it is one.
pub open spec fn failure(result: Result<(), Error>) -> Option<Error> {
    match result {
        Ok(()) => None,
        Err(error) => Some(error),
    }
}

/// It was tried to remove the rules, and failed as given.
pub open spec fn cleared_teardown(failed: Option<Error>) -> Seq<spec_fn(TeardownEvent) -> bool> {
    seq![
        |event: TeardownEvent|
            event matches TeardownEvent::Cleared { result } && failure(result) == failed,
    ]
}

/// It was then tried to close the connection, with the given outcome.
pub open spec fn closed_teardown(failed: Option<Error>, completed: bool) -> Seq<
    spec_fn(TeardownEvent) -> bool,
> {
    cleared_teardown(failed).push(
        |event: TeardownEvent| event == (TeardownEvent::Closed { completed }),
    )
}

/// A teardown ends only after it tried to remove the rules and then to close the
/// connection, whatever became of the first. It ends in an exit if and only if the
/// rules could not be removed.
pub proof fn law_teardown_tries_everything(events: Seq<TeardownEvent>)
    ensures
        match Teardown::Clearing.after_all(events) {
            Teardown::Clearing => true,
            Teardown::Closing { cleared } => in_order(cleared_teardown(failure(cleared)), events),
            Teardown::Closed { clean } => in_order(closed_teardown(None, clean), events),
            Teardown::Fatal { error } => exists|completed: bool|
                in_order(#[trigger] closed_teardown(Some(error), completed), events),
        },
    decreases events.len(),
{
    if events.len() > 0 {
        let front = events.drop_last();
        let anything = |event: TeardownEvent| true;
        law_teardown_tries_everything(front);
        match Teardown::Clearing.after_all(front) {
            Teardown::Clearing => {
                if let TeardownEvent::Cleared { result: got } = events.last() {
                    let failed = failure(got);
                    let check = |event: TeardownEvent|
                        event matches TeardownEvent::Cleared { result } && failure(result) == failed;
                    lemma_in_order_empty(front);
                    lemma_in_order_grows(seq![], check, events);
                    assert(seq![].push(check) =~= cleared_teardown(failed));
                }
            },
            Teardown::Closing { cleared } => {
                lemma_in_order_grows(cleared_teardown(failure(cleared)), anything, events);
                if let TeardownEvent::Closed { completed } = events.last() {
                    lemma_in_order_grows(
                        cleared_teardown(failure(cleared)),
                        |event: TeardownEvent| event == (TeardownEvent::Closed { completed }),
                        events,
                    );
                    assert(in_order(closed_teardown(failure(cleared), completed), events));
                }
            },
            Teardown::Closed { clean } => {
                lemma_in_order_grows(closed_teardown(None, clean), anything, events);
            },
            Teardown::Fatal { error } => {
                let completed = choose|completed: bool|
                    in_order(#[trigger] closed_teardown(Some(error), completed), front);
                lemma_in_order_grows(closed_teardown(Some(error), completed), anything, events);
            },
        }
    }
}

/// How a teardown ends, from its two answers.
pub proof fn law_teardown_outcome(result: Result<(), Error>, completed: bool)
    ensures
        Teardown::Clearing.after(TeardownEvent::Cleared { result }).after(
            TeardownEvent::Closed { completed },
        ) == match result {
            Ok(()) => Teardown::Closed { clean: completed },
            Err(error) => Teardown::Fatal { error },
        },
{
}

} // verus!
