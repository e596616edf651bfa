//! What the dedicated chain holds while sessions come and go.
use crate::command::CHAIN;
use crate::history::{in_order, law_each_check_was_passed};
use crate::procedure::{ApplyPhase, HostReply};
use crate::service::{Health, NetworkService, Session, SocketReport};
use crate::service_laws::Step;
use crate::session_laws::{are_set_up, come_prepared, law_every_session_is_sound, sets_up};
use crate::setup::{Begin, BeginEvent, BeginPhase};
use crate::setup_laws::{cleared_steps, is_claim, law_phases_are_earned, narrowed_steps};
use crate::table_laws::{
    cleaned, elsewhere, emptied, is_empty, is_truthful, law_cleanup_empties_the_chain,
    law_update_replaces_the_chain, updated, Table,
};
use vstd::prelude::*;

verus! {

/// The table after an event of a request. Rules are removed by a cleanup and take
/// effect by an update. A connection that comes up with prepared rules has them in
/// effect by then; of one that fails or is cut short, the preparation may have left
/// anything, which is `leftover`.
pub open spec fn after_event(
    table: Table,
    phase: BeginPhase,
    event: BeginEvent,
    leftover: Seq<Seq<char>>,
) -> Table {
    match (phase, event) {
        (BeginPhase::Clearing, BeginEvent::Cleared { result: Ok(()) }) => emptied(table),
        (BeginPhase::Unwinding { .. }, BeginEvent::Cleared { result: Ok(()) }) => emptied(table),
        (
            BeginPhase::Connecting { .. },
            BeginEvent::Connected { link: Ok(_), prepared: Some(rules) },
        ) => table.insert(CHAIN@, rules.rule_lines()),
        (BeginPhase::Connecting { .. }, BeginEvent::Connected { .. }) => table.insert(CHAIN@, leftover),
        (BeginPhase::Connecting { .. }, BeginEvent::Interrupted { .. }) => table.insert(
            CHAIN@,
            leftover,
        ),
        (BeginPhase::Narrowing { rules, .. }, BeginEvent::Applied { result: Ok(()) }) => table.insert(
            CHAIN@,
            rules.rule_lines(),
        ),
        _ => table,
    }
}

/// The table after a number of events of a request.
pub open spec fn after_events(
    table: Table,
    request: Begin,
    events: Seq<BeginEvent>,
    leftover: Seq<Seq<char>>,
) -> Table
    decreases events.len(),
{
    if events.len() == 0 {
        table
    } else {
        after_event(
            after_events(table, request, events.drop_last(), leftover),
            request.after_all(events.drop_last()).phase,
            events.last(),
            leftover,
        )
    }
}

/// Whether a request claimed the one session.
pub open spec fn has_claimed(events: Seq<BeginEvent>) -> bool {
    exists|i: int| 0 <= i < events.len() && is_claim(#[trigger] events[i])
}

proof fn lemma_claim_stays(events: Seq<BeginEvent>)
    requires
        events.len() > 0,
        has_claimed(events.drop_last()),
    ensures
        has_claimed(events),
{
    let front = events.drop_last();
    let i = choose|i: int| 0 <= i < front.len() && is_claim(#[trigger] front[i]);
    assert(events[i] == front[i]);
}

proof fn lemma_cleared_has_claimed(events: Seq<BeginEvent>)
    requires
        in_order(cleared_steps(), events),
    ensures
        has_claimed(events),
{
    let checks = cleared_steps();
    law_each_check_was_passed(checks, events, 1);
    let n = choose|n: int| 0 <= n < events.len() && (checks[1])(#[trigger] events[n]);
    assert(is_claim(events[n]));
}

/// What a request makes of the table, whatever events come. An established session
/// has exactly its rules in the dedicated chain. A refused request either left the
/// table as it was, or claimed the session and left the chain empty. No other chain
/// is ever touched.
pub proof fn law_setup_fills_the_chain(
    table: Table,
    request: Begin,
    events: Seq<BeginEvent>,
    leftover: Seq<Seq<char>>,
)
    requires
        request.phase is Authorizing,
    ensures
        ({
            let after = after_events(table, request, events, leftover);
            &&& elsewhere(after) == elsewhere(table)
            &&& match request.after_all(events).phase {
                BeginPhase::Authorizing => after == table,
                BeginPhase::Acquiring => after == table,
                BeginPhase::CheckingHook => after == table,
                BeginPhase::Clearing => after == table,
                BeginPhase::Opening => is_empty(after),
                BeginPhase::Resolving { .. } => is_empty(after),
                BeginPhase::Connecting { .. } => is_empty(after),
                BeginPhase::Established { rules, .. } => after == table.insert(
                    CHAIN@,
                    rules.rule_lines(),
                ),
                BeginPhase::Refused { .. } => after == table || has_claimed(events) && is_empty(after),
                _ => true,
            }
        }),
    decreases events.len(),
{
    if events.len() > 0 {
        let front = events.drop_last();
        let before = after_events(table, request, front, leftover);
        let after = after_events(table, request, events, leftover);
        let phase = request.after_all(front).phase;
        law_setup_fills_the_chain(table, request, front, leftover);
        law_phases_are_earned(request, front);
        assert(elsewhere(after) =~= elsewhere(before));
        match phase {
            BeginPhase::Unwinding { .. } => {
                lemma_cleared_has_claimed(front);
                lemma_claim_stays(events);
            },
            BeginPhase::Narrowing { rules, .. } => {
                if request.after_all(events).phase is Established {
                    lemma_insert_elsewhere(table, before, rules.rule_lines());
                }
            },
            BeginPhase::Refused { .. } => {
                if has_claimed(front) {
                    lemma_claim_stays(events);
                }
            },
            _ => {},
        }
    }
}

proof fn lemma_insert_elsewhere(x: Table, y: Table, list: Seq<Seq<char>>)
    requires
        elsewhere(x) == elsewhere(y),
    ensures
        x.insert(CHAIN@, list) == y.insert(CHAIN@, list),
{
    assert(x.insert(CHAIN@, list) =~= elsewhere(x).insert(CHAIN@, list));
    assert(y.insert(CHAIN@, list) =~= elsewhere(y).insert(CHAIN@, list));
}

/// The service with the filter table.
pub struct World<C, K> {
    pub service: NetworkService<C, K>,
    pub table: Table,
}

/// Something that happens to the service, with the work on the host that it takes.
pub enum Act<C, K> {
    /// A request to begin a session ran its course.
    Begin { request: Begin, events: Seq<BeginEvent>, leftover: Seq<Seq<char>>, connection: C },
    /// A caller asked for media; the answers to the update, where one was due.
    Media {
        caller: Seq<char>,
        report: SocketReport,
        sink_rtcp: u16,
        replies: Seq<HostReply>,
        sockets: K,
    },
    /// A caller asked to end the session; the answers to the cleanup, where one was due.
    End { caller: Seq<char>, listing: String, output: String },
    /// The session's health was looked into; the answers to the cleanup, where one was due.
    Supervise { health: Health, listing: String, output: String },
}

impl<C, K> World<C, K> {
    /// What an act comes to for the service.
    pub open spec fn step(self, act: Act<C, K>) -> Option<Step<C, K>> {
        match act {
            Act::Begin { request, events, connection, .. } => match request.after_all(events).phase {
                BeginPhase::Established { rules, link, .. } => Some(
                    Step::Install {
                        session: Session {
                            owner: request.owner,
                            connection,
                            sink: link.sink,
                            rules,
                            sockets: None,
                        },
                    },
                ),
                _ => None,
            },
            Act::Media { caller, report, sink_rtcp, replies, sockets } => match self.service.media_plan(
                caller,
                report,
                sink_rtcp,
            ) {
                Ok(rules) => match updated(self.table, rules, replies).1.phase {
                    ApplyPhase::Done { result } => Some(
                        Step::Media { caller, report, sink_rtcp, applied: result, sockets },
                    ),
                    _ => None,
                },
                Err(_) => None,
            },
            Act::End { caller, .. } => Some(Step::End { caller }),
            Act::Supervise { health, .. } => Some(Step::Supervise { health }),
        }
    }

    /// What an act makes of the filter table.
    pub open spec fn table_after(self, act: Act<C, K>) -> Table {
        match act {
            Act::Begin { request, events, leftover, .. } => after_events(
                self.table,
                request,
                events,
                leftover,
            ),
            Act::Media { caller, report, sink_rtcp, replies, .. } => match self.service.media_plan(
                caller,
                report,
                sink_rtcp,
            ) {
                Ok(rules) => updated(self.table, rules, replies).0,
                Err(_) => self.table,
            },
            Act::End { caller, listing, output } => if self.service.alive(caller) {
                cleaned(self.table, listing, output).0
            } else {
                self.table
            },
            Act::Supervise { health, listing, output } => if self.service.session is Some
                && health.broken() {
                cleaned(self.table, listing, output).0
            } else {
                self.table
            },
        }
    }

    /// The service and the table after an act.
    pub open spec fn after(self, act: Act<C, K>) -> World<C, K> {
        World {
            service: match self.step(act) {
                Some(step) => self.service.after_step(step),
                None => self.service,
            },
            table: self.table_after(act),
        }
    }

    /// The service and the table after a number of acts.
    pub open spec fn after_all(self, acts: Seq<Act<C, K>>) -> World<C, K>
        decreases acts.len(),
    {
        if acts.len() == 0 {
            self
        } else {
            self.after_all(acts.drop_last()).after(acts.last())
        }
    }

    /// What a number of acts come to for the service.
    pub open spec fn steps(self, acts: Seq<Act<C, K>>) -> Seq<Step<C, K>>
        decreases acts.len(),
    {
        if acts.len() == 0 {
            seq![]
        } else {
            let front = self.steps(acts.drop_last());
            match self.after_all(acts.drop_last()).step(acts.last()) {
                Some(step) => front.push(step),
                None => front,
            }
        }
    }

    /// Whether an act went by what is the case: a request ran to its end and claimed
    /// the session only where there was none, and listings told truly whether the
    /// dedicated chain is there. Where rules cannot be removed the helper exits, so
    /// that nothing follows.
    pub open spec fn admits(self, act: Act<C, K>) -> bool {
        match act {
            Act::Begin { request, events, .. } => {
                &&& request.phase is Authorizing
                &&& request.after_all(events).phase is Established || request.after_all(
                    events,
                ).phase is Refused
                &&& has_claimed(events) ==> self.service.session is None
            },
            Act::Media { .. } => true,
            Act::End { listing, .. } => is_truthful(listing, self.table),
            Act::Supervise { listing, .. } => is_truthful(listing, self.table),
        }
    }

    /// Whether every act went by what was the case at its time.
    pub open spec fn admits_all(self, acts: Seq<Act<C, K>>) -> bool
        decreases acts.len(),
    {
        acts.len() == 0 || self.admits_all(acts.drop_last()) && self.after_all(
            acts.drop_last(),
        ).admits(acts.last())
    }

    /// Whether the dedicated chain holds exactly the session's rules, and none
    /// where there is no session.
    pub open spec fn in_step(self) -> bool {
        match self.service.session {
            Some(session) => self.table.contains_key(CHAIN@) && self.table[CHAIN@]
                == session.rules.rule_lines(),
            None => is_empty(self.table),
        }
    }
}

/// The service goes through the steps that the acts come to.
pub proof fn law_acts_are_steps<C, K>(world: World<C, K>, acts: Seq<Act<C, K>>)
    ensures
        world.after_all(acts).service == world.service.after_steps(world.steps(acts)),
    decreases acts.len(),
{
    if acts.len() > 0 {
        let front = acts.drop_last();
        law_acts_are_steps(world, front);
        if let Some(step) = world.after_all(front).step(acts.last()) {
            assert(world.steps(front).push(step).drop_last() =~= world.steps(front));
        }
    }
}

proof fn lemma_begin_keeps_in_step<C, K>(world: World<C, K>, act: Act<C, K>)
    requires
        world.in_step(),
        world.admits(act),
        act is Begin,
    ensures
        world.after(act).in_step(),
        elsewhere(world.after(act).table) == elsewhere(world.table),
{
    if let Act::Begin { request, events, leftover, .. } = act {
        law_setup_fills_the_chain(world.table, request, events, leftover);
        law_phases_are_earned(request, events);
        if let BeginPhase::Established { rules, link, local, .. } = request.after_all(events).phase {
            let radio = choose|radio: String|
                in_order(#[trigger] narrowed_steps(radio, rules, link, local), events);
            let checks = narrowed_steps(radio, rules, link, local);
            law_each_check_was_passed(checks, events, 1);
            let n = choose|n: int| 0 <= n < events.len() && (checks[1])(#[trigger] events[n]);
            assert(is_claim(events[n]));
            assert(has_claimed(events));
        }
    }
}

proof fn lemma_media_keeps_in_step<C, K>(world: World<C, K>, act: Act<C, K>)
    requires
        world.in_step(),
        act is Media,
    ensures
        world.after(act).in_step(),
        elsewhere(world.after(act).table) == elsewhere(world.table),
{
    if let Act::Media { caller, report, sink_rtcp, replies, .. } = act {
        if let Ok(rules) = world.service.media_plan(caller, report, sink_rtcp) {
            law_update_replaces_the_chain(world.table, rules, replies);
            assert(elsewhere(world.table.insert(CHAIN@, rules.rule_lines())) =~= elsewhere(world.table));
        }
    }
}

proof fn lemma_act_keeps_in_step<C, K>(world: World<C, K>, act: Act<C, K>)
    requires
        world.in_step(),
        world.admits(act),
    ensures
        world.after(act).in_step(),
        elsewhere(world.after(act).table) == elsewhere(world.table),
{
    match act {
        Act::Begin { .. } => lemma_begin_keeps_in_step(world, act),
        Act::Media { .. } => lemma_media_keeps_in_step(world, act),
        Act::End { listing, output, .. } => {
            law_cleanup_empties_the_chain(world.table, listing, output);
        },
        Act::Supervise { listing, output, .. } => {
            law_cleanup_empties_the_chain(world.table, listing, output);
        },
    }
}

/// While a session lasts, the dedicated chain holds exactly its rules; where there
/// is none, it holds nothing; and no other chain is ever touched. That holds in
/// every state that is reached from one in which it holds, such as the start after
/// leftovers were removed.
pub proof fn law_chain_holds_the_sessions_rules<C, K>(world: World<C, K>, acts: Seq<Act<C, K>>)
    requires
        world.in_step(),
        world.admits_all(acts),
    ensures
        world.after_all(acts).in_step(),
        elsewhere(world.after_all(acts).table) == elsewhere(world.table),
    decreases acts.len(),
{
    if acts.len() > 0 {
        law_chain_holds_the_sessions_rules(world, acts.drop_last());
        lemma_act_keeps_in_step(world.after_all(acts.drop_last()), acts.last());
    }
}

/// The start after leftovers were removed: without a session, the chain is empty.
pub proof fn law_start_is_in_step<C, K>(
    service: NetworkService<C, K>,
    table: Table,
    listing: String,
    output: String,
)
    requires
        service.session is None,
        is_truthful(listing, table),
    ensures
        (World { service, table: cleaned(table, listing, output).0 }).in_step(),
{
    law_cleanup_empties_the_chain(table, listing, output);
}

/// Whether every connection among some acts came up with the rules of a preparation.
pub open spec fn all_come_prepared<C, K>(acts: Seq<Act<C, K>>) -> bool {
    forall|i: int|
        0 <= i < acts.len() ==> (#[trigger] acts[i] matches Act::Begin { events, .. } ==> come_prepared(
            events,
        ))
}

proof fn lemma_acts_set_up<C, K>(world: World<C, K>, acts: Seq<Act<C, K>>)
    requires
        world.admits_all(acts),
        all_come_prepared(acts),
    ensures
        are_set_up(world.steps(acts)),
    decreases acts.len(),
{
    if acts.len() > 0 {
        let front = acts.drop_last();
        let last = acts[acts.len() - 1];
        let before = world.steps(front);
        let after = world.steps(acts);
        assert forall|i: int| 0 <= i < front.len() implies (#[trigger] front[i] matches Act::Begin {
            events,
            ..
        } ==> come_prepared(events)) by {
            assert(front[i] == acts[i]);
        }
        lemma_acts_set_up(world, front);
        assert forall|i: int| 0 <= i < after.len() implies (#[trigger] after[i] matches Step::Install {
            session,
        } ==> exists|request: Begin, events: Seq<BeginEvent>| #[trigger]
            sets_up(request, events, session)) by {
            if i < before.len() {
                assert(after[i] == before[i]);
            } else if let Step::Install { session } = after[i] {
                if let Act::Begin { request, events, .. } = last {
                    assert(sets_up(request, events, session));
                }
            }
        }
    }
}

/// From the start on, every session is sound and the dedicated chain holds exactly
/// its rules.
pub proof fn law_every_state_is_sound<C, K>(world: World<C, K>, acts: Seq<Act<C, K>>)
    requires
        world.service.session is None,
        is_empty(world.table),
        world.admits_all(acts),
        all_come_prepared(acts),
    ensures
        world.after_all(acts).service.well_formed(),
        world.after_all(acts).in_step(),
{
    law_chain_holds_the_sessions_rules(world, acts);
    lemma_acts_set_up(world, acts);
    law_acts_are_steps(world, acts);
    law_every_session_is_sound(world.service, world.steps(acts));
}

} // verus!
