//! What each procedure asks for and what each answer leads to, by the answers alone.
use crate::address::{parsed, Ipv4Addr};
use crate::client::{adopted, carried_port};
use crate::command::{
    chain_flush, chain_list, hook_check, interface_tag, table_list, transaction_restore, Command,
};
use crate::error::Error;
use crate::firewall::{
    attribute_number, claim_verdict, is_p2p_name, is_valid_name, scope_words, udp_words, validated,
    GroupInterface, Observation, Rules,
};
use crate::history::{in_order, law_each_check_was_passed};
use crate::procedure::{
    hook_verdict, Apply, ApplyPhase, Cleanup, HostAction, HostActionView, HostReply, Intact, IntactPhase,
    Preparation,
};
use crate::procedure_laws::law_preparation_follows_its_steps;
use crate::rule_form::{chain_line, has_chain, script};
use crate::rule_laws::law_only_owners_serve_dhcp;
use crate::service::Slot;
use crate::setup::{
    Begin, BeginAction, BeginEvent, BeginPhase, Interruption, Link, Teardown, TeardownEvent,
};
use crate::setup_laws::{
    connected_steps, is_connection, is_opening, law_phases_are_earned, narrowed_steps, resolved_steps,
};
use crate::startup::{asked_for, Mode, Startup};
use crate::text::lines;
use crate::SessionInfo;
use vstd::prelude::*;

verus! {

/// Whatever answers it gets, a preparation that ends well ends with rules for the
/// very interface, role and ports that it was begun for: the group's role as the
/// group-start event told it, the source's own port, and no host or RTCP yet.
pub proof fn law_preparation_keeps_the_role(
    radio: String,
    name: String,
    group_owner: bool,
    replies: Seq<HostReply>,
    rules: Rules,
)
    requires
        Preparation::begun(radio, name, group_owner).after_all(replies) == (Preparation::Prepared { rules }),
    ensures
        rules.group_owner == group_owner,
        rules.interface.name == name,
        rules.rtsp == 7236,
        rules.local is None,
        rules.peer is None,
        rules.rtcp is None,
        is_valid_name(radio@),
        is_valid_name(name@),
        is_p2p_name(name@),
        rules.refusal() is None,
        rules.rule_lines().len() == (if group_owner {
            3int
        } else {
            2
        }),
        rules.rule_words().contains(
            scope_words(rules.interface.name@) + udp_words("68"@, "67"@),
        ) <==> group_owner,
{
    law_preparation_follows_its_steps(radio, name, group_owner, replies);
    law_only_owners_serve_dhcp(rules);
}

/// Two preparations of the same group that differ in nothing but the role end with
/// rules that differ in nothing but the role.
pub proof fn law_preparations_differ_by_the_role(
    radio: String,
    name: String,
    inspected: HostReply,
    first: HostReply,
    tagged: HostReply,
    second: HostReply,
    third: HostReply,
    hook: HostReply,
    committed: HostReply,
    owner: Rules,
    client: Rules,
)
    requires
        Preparation::begun(radio, name, true).after(inspected).after(first).after(tagged).after(
            second,
        ).after(third).after(hook).after(committed) == (Preparation::Prepared { rules: owner }),
        Preparation::begun(radio, name, false).after(inspected).after(first).after(tagged).after(
            second,
        ).after(third).after(hook).after(committed) == (Preparation::Prepared { rules: client }),
    ensures
        owner.group_owner,
        !client.group_owner,
        owner.interface == client.interface,
        owner.rtsp == client.rtsp,
{
}

/// What a preparation asks for in each of its phases.
pub proof fn law_preparation_asks(
    radio: String,
    name: String,
    interface: GroupInterface,
    group_owner: bool,
    update: Apply,
    rules: Rules,
    error: Error,
)
    ensures
        (Preparation::Inspecting { radio, name, group_owner }).pending() == (HostActionView::Inspect {
            radio: radio@,
            name: name@,
        }),
        (Preparation::Claiming { interface, group_owner }).pending() == (HostActionView::Observe {
            name: interface.name@,
        }),
        (Preparation::Tagging { interface, group_owner }).pending() == (HostActionView::Run {
            command: interface_tag(interface.name@),
        }),
        (Preparation::Confirming { interface, group_owner }).pending() == (HostActionView::Observe {
            name: interface.name@,
        }),
        (Preparation::Applying { update }).pending() == update.pending(),
        (Preparation::Prepared { rules }).pending() is Rest,
        (Preparation::Failed { error }).pending() is Rest,
{
}

/// How a preparation fails: with the first reason that an answer gives.
pub proof fn law_preparation_failures(
    radio: String,
    name: String,
    interface: GroupInterface,
    group_owner: bool,
    radio_phy: Result<String, Error>,
    index: Result<String, Error>,
    seen: Observation,
    failed: Error,
)
    ensures
        !is_valid_name(radio@) || !is_valid_name(name@) ==> Preparation::begun(radio, name, group_owner) == (
        Preparation::Failed { error: Error::InvalidName }),
        is_valid_name(radio@) && is_valid_name(name@) && !is_p2p_name(name@) ==> Preparation::begun(
            radio,
            name,
            group_owner,
        ) == (Preparation::Failed { error: Error::NotP2pInterface }),
        is_valid_name(radio@) && is_valid_name(name@) && is_p2p_name(name@) ==> Preparation::begun(
            radio,
            name,
            group_owner,
        ) == (Preparation::Inspecting { radio, name, group_owner }),
        validated(radio@, name, radio_phy, index, seen) is Err ==> (Preparation::Inspecting {
            radio,
            name,
            group_owner,
        }).after(HostReply::Inspected { radio_phy, index, seen }) == (Preparation::Failed {
            error: validated(radio@, name, radio_phy, index, seen)->Err_0,
        }),
        validated(radio@, name, radio_phy, index, seen) is Ok ==> (Preparation::Inspecting {
            radio,
            name,
            group_owner,
        }).after(HostReply::Inspected { radio_phy, index, seen }) == (Preparation::Claiming {
            interface: validated(radio@, name, radio_phy, index, seen)->Ok_0,
            group_owner,
        }),
        claim_verdict(interface, seen) is Err ==> (Preparation::Claiming { interface, group_owner }).after(
            HostReply::Observed { seen },
        ) == (Preparation::Failed { error: claim_verdict(interface, seen)->Err_0 }),
        claim_verdict(interface, seen) is Ok ==> (Preparation::Claiming { interface, group_owner }).after(
            HostReply::Observed { seen },
        ) == (Preparation::Tagging { interface, group_owner }),
        (Preparation::Tagging { interface, group_owner }).after(
            HostReply::Ran { result: Err(failed) },
        ) == (Preparation::Failed { error: failed }),
        (Preparation::Tagging { interface, group_owner }).after(
            HostReply::Ran { result: Ok(name) },
        ) == (Preparation::Confirming { interface, group_owner }),
        !interface.present(seen) ==> (Preparation::Confirming { interface, group_owner }).after(
            HostReply::Observed { seen },
        ) == (Preparation::Failed { error: Error::ChangedWhileTagging }),
        interface.present(seen) ==> (Preparation::Confirming { interface, group_owner }).after(
            HostReply::Observed { seen },
        ) == (Preparation::Applying {
            update: Apply {
                rules: Rules {
                    interface,
                    group_owner,
                    rtsp: 7236,
                    local: None,
                    peer: None,
                    rtcp: None,
                },
                phase: ApplyPhase::Observing,
            },
        }),
{
}

/// What an update asks for in each of its phases, and what each answer leads to.
pub proof fn law_update_answers(rules: Rules, seen: Observation, output: String, failed: Error)
    ensures
        ({
            let looking = Apply { rules, phase: ApplyPhase::Observing };
            let hooking = Apply { rules, phase: ApplyPhase::CheckingHook };
            let committing = Apply { rules, phase: ApplyPhase::Restoring };
            let went = HostReply::Ran { result: Ok(output) };
            let broke = HostReply::Ran { result: Err(failed) };
            &&& looking.pending() == (HostActionView::Observe { name: rules.interface.name@ })
            &&& hooking.pending() == (HostActionView::Run { command: hook_check() })
            &&& rules.refusal() is None ==> committing.pending() == (HostActionView::Run {
                command: transaction_restore(script(rules.rule_lines())),
            })
            &&& interface_seen(rules, seen) ==> looking.after(HostReply::Observed { seen }) == hooking
            &&& !interface_seen(rules, seen) ==> looking.after(HostReply::Observed { seen }).phase == (
            ApplyPhase::Done { result: Err(Error::InterfaceGone) })
            &&& hooking.after(broke).phase == (ApplyPhase::Done { result: Err(Error::HookMissing) })
            &&& rules.refusal() matches Some(refused) ==> hooking.after(went).phase == (ApplyPhase::Done {
                result: Err(refused),
            })
            &&& rules.refusal() is None ==> hooking.after(went) == committing
            &&& committing.after(went).phase == (ApplyPhase::Done { result: Ok(()) })
            &&& committing.after(broke).phase == (ApplyPhase::Done { result: Err(failed) })
        }),
{
}

/// Whether the rules' interface is seen present and tagged.
pub open spec fn interface_seen(rules: Rules, seen: Observation) -> bool {
    attribute_number(seen.index) == Ok::<u32, Error>(rules.interface.index) && seen.phy is Ok
        && seen.phy->Ok_0@ == rules.interface.phy@ && attribute_number(seen.group) == Ok::<
        u32,
        Error,
    >(5719620)
}

/// What a check asks for in each of its phases, and what each answer leads to.
pub proof fn law_check_answers(rules: Rules, seen: Observation, output: String, failed: Error)
    ensures
        ({
            let looking = Intact { rules, phase: IntactPhase::Observing };
            let hooking = Intact { rules, phase: IntactPhase::CheckingHook };
            let listing = Intact { rules, phase: IntactPhase::Listing };
            let went = HostReply::Ran { result: Ok(output) };
            let broke = HostReply::Ran { result: Err(failed) };
            let bad = IntactPhase::Done { intact: false };
            &&& looking.pending() == (HostActionView::Observe { name: rules.interface.name@ })
            &&& hooking.pending() == (HostActionView::Run { command: hook_check() })
            &&& listing.pending() == (HostActionView::Run { command: chain_list() })
            &&& interface_seen(rules, seen) ==> looking.after(HostReply::Observed { seen }) == hooking
            &&& !interface_seen(rules, seen) ==> looking.after(HostReply::Observed { seen }).phase == bad
            &&& hooking.after(went) == listing
            &&& hooking.after(broke).phase == bad
            &&& listing.after(broke).phase == bad
            &&& listing.after(went).phase == (IntactPhase::Done { intact: rules.shown_by(output@) })
        }),
{
}

/// What a cleanup asks for in each of its phases, and what each answer leads to.
pub proof fn law_cleanup_answers(output: String, failed: Error)
    ensures
        ({
            let went = HostReply::Ran { result: Ok(output) };
            let broke = HostReply::Ran { result: Err(failed) };
            let found = exists|i: int|
                0 <= i < lines(output@).len() && #[trigger] lines(output@)[i] == "-N waycast-input"@;
            &&& Cleanup::Listing.pending() == (HostActionView::Run { command: table_list() })
            &&& Cleanup::Flushing.pending() == (HostActionView::Run { command: chain_flush() })
            &&& found ==> Cleanup::Listing.after(went) == Cleanup::Flushing
            &&& !found ==> Cleanup::Listing.after(went) == (Cleanup::Done { result: Ok(()) })
            &&& Cleanup::Listing.after(broke) == (Cleanup::Done { result: Err(failed) })
            &&& Cleanup::Flushing.after(went) == (Cleanup::Done { result: Ok(()) })
            &&& Cleanup::Flushing.after(broke) == (Cleanup::Done { result: Err(failed) })
        }),
{
    reveal_strlit("-N ");
    reveal_strlit("waycast-input");
    reveal_strlit("-N waycast-input");
    assert(chain_line() =~= "-N waycast-input"@);
    if has_chain(output@) {
        let i = choose|i: int| 0 <= i < lines(output@).len() && lines(output@)[i] == chain_line();
        assert(lines(output@)[i] == "-N waycast-input"@);
    }
}

/// What a request asks for in each of its phases. It asks about its own caller,
/// radio and display; it connects on the radio of its phase; and it applies the
/// rules of its phase.
pub proof fn law_requests_ask(
    request: Begin,
    radio: String,
    rules: Rules,
    link: Link,
    local: Ipv4Addr,
    go_ip: String,
    error: Error,
)
    ensures
        request.phase is Authorizing ==> request.pending() == (BeginAction::Authorize {
            owner: request.owner,
        }),
        request.phase is Acquiring ==> request.pending() is Acquire,
        request.phase is CheckingHook ==> request.pending() is CheckHook,
        request.phase is Clearing ==> request.pending() is ClearRules,
        request.phase is Opening ==> request.pending() == (BeginAction::OpenRadio {
            radio: request.radio,
        }),
        request.phase is Resolving ==> request.pending() == (BeginAction::ResolveSink {
            peer: request.peer,
        }),
        request.phase == (BeginPhase::Connecting { radio }) ==> request.pending() == (
        BeginAction::Connect { radio }),
        request.phase == (BeginPhase::Narrowing { rules, link, local }) ==> request.pending() == (
        BeginAction::ApplyRules { rules }),
        request.phase is Closing ==> request.pending() is CloseConnection,
        request.phase is Unwinding ==> request.pending() is ClearRules,
        request.phase is Established ==> request.pending() is Reply,
        request.phase is Refused ==> request.pending() is Reply,
        request.phase is Fatal ==> request.pending() is Exit,
{
}

/// Once a radio was opened and the display resolved on it, the connection is asked
/// for on exactly that radio, whatever radio the request named.
pub proof fn law_connects_on_the_opened_radio(request: Begin, radio: String, port: u16)
    requires
        request.phase is Opening,
        port >= 1024,
    ensures
        request.after(BeginEvent::Opened { radio: Ok(radio) }).after(
            BeginEvent::Resolved { port: Ok(port) },
        ).pending() == (BeginAction::Connect { radio }),
{
}

/// Whatever events come, what is asked for stems from the request and from the
/// answers: the policy is asked about the request's caller, the request's radio is
/// opened and its display resolved, the connection is asked for on a radio that was
/// opened, and the rules that are applied are prepared ones, narrowed to the
/// address that came with them.
pub proof fn law_what_is_asked_stems_from_answers(request: Begin, events: Seq<BeginEvent>)
    requires
        request.phase is Authorizing,
    ensures
        match request.after_all(events).pending() {
            BeginAction::Authorize { owner } => owner == request.owner,
            BeginAction::OpenRadio { radio } => radio == request.radio,
            BeginAction::ResolveSink { peer } => peer == request.peer,
            BeginAction::Connect { radio } => exists|n: int|
                0 <= n < events.len() && #[trigger] events[n] == (BeginEvent::Opened { radio: Ok(radio) }),
            BeginAction::ApplyRules { rules } => exists|n: int|
                0 <= n < events.len() && came_narrowed(#[trigger] events[n], rules),
            _ => true,
        },
{
    law_phases_are_earned(request, events);
    match request.after_all(events).phase {
        BeginPhase::Connecting { radio } => {
            let checks = resolved_steps(radio);
            law_each_check_was_passed(checks, events, 4);
            let n = choose|n: int| 0 <= n < events.len() && (checks[4])(#[trigger] events[n]);
            assert(is_opening(events[n], radio));
        },
        BeginPhase::Narrowing { rules, link, local } => {
            let radio = choose|radio: String|
                in_order(#[trigger] connected_steps(radio, rules, link, local), events);
            let checks = connected_steps(radio, rules, link, local);
            law_each_check_was_passed(checks, events, 6);
            let n = choose|n: int| 0 <= n < events.len() && (checks[6])(#[trigger] events[n]);
            assert(is_connection(events[n], rules, link, local));
            assert(came_narrowed(events[n], rules));
        },
        _ => {},
    }
}

/// Whether a connection came up with these rules but for the local address, which
/// is the one that the connection has.
pub open spec fn came_narrowed(event: BeginEvent, rules: Rules) -> bool {
    event matches BeginEvent::Connected { link: Ok(link), prepared: Some(given) } && rules.interface
        == given.interface && rules.group_owner == given.group_owner && rules.rtsp == given.rtsp
        && rules.peer == given.peer && rules.rtcp == given.rtcp && rules.local is Some
        && link.sink.ip_address is Some && parsed(link.sink.ip_address->0@) == Ok::<Ipv4Addr, Error>(
        rules.local->0,
    )
}

/// What each answer to a request that goes well leads to.
pub proof fn law_good_answers(
    request: Begin,
    radio: String,
    port: u16,
    link: Link,
    given: Rules,
    local: Ipv4Addr,
    go_ip: String,
)
    ensures
        request.phase is Authorizing ==> request.after(
            BeginEvent::Authorized { result: Ok(()) },
        ).phase is Acquiring,
        request.phase is Acquiring ==> request.after(
            BeginEvent::Acquired { slot: Slot::Free },
        ).phase is CheckingHook,
        request.phase is CheckingHook ==> request.after(
            BeginEvent::HookChecked { result: Ok(()) },
        ).phase is Clearing,
        request.phase is Clearing ==> request.after(
            BeginEvent::Cleared { result: Ok(()) },
        ).phase is Opening,
        request.phase is Opening ==> request.after(BeginEvent::Opened { radio: Ok(radio) }).phase == (
        BeginPhase::Resolving { radio }),
        request.phase == (BeginPhase::Resolving { radio }) && port >= 1024 ==> request.after(
            BeginEvent::Resolved { port: Ok(port) },
        ).phase == (BeginPhase::Connecting { radio }),
        request.phase is Connecting && link.sink.ip_address is Some && parsed(link.sink.ip_address->0@)
            == Ok::<Ipv4Addr, Error>(local) ==> request.after(
            BeginEvent::Connected { link: Ok(link), prepared: Some(given) },
        ).phase == (BeginPhase::Narrowing {
            rules: Rules {
                interface: given.interface,
                group_owner: given.group_owner,
                rtsp: given.rtsp,
                local: Some(local),
                peer: given.peer,
                rtcp: given.rtcp,
            },
            link,
            local,
        }),
        request.phase == (BeginPhase::Narrowing { rules: given, link, local }) && link.sink.go_ip_address
            == Some(go_ip) ==> request.after(BeginEvent::Applied { result: Ok(()) }).phase == (
        BeginPhase::Established { rules: given, link, local, go_ip }),
{
}

/// What each answer to a request that goes wrong leads to, and with which reason.
pub proof fn law_bad_answers(
    request: Begin,
    error: Error,
    later: Error,
    port: u16,
    link: Link,
    given: Rules,
    local: Ipv4Addr,
)
    ensures
        request.phase is Authorizing ==> request.after(
            BeginEvent::Authorized { result: Err(error) },
        ).phase == (BeginPhase::Refused { error }),
        request.phase is Acquiring ==> request.after(
            BeginEvent::Acquired { slot: Slot::Busy },
        ).phase == (BeginPhase::Refused { error: Error::SetupBusy }),
        request.phase is Acquiring ==> request.after(
            BeginEvent::Acquired { slot: Slot::Occupied },
        ).phase == (BeginPhase::Refused { error: Error::SessionActive }),
        request.phase is CheckingHook ==> request.after(
            BeginEvent::HookChecked { result: Err(error) },
        ).phase == (BeginPhase::Refused { error }),
        request.phase is Clearing ==> request.after(
            BeginEvent::Cleared { result: Err(error) },
        ).phase == (BeginPhase::Fatal { error }),
        request.phase is Opening ==> request.after(BeginEvent::Opened { radio: Err(error) }).phase == (
        BeginPhase::Unwinding { error }),
        request.phase is Resolving ==> request.after(
            BeginEvent::Resolved { port: Err(error) },
        ).phase == (BeginPhase::Unwinding { error }),
        request.phase is Resolving && port < 1024 ==> request.after(
            BeginEvent::Resolved { port: Ok(port) },
        ).phase == (BeginPhase::Unwinding { error: Error::PrivilegedSinkPort }),
        request.phase is Connecting ==> request.after(
            BeginEvent::Connected { link: Err(error), prepared: Some(given) },
        ).phase == (BeginPhase::Unwinding { error }),
        request.phase is Connecting ==> request.after(
            BeginEvent::Connected { link: Err(error), prepared: None },
        ).phase == (BeginPhase::Unwinding { error }),
        request.phase is Connecting ==> request.after(
            BeginEvent::Connected { link: Ok(link), prepared: None },
        ).phase == (BeginPhase::Closing { error: Error::MissingPrepared }),
        request.phase is Connecting && link.sink.ip_address is None ==> request.after(
            BeginEvent::Connected { link: Ok(link), prepared: Some(given) },
        ).phase == (BeginPhase::Closing { error: Error::MissingLocal }),
        request.phase is Connecting && link.sink.ip_address is Some && parsed(
            link.sink.ip_address->0@,
        ) is Err ==> request.after(
            BeginEvent::Connected { link: Ok(link), prepared: Some(given) },
        ).phase == (BeginPhase::Closing { error: Error::AddressSyntax }),
        request.phase is Opening || request.phase is Resolving || request.phase is Connecting
            ==> request.after(BeginEvent::Interrupted { by: Interruption::Deadline }).phase == (
        BeginPhase::Unwinding { error: Error::SetupTimedOut }) && request.after(
            BeginEvent::Interrupted { by: Interruption::CallerLost },
        ).phase == (BeginPhase::Unwinding { error: Error::CallerLost }),
        request.phase == (BeginPhase::Narrowing { rules: given, link, local }) ==> request.after(
            BeginEvent::Applied { result: Err(error) },
        ).phase == (BeginPhase::Closing { error }),
        request.phase == (BeginPhase::Narrowing { rules: given, link, local })
            && link.sink.go_ip_address is None ==> request.after(
            BeginEvent::Applied { result: Ok(()) },
        ).phase == (BeginPhase::Closing { error: Error::MissingOwnerAddress }),
        request.phase == (BeginPhase::Closing { error }) ==> request.after(BeginEvent::Closed).phase == (
        BeginPhase::Unwinding { error }),
        request.phase == (BeginPhase::Unwinding { error }) ==> request.after(
            BeginEvent::Cleared { result: Ok(()) },
        ).phase == (BeginPhase::Refused { error }) && request.after(
            BeginEvent::Cleared { result: Err(later) },
        ).phase == (BeginPhase::Fatal { error: later }),
{
}

/// What a caller is told of its session: the connection's interface, the local
/// address, the group owner's address and the display's port, each as such.
pub proof fn law_callers_are_told_the_facts(request: Begin, info: SessionInfo)
    requires
        request.tells(info),
    ensures
        request.phase is Established,
        info.interface == request.phase->Established_link.interface,
        info.local_ip@ == request.phase->Established_local.text(),
        info.go_ip == request.phase->Established_go_ip,
        info.rtsp_port == request.phase->Established_link.sink.rtsp_port,
{
}

/// What a client adopts from what the helper tells, field by field.
pub proof fn law_adoption(info: SessionInfo)
    ensures
        adopted(info).interface == info.interface,
        adopted(info).sink.ip_address == Some(info.local_ip),
        adopted(info).sink.go_ip_address == Some(info.go_ip),
        adopted(info).sink.rtsp_port == info.rtsp_port,
{
}

/// What a client adopts is the session that the helper set up: the same interface,
/// local address, group owner's address and port as the helper's own connection has.
pub proof fn law_clients_adopt_the_helpers_session(request: Begin, events: Seq<BeginEvent>, info: SessionInfo)
    requires
        request.phase is Authorizing,
        request.after_all(events).tells(info),
    ensures
        ({
            let link = request.after_all(events).phase->Established_link;
            &&& adopted(info).interface == link.interface
            &&& link.sink.ip_address is Some
            &&& adopted(info).sink.ip_address is Some
            &&& adopted(info).sink.ip_address->0@ == link.sink.ip_address->0@
            &&& adopted(info).sink.go_ip_address == link.sink.go_ip_address
            &&& adopted(info).sink.rtsp_port == link.sink.rtsp_port
        }),
{
    law_phases_are_earned(request, events);
    if let BeginPhase::Established { rules, link, local, .. } = request.after_all(events).phase {
        let radio = choose|radio: String|
            in_order(#[trigger] narrowed_steps(radio, rules, link, local), events);
        let checks = narrowed_steps(radio, rules, link, local);
        law_each_check_was_passed(checks, events, 6);
        let n = choose|n: int| 0 <= n < events.len() && (checks[6])(#[trigger] events[n]);
        assert(is_connection(events[n], rules, link, local));
        let text = link.sink.ip_address->0@;
        assert(parsed(text) == Ok::<Ipv4Addr, Error>(local));
        let found = choose|ip: Ipv4Addr| #[trigger] ip.text() == text;
        assert(found.text() == text);
    }
}

/// The port that a client carries is the display's, or zero where there is none.
pub proof fn law_carried_ports(port: u16)
    ensures
        carried_port(Some(port)) == port,
        carried_port(None) == 0,
{
}

/// Any failure of the hook check means that the hook is not loaded.
pub proof fn law_hook_verdicts(output: String, failed: Error)
    ensures
        hook_verdict(Ok(output)) is Ok,
        hook_verdict(Err(failed)) == Err::<(), Error>(Error::HookMissing),
{
}

/// What a teardown asks for in each of its phases.
pub proof fn law_teardown_asks(cleared: Result<(), Error>, clean: bool, error: Error)
    ensures
        Teardown::Clearing.pending() is ClearRules,
        (Teardown::Closing { cleared }).pending() is CloseConnection,
        (Teardown::Closed { clean }).pending() is Rest,
        (Teardown::Fatal { error }).pending() is Exit,
{
}

/// What the helper is started for, and how its start goes on after the cleanup.
pub proof fn law_starts(argument: Seq<char>, mode: Mode, output: String, failed: Error)
    ensures
        asked_for(None) == Ok::<Mode, Error>(Mode::Serve),
        argument == "--cleanup"@ ==> asked_for(Some(argument)) == Ok::<Mode, Error>(Mode::Cleanup),
        argument != "--cleanup"@ ==> asked_for(Some(argument)) == Err::<Mode, Error>(Error::Usage),
        (Startup::Clearing { mode, procedure: Cleanup::Listing }).pending() == (HostActionView::Run {
            command: table_list(),
        }),
        (Startup::Clearing { mode, procedure: Cleanup::Flushing }).pending() == (HostActionView::Run {
            command: chain_flush(),
        }),
        (Startup::Clearing { mode, procedure: Cleanup::Flushing }).after(
            HostReply::Ran { result: Err(failed) },
        ) == (Startup::Finished { result: Err(failed) }),
        (Startup::Clearing { mode, procedure: Cleanup::Flushing }).after(
            HostReply::Ran { result: Ok(output) },
        ) == (match mode {
            Mode::Serve => Startup::Serving,
            Mode::Cleanup => Startup::Finished { result: Ok(()) },
        }),
        (Startup::Clearing { mode, procedure: Cleanup::Listing }).after(
            HostReply::Ran { result: Err(failed) },
        ) == (Startup::Finished { result: Err(failed) }),
        !has_chain(output@) ==> (Startup::Clearing { mode, procedure: Cleanup::Listing }).after(
            HostReply::Ran { result: Ok(output) },
        ) == (match mode {
            Mode::Serve => Startup::Serving,
            Mode::Cleanup => Startup::Finished { result: Ok(()) },
        }),
{
}

/// Whether a reply is one to the work that was waited for.
pub open spec fn is_reply(work: HostActionView, reply: HostReply) -> bool {
    match work {
        HostActionView::Inspect { .. } => reply is Inspected,
        HostActionView::Observe { .. } => reply is Observed,
        HostActionView::Run { .. } => reply is Ran,
        HostActionView::Rest => false,
    }
}

/// A procedure goes on if and only if it gets a reply to the work that it waits
/// for: any other reply leaves it where it is, and so does every reply once it has
/// ended. It never changes the rules that it is about.
pub proof fn law_only_replies_move_procedures(
    update: Apply,
    check: Intact,
    removal: Cleanup,
    preparation: Preparation,
    start: Startup,
    reply: HostReply,
)
    requires
        update.rules.refusal() is None,
        preparation matches Preparation::Applying { update: part } ==> part.rules.refusal() is None,
        preparation matches Preparation::Applying { update: part } ==> !(part.phase is Done),
        start matches Startup::Clearing { procedure, .. } ==> !(procedure is Done),
    ensures
        update.after(reply).phase == update.phase <==> !is_reply(update.pending(), reply),
        update.after(reply).rules == update.rules,
        check.after(reply).phase == check.phase <==> !is_reply(check.pending(), reply),
        check.after(reply).rules == check.rules,
        removal.after(reply) == removal <==> !is_reply(removal.pending(), reply),
        preparation.after(reply) == preparation <==> !is_reply(preparation.pending(), reply),
        start.after(reply) == start <==> !is_reply(start.pending(), reply),
{
}

/// A preparation ends with its update: well, with the rules of the update, or with
/// the update's failure.
pub proof fn law_preparation_ends_with_its_update(update: Apply, reply: HostReply)
    ensures
        match update.after(reply).phase {
            ApplyPhase::Done { result } => match result {
                Ok(_) => (Preparation::Applying { update }).after(reply) == (Preparation::Prepared {
                    rules: update.rules,
                }),
                Err(failed) => (Preparation::Applying { update }).after(reply) == (Preparation::Failed {
                    error: failed,
                }),
            },
            _ => (Preparation::Applying { update }).after(reply) == (Preparation::Applying {
                update: update.after(reply),
            }),
        },
{
}

/// Whether an event answers the work that was waited for. What may be interrupted
/// is the setup of the group: opening, resolving and connecting.
pub open spec fn is_answer(work: BeginAction, event: BeginEvent) -> bool {
    match work {
        BeginAction::Authorize { .. } => event is Authorized,
        BeginAction::Acquire => event is Acquired,
        BeginAction::CheckHook => event is HookChecked,
        BeginAction::ClearRules => event is Cleared,
        BeginAction::OpenRadio { .. } => event is Opened || event is Interrupted,
        BeginAction::ResolveSink { .. } => event is Resolved || event is Interrupted,
        BeginAction::Connect { .. } => event is Connected || event is Interrupted,
        BeginAction::ApplyRules { .. } => event is Applied,
        BeginAction::CloseConnection => event is Closed,
        BeginAction::Reply => false,
        BeginAction::Exit => false,
    }
}

/// A request goes on if and only if it gets an answer to the work that it waits
/// for, and never changes who asked for what.
pub proof fn law_only_answers_move_requests(request: Begin, event: BeginEvent)
    ensures
        request.after(event).phase == request.phase <==> !is_answer(request.pending(), event),
        request.after(event).owner == request.owner,
        request.after(event).radio == request.radio,
        request.after(event).peer == request.peer,
{
}

/// A teardown goes on if and only if it gets an answer to the work that it waits for.
pub proof fn law_only_answers_move_teardowns(teardown: Teardown, event: TeardownEvent)
    ensures
        teardown.after(event) == teardown <==> !(teardown is Clearing && event is Cleared
            || teardown is Closing && event is Closed),
{
}

/// Work and commands are known by their contents, each part as such.
pub proof fn law_contents(radio: String, name: String, command: Command, i: int)
    requires
        0 <= i < command.args@.len(),
    ensures
        (HostAction::Inspect { radio, name })@ == (HostActionView::Inspect {
            radio: radio@,
            name: name@,
        }),
        (HostAction::Observe { name })@ == (HostActionView::Observe { name: name@ }),
        (HostAction::Run { command })@ == (HostActionView::Run { command: command@ }),
        HostAction::Rest@ is Rest,
        command@.binary == command.binary@,
        command@.args.len() == command.args@.len(),
        command@.args[i] == command.args@[i]@,
        match command.input {
            Some(text) => command@.input == Some(text@),
            None => command@.input is None,
        },
{
}

} // verus!
