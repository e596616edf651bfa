//! What the calls that others make of the library come to: how what goes in and
//! what comes out are related, whatever goes in.
use crate::address::Ipv4Addr;
use crate::client::{alive, begin, require_session, rtcp_argument, Reply};
use crate::command::{output, report, Command, Outcome};
use crate::error::Error;
use crate::firewall::{group_path, index_path, is_valid_name, phy_path, Rules};
use crate::procedure::{
    cleanup, Apply, Cleanup, HostAction, HostActionView, HostReply, Intact, Preparation,
};
use crate::progress_laws::law_preparation_keeps_the_role;
use crate::rendering_laws::law_rendering_loses_nothing;
use crate::service::{
    authorize, failed, owner_present, policy_request, require_owner, sender, validate_sockets, BusError,
    Health, NetworkService, PolicyReply, PolicyRequest, Probe, Session, Sink, Slot, SocketReport,
};
use crate::setup::{
    begin_session, close_session, is_peer, Begin, BeginAction, BeginEvent, BeginPhase, Link, Teardown,
    TeardownAction,
};
use crate::startup::{mode, Mode, Startup};
use crate::text::{texts, trimmed};
use crate::validation_laws::{
    law_attribute_paths, law_media_is_judged_by_the_session, law_media_plans,
};
use crate::SessionInfo;
use vstd::prelude::*;
use vstd::utf8::{decode_utf8, valid_utf8};

verus! {

/// A client adopts what the helper tells, field by field. Where the helper did not
/// answer in time, or answered with a failure, it says so and adopts nothing.
pub proof fn law_client_adopts_the_reply(reply: Reply<SessionInfo>, result: Result<Link, Error>)
    requires
        call_ensures(begin, (reply,), result),
    ensures
        match reply {
            Reply::Received { value: info } => result is Ok && result->Ok_0.interface == info.interface
                && result->Ok_0.sink.ip_address == Some(info.local_ip)
                && result->Ok_0.sink.go_ip_address == Some(info.go_ip) && result->Ok_0.sink.rtsp_port
                == info.rtsp_port,
            Reply::TimedOut => result == Err::<Link, Error>(Error::BeginTimedOut),
            Reply::Failed { cause } => result == Err::<Link, Error>(Error::BeginFailed { cause }),
        },
{
}

/// A session counts as alive on the helper's word alone.
pub proof fn law_only_the_helpers_word_counts(reply: &Reply<bool>, is_alive: bool)
    requires
        call_ensures(alive, (reply,), is_alive),
    ensures
        reply matches Reply::Received { value } ==> is_alive == value,
        reply is TimedOut ==> !is_alive,
        reply is Failed ==> !is_alive,
{
}

/// What a client carries for the display's RTCP port tells two ports apart unless
/// one of them is no usable port, and none from a usable one.
pub proof fn law_carried_ports_are_told_apart(x: Option<u16>, y: Option<u16>, from_x: u16, from_y: u16)
    requires
        call_ensures(rtcp_argument, (x,), from_x),
        call_ensures(rtcp_argument, (y,), from_y),
    ensures
        x is None ==> from_x == 0,
        x matches Some(port) ==> from_x == port,
        from_x == from_y && x != y ==> from_x == 0,
{
}

/// A session that is held is handed out, and one that was let go of is not.
pub proof fn law_sessions_are_held<B>(held: Option<B>, result: Result<B, Error>)
    requires
        call_ensures(require_session::<B>, (held,), result),
    ensures
        result is Ok <==> held is Some,
        held is Some ==> result->Ok_0 == held->0,
        held is None ==> result->Err_0 == Error::SessionEnded,
{
}

/// A caller is who the bus says, and nobody without its word. A failure is carried
/// as the text of the error.
pub proof fn law_callers_are_attested(
    name: Option<String>,
    caller: Result<String, BusError>,
    error: &Error,
    carried: BusError,
)
    requires
        call_ensures(sender, (name,), caller),
        call_ensures(failed, (error,), carried),
    ensures
        caller is Ok <==> name is Some,
        name is Some ==> caller->Ok_0 == name->0,
        name is None ==> caller->Err_0 is AccessDenied && caller->Err_0->AccessDenied_text@
            == "Missing bus sender"@,
        carried is Failed,
        carried->Failed_text@ == error.text(),
{
}

/// Only the bus's word that the name has an owner makes a caller present: a second
/// answer that is any other makes it absent.
pub proof fn law_presence_is_the_buss_word(
    owner: &str,
    answer: Option<bool>,
    present: bool,
    other: Option<bool>,
    still: bool,
)
    requires
        call_ensures(owner_present, (owner, answer), present),
        call_ensures(owner_present, (owner, other), still),
        present,
    ensures
        answer == Some(true),
        still <==> other == Some(true),
{
}

/// The policy is asked about the caller's own bus name, for the one action, with
/// leave to ask the user; nothing but the name depends on the caller.
pub proof fn law_policy_is_asked_about_the_caller(owner: &str, request: PolicyRequest)
    requires
        call_ensures(policy_request, (owner,), request),
    ensures
        request.name@ == owner@,
        request.subject@ == "system-bus-name"@,
        request.attribute@ == "name"@,
        request.action@ == "org.waycast.network.configure"@,
        request.details@.len() == 0,
        request.flags == 1,
        request.cancellation@ == ""@,
{
}

/// Only an authorization lets a caller through, and only the owner's own name is
/// the owner's.
pub proof fn law_who_is_let_through(
    answer: Result<PolicyReply, Error>,
    granted: Result<(), Error>,
    actual: &str,
    expected: &str,
    owns: Result<(), Error>,
)
    requires
        call_ensures(authorize, (answer,), granted),
        call_ensures(require_owner, (actual, expected), owns),
    ensures
        granted is Ok <==> answer is Ok && answer->Ok_0.authorized,
        answer is Err ==> granted->Err_0 == answer->Err_0,
        answer is Ok && !answer->Ok_0.authorized ==> granted->Err_0 == Error::AuthorizationDenied,
        owns is Ok <==> actual@ == expected@,
        owns is Err ==> owns->Err_0 == Error::NotOwner,
{
}

/// A request that is taken carries the caller, the radio and the display as they
/// were given, and asks the policy about that caller first.
pub proof fn law_requests_are_taken_as_given(
    owner: String,
    radio: String,
    peer: String,
    result: Result<Begin, Error>,
)
    requires
        call_ensures(begin_session, (owner, radio, peer), result),
    ensures
        result is Ok <==> is_valid_name(radio@) && is_peer(peer@),
        !is_valid_name(radio@) ==> result->Err_0 == Error::InvalidName,
        is_valid_name(radio@) && !is_peer(peer@) ==> result->Err_0 == Error::InvalidPeer,
        result is Ok ==> result->Ok_0.owner == owner && result->Ok_0.radio == radio && result->Ok_0.peer
            == peer && result->Ok_0.pending() == (BeginAction::Authorize { owner }),
{
}

/// The session that is recorded is the one that its caller is told of: the caller's
/// own, on the given connection, with the port that the caller is told, under the
/// rules that took effect, and with no sockets yet. A refusal is that of the request.
pub proof fn law_recorded_is_what_was_told<C, K>(
    request: Begin,
    connection: C,
    info: Option<SessionInfo>,
    end: Result<Result<Session<C, K>, Error>, Begin>,
)
    requires
        call_ensures(Begin::info, (&request,), info),
        call_ensures(Begin::conclude::<C, K>, (request, connection), end),
    ensures
        info is Some <==> request.phase is Established,
        info is Some <==> end is Ok && end->Ok_0 is Ok,
        info is Some ==> {
            let session = end->Ok_0->Ok_0;
            let told = info->0;
            &&& session.owner == request.owner
            &&& session.connection == connection
            &&& session.sink == request.phase->Established_link.sink
            &&& session.sink.rtsp_port == told.rtsp_port
            &&& session.rules == request.phase->Established_rules
            &&& session.sockets is None
            &&& told.interface == request.phase->Established_link.interface
            &&& told.local_ip@ == request.phase->Established_local.text()
            &&& told.go_ip == request.phase->Established_go_ip
        },
        request.phase matches BeginPhase::Refused { error } ==> end is Ok && end->Ok_0 is Err
            && end->Ok_0->Err_0 == error,
        !(request.phase is Established) && !(request.phase is Refused) ==> end is Err && end->Err_0
            == request,
{
}

/// What a command came to: its output if it went well, and else what it said, with
/// the white space around that taken off, under the name of the command.
pub proof fn law_command_outcomes(
    command: &Command,
    outcome: Outcome,
    result: Result<String, Error>,
    said: Seq<char>,
)
    requires
        call_ensures(output, (command, outcome), result),
    ensures
        result is Ok <==> outcome is Exited && outcome->success,
        outcome is Exited && outcome->success && valid_utf8(outcome->stdout@) ==> result->Ok_0@
            == decode_utf8(outcome->stdout@),
        outcome is Exited && !outcome->success ==> result->Err_0 is CommandFailed
            && result->Err_0->CommandFailed_binary@ == command.binary@,
        outcome is Exited && !outcome->success && valid_utf8(outcome->stderr@) && decode_utf8(
            outcome->stderr@,
        ) == said ==> result->Err_0->CommandFailed_stderr@ == trimmed(said),
        outcome is NotStarted ==> result->Err_0 is CommandStart && result->Err_0->CommandStart_binary@
            == command.binary@,
        outcome is NoStdin ==> result->Err_0 == Error::MissingStdin,
        outcome is TimedOut ==> result->Err_0 == Error::CommandTimedOut,
        outcome is Broken ==> result->Err_0 == outcome->error,
{
}

/// An exit is reported by its own output: what was printed if it went well, and
/// what was complained of, trimmed, if it did not.
pub proof fn law_exits_are_reported(
    binary: &'static str,
    success: bool,
    stdout: String,
    stderr: &str,
    result: Result<String, Error>,
)
    requires
        call_ensures(report, (binary, success, stdout, stderr), result),
    ensures
        result is Ok <==> success,
        success ==> result->Ok_0 == stdout,
        !success ==> result->Err_0 is CommandFailed && result->Err_0->CommandFailed_binary@ == binary@
            && result->Err_0->CommandFailed_stderr@ == trimmed(stderr@),
{
}

/// Each attribute of an interface has a path of its own below the interface's directory.
pub proof fn law_paths_of_attributes(name: &str, index: String, group: String, phy: String)
    requires
        call_ensures(index_path, (name,), index),
        call_ensures(group_path, (name,), group),
        call_ensures(phy_path, (name,), phy),
    ensures
        index@ == "/sys/class/net/"@ + name@ + "/ifindex"@,
        group@ == "/sys/class/net/"@ + name@ + "/netdev_group"@,
        phy@ == "/sys/class/net/"@ + name@ + "/phy80211"@,
{
    law_attribute_paths(name@);
}

/// A service is free until a session is recorded, and then occupied and alive for
/// the session's owner alone.
pub proof fn law_service_answers<C, K>(
    fresh: NetworkService<C, K>,
    service: NetworkService<C, K>,
    slot: Slot,
    caller: &str,
    is_alive: bool,
    admitted: Result<(), Error>,
)
    requires
        call_ensures(NetworkService::<C, K>::new, (), fresh),
        call_ensures(NetworkService::<C, K>::slot, (&service,), slot),
        call_ensures(NetworkService::<C, K>::session_alive, (&service, caller), is_alive),
        call_ensures(NetworkService::<C, K>::admit_media, (&service, caller), admitted),
    ensures
        fresh.session is None,
        service.session is None ==> slot == Slot::Free && !is_alive && admitted == Err::<(), Error>(
            Error::NoSession,
        ),
        service.session matches Some(session) ==> slot == Slot::Occupied && (is_alive <==> session.owner@
            == caller@) && (admitted is Ok <==> is_alive) && (!is_alive ==> admitted->Err_0
            == Error::NotOwner),
{
}

/// What each procedure waits for first, and what the program's argument asks for.
pub proof fn law_first_steps(
    argument: Option<&str>,
    asked: Result<Mode, Error>,
    wanted: Mode,
    start: Startup,
    removal: Cleanup,
    closing: Teardown,
)
    requires
        call_ensures(mode, (argument,), asked),
        call_ensures(Startup::begin, (wanted,), start),
        call_ensures(cleanup, (), removal),
        call_ensures(close_session, (), closing),
    ensures
        argument is None ==> asked == Ok::<Mode, Error>(Mode::Serve),
        argument is Some && argument->0@ == "--cleanup"@ ==> asked == Ok::<Mode, Error>(Mode::Cleanup),
        argument is Some && argument->0@ != "--cleanup"@ ==> asked == Err::<Mode, Error>(Error::Usage),
        start == (Startup::Clearing { mode: wanted, procedure: Cleanup::Listing }),
        removal == Cleanup::Listing,
        start.pending() == removal.pending(),
        closing.pending() == TeardownAction::ClearRules,
{
}

/// A session is recorded if and only if there is none yet; one that is there stays,
/// and the newcomer is told so.
pub proof fn law_recording<C, K>(
    service: &mut NetworkService<C, K>,
    session: Session<C, K>,
    result: Result<(), Error>,
)
    requires
        call_ensures(NetworkService::<C, K>::install, (service, session), result),
    ensures
        old(service).session is None ==> final(service).session == Some(session) && result is Ok,
        old(service).session is Some ==> final(service).session == old(service).session && result == Err::<
            (),
            Error,
        >(Error::SessionActive),
{
}

/// Rules that took effect become the session's, and their sockets are held; nothing
/// else of it changes, and where they did not take effect nothing changes at all.
pub proof fn law_settling<C, K>(
    service: &mut NetworkService<C, K>,
    rules: Rules,
    applied: Result<(), Error>,
    sockets: K,
    result: Result<(), Error>,
)
    requires
        call_ensures(NetworkService::<C, K>::settle_media, (service, rules, applied, sockets), result),
    ensures
        applied is Err ==> final(service).session == old(service).session && result is Err
            && result->Err_0 == applied->Err_0,
        applied is Ok && old(service).session is None ==> final(service).session is None && result == Err::<
            (),
            Error,
        >(Error::NoSession),
        applied is Ok && old(service).session is Some ==> {
            let before = old(service).session->0;
            &&& result is Ok
            &&& final(service).session matches Some(after) && after.rules == rules && after.sockets
                == Some(sockets) && after.owner == before.owner && after.connection == before.connection
                && after.sink == before.sink
        },
{
}

/// Ending hands the session over to be closed if the caller owns it, and nothing if
/// there is none; nobody else's request takes it away. Whatever is handed over is
/// no longer held.
pub proof fn law_ending<C, K>(
    service: &mut NetworkService<C, K>,
    caller: &str,
    result: Result<Option<Session<C, K>>, Error>,
)
    requires
        call_ensures(NetworkService::<C, K>::end_session, (service, caller), result),
    ensures
        old(service).session is None ==> final(service).session is None && result is Ok
            && result->Ok_0 is None,
        old(service).session matches Some(session) ==> if session.owner@ == caller@ {
            final(service).session is None && result is Ok && result->Ok_0 == Some(session)
        } else {
            final(service).session == Some(session) && result is Err && result->Err_0 == Error::NotOwner
        },
{
}

/// Supervision takes the session away to be closed if and only if an answer was bad.
pub proof fn law_supervising<C, K>(
    service: &mut NetworkService<C, K>,
    health: Health,
    ended: Option<Session<C, K>>,
)
    requires
        call_ensures(NetworkService::<C, K>::supervise, (service, health), ended),
    ensures
        health.owner == Some(false) || health.connection == Some(false) || health.rules == Some(false)
            ==> final(service).session is None && ended == old(service).session,
        health.owner != Some(false) && health.connection != Some(false) && health.rules != Some(false)
            ==> final(service).session == old(service).session && ended is None,
{
}

/// A radio that was opened is the one to connect on, whatever radio the request named.
pub proof fn law_calls_connect_on_the_opened_radio(
    request: Begin,
    radio: String,
    port: u16,
    opened: Begin,
    resolved: Begin,
    action: BeginAction,
)
    requires
        request.phase is Opening,
        port >= 1024,
        call_ensures(Begin::advance, (request, BeginEvent::Opened { radio: Ok(radio) }), opened),
        call_ensures(Begin::advance, (opened, BeginEvent::Resolved { port: Ok(port) }), resolved),
        call_ensures(Begin::action, (&resolved,), action),
    ensures
        action == (BeginAction::Connect { radio }),
{
}

/// A preparation asks about the radio and the interface it was begun for, and ends,
/// where it ends well after the last answer, with rules for the role it was begun for.
pub proof fn law_calls_prepare_for_the_role(
    radio: String,
    name: String,
    group_owner: bool,
    begun: Preparation,
    action: HostAction,
    replies: Seq<HostReply>,
    last: HostReply,
    ended: Preparation,
)
    requires
        call_ensures(Preparation::begin, (radio, name, group_owner), begun),
        call_ensures(Preparation::action, (&begun,), action),
        call_ensures(Preparation::advance, (begun.after_all(replies), last), ended),
    ensures
        begun is Inspecting ==> action@ == (HostActionView::Inspect { radio: radio@, name: name@ }),
        ended matches Preparation::Prepared { rules } ==> rules.group_owner == group_owner
            && rules.interface.name == name && rules.rtsp == 7236 && rules.local is None
            && rules.peer is None && rules.rtcp is None,
{
    let all = replies.push(last);
    assert(all.drop_last() =~= replies);
    if let Preparation::Prepared { rules } = ended {
        law_preparation_keeps_the_role(radio, name, group_owner, all, rules);
    }
}

/// Sockets are accepted for the peer of the control connection and the RTCP port,
/// and only if the control connection is on the source's own port or on the port
/// that this very display advertises.
pub proof fn law_calls_accept_the_displays_port(
    rules: &Rules,
    sink: &Sink,
    report: SocketReport,
    result: Result<(Ipv4Addr, u16), Error>,
)
    requires
        call_ensures(validate_sockets, (rules, sink, report), result),
        result is Ok,
    ensures
        report.control is Ok && report.peer is Ok && report.rtp is Ok && report.rtcp is Ok,
        report.control->Ok_0.port == 7236 || report.peer->Ok_0.port == sink.rtsp_port,
        rules.local == Some(report.control->Ok_0.ip),
        rules.local == Some(report.rtp->Ok_0.ip),
        rules.local == Some(report.rtcp->Ok_0.ip),
        result->Ok_0.0 == report.peer->Ok_0.ip,
        result->Ok_0.1 == report.rtcp->Ok_0.port,
        report.rtcp->Ok_0.port == report.rtp->Ok_0.port + 1,
{
    law_media_is_judged_by_the_session(*rules, *sink, report);
}

/// A media request changes nothing of the session's rules but the peer and RTCP,
/// and those as the sockets and the display say.
pub proof fn law_calls_name_the_media_rules<C, K>(
    service: NetworkService<C, K>,
    caller: &str,
    report: SocketReport,
    sink_rtcp: u16,
    result: Result<Rules, Error>,
)
    requires
        call_ensures(
            NetworkService::<C, K>::authorize_media,
            (&service, caller, report, sink_rtcp),
            result,
        ),
        result is Ok,
    ensures
        service.session is Some,
        service.session->0.owner@ == caller@,
        report.peer is Ok && result->Ok_0.peer == Some(report.peer->Ok_0.ip),
        sink_rtcp == 0 ==> result->Ok_0.rtcp is None,
        sink_rtcp != 0 ==> report.rtcp is Ok && result->Ok_0.rtcp == Some(
            (report.rtcp->Ok_0.port, sink_rtcp),
        ),
        result->Ok_0.interface == service.session->0.rules.interface,
        result->Ok_0.group_owner == service.session->0.rules.group_owner,
        result->Ok_0.rtsp == service.session->0.rules.rtsp,
        result->Ok_0.local == service.session->0.rules.local,
{
    if service.session is Some {
        law_media_plans(service, service.session->0, caller@, report, sink_rtcp);
        law_media_is_judged_by_the_session(
            service.session->0.rules,
            service.session->0.sink,
            report,
        );
    }
}

/// Putting rules into effect and checking them both begin with a look at the very
/// interface that the rules are for, and are about those rules; supervision begins
/// with nothing known, and asks for the owner first.
pub proof fn law_calls_begin_with_a_look(rules: Rules, update: Apply, check: Intact, health: Health)
    requires
        call_ensures(Rules::apply, (rules,), update),
        call_ensures(Rules::intact, (rules,), check),
        call_ensures(Health::new, (), health),
    ensures
        update.rules == rules,
        check.rules == rules,
        update.pending() == (HostActionView::Observe { name: rules.interface.name@ }),
        check.pending() == (HostActionView::Observe { name: rules.interface.name@ }),
        health.owner is None && health.connection is None && health.rules is None,
        health.question() == Some(Probe::Owner),
{
}

/// Two sessions' rules are rendered alike only if they are for the same interface
/// name, role, port, hosts and RTCP ports.
pub proof fn law_calls_render_everything(
    x: &Rules,
    y: &Rules,
    of_x: Result<Vec<String>, Error>,
    of_y: Result<Vec<String>, Error>,
)
    requires
        call_ensures(Rules::lines, (x,), of_x),
        call_ensures(Rules::lines, (y,), of_y),
        of_x is Ok,
        of_y is Ok,
        texts(of_x->Ok_0@) == texts(of_y->Ok_0@),
    ensures
        x.interface.name@ == y.interface.name@,
        x.group_owner == y.group_owner,
        x.rtsp == y.rtsp,
        x.local == y.local,
        x.peer == y.peer,
        x.rtcp == y.rtcp,
{
    law_rendering_loses_nothing(*x, *y);
}

} // verus!
