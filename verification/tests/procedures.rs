use std::collections::BTreeMap;
use waycast_networkd::address::{Ipv4Addr, SocketAddrV4};
use waycast_networkd::client::{alive, begin, require_session, rtcp_argument, Reply};
use waycast_networkd::command::Command;
use waycast_networkd::error::Error;
use waycast_networkd::firewall::{cleanup, ensure_hook, GroupInterface, Observation, Rules};
use waycast_networkd::procedure::{
    ApplyPhase, Cleanup, HostAction, HostReply, IntactPhase, Preparation,
};
use waycast_networkd::service::{NetworkService, Sink, Slot, SocketKind, SocketReport};
use waycast_networkd::setup::{
    begin_session, close_session, Begin, BeginAction, BeginEvent, BeginPhase, Interruption, Link, Teardown,
    TeardownAction, TeardownEvent,
};
use waycast_networkd::startup::{mode, Mode, Startup};
use waycast_networkd::SessionInfo;

fn ip(text: &str) -> Ipv4Addr {
    Ipv4Addr::parse(text).unwrap()
}

fn rules() -> Rules {
    Rules {
        interface: GroupInterface { name: "p2p-wlan0-0".into(), index: 10, phy: "/phy0".into() },
        group_owner: true,
        rtsp: 7236,
        local: None,
        peer: None,
        rtcp: None,
    }
}

fn seen(group: &str) -> Observation {
    Observation { index: Ok("10\n".into()), phy: Ok("/phy0".into()), group: Ok(group.into()) }
}

fn observed(group: &str) -> HostReply {
    HostReply::Observed { seen: seen(group) }
}

fn ran(text: &str) -> HostReply {
    HostReply::Ran { result: Ok(text.into()) }
}

fn failure() -> Error {
    Error::CommandFailed { binary: "/usr/bin/iptables".into(), stderr: "no".into() }
}

fn failed() -> HostReply {
    HostReply::Ran { result: Err(failure()) }
}

const TAGGED: &str = "5719620\n";

fn command(action: HostAction) -> Command {
    match action {
        HostAction::Run { command } => command,
        other => panic!("{other:?}"),
    }
}

fn observes(action: HostAction) -> bool {
    matches!(action, HostAction::Observe { name } if name == "p2p-wlan0-0")
}

#[test]
fn an_update_looks_before_it_commits() {
    let update = rules().apply();
    assert!(observes(update.action()));
    let update = update.advance(ran("stray")).advance(observed(TAGGED));
    assert_eq!(command(update.action()).args[2], "-C");
    let update = update.advance(observed("0")).advance(ran(""));
    let restore = command(update.action());
    assert_eq!(restore.binary, "/usr/bin/iptables-restore");
    assert_eq!(
        restore.input.unwrap(),
        format!("*filter\n-F waycast-input\n{}\nCOMMIT\n", rules().lines().unwrap().join("\n"))
    );
    let update = update.advance(ran(""));
    assert!(matches!(update.phase, ApplyPhase::Done { result: Ok(()) }));
    assert!(matches!(update.action(), HostAction::Rest));
}

#[test]
fn an_update_fails_for_its_first_reason() {
    let end = |phase: ApplyPhase| match phase {
        ApplyPhase::Done { result } => result,
        other => panic!("{other:?}"),
    };
    assert_eq!(end(rules().apply().advance(observed("0")).phase), Err(Error::InterfaceGone));
    assert_eq!(
        end(rules().apply().advance(observed(TAGGED)).advance(failed()).phase),
        Err(Error::HookMissing)
    );
    let mut refused = rules();
    refused.rtsp = 80;
    assert_eq!(
        end(refused.apply().advance(observed(TAGGED)).advance(ran("")).phase),
        Err(Error::PrivilegedRtspPort)
    );
    let late = rules().apply().advance(observed(TAGGED)).advance(ran("")).advance(failed());
    assert_eq!(end(late.advance(ran("")).phase), Err(failure()));
    assert_eq!(ensure_hook(Ok("".into())), Ok(()));
    assert_eq!(
        ensure_hook(Err(failure())).unwrap_err().message(),
        "Waycast UFW hook is not loaded; run the installed networking setup"
    );
}

#[test]
fn a_check_tells_intact_rules_from_changed_ones() {
    let check = |first: HostReply, second: HostReply, third: HostReply| {
        let procedure = rules().intact();
        assert!(observes(procedure.action()));
        match procedure.advance(first).advance(second).advance(third).phase {
            IntactPhase::Done { intact } => intact,
            other => panic!("{other:?}"),
        }
    };
    let listing = format!("-N waycast-input\n{}\n", rules().lines().unwrap().join("\n"));
    assert!(check(observed(TAGGED), ran(""), ran(&listing)));
    assert!(!check(observed(TAGGED), ran(""), ran("-N waycast-input\n")));
    assert!(!check(observed(TAGGED), ran(""), failed()));
    assert!(!check(observed(TAGGED), failed(), ran(&listing)));
    assert!(!check(observed("0"), ran(""), ran(&listing)));
    let listing_phase = rules().intact().advance(observed(TAGGED)).advance(ran(""));
    assert_eq!(command(listing_phase.action()).args[2..], ["-S", "waycast-input"]);
}

#[test]
fn a_cleanup_empties_the_chain_where_there_is_one() {
    assert_eq!(command(cleanup().action()).args[2..], ["-S"]);
    let flushing = cleanup().advance(ran("-P INPUT DROP\n-N waycast-input\n"));
    assert_eq!(command(flushing.action()).args[2..], ["-F", "waycast-input"]);
    assert!(matches!(flushing.advance(ran("")), Cleanup::Done { result: Ok(()) }));
    assert!(matches!(
        cleanup().advance(ran("-P INPUT DROP\n")),
        Cleanup::Done { result: Ok(()) }
    ));
    assert!(matches!(cleanup().advance(failed()), Cleanup::Done { result: Err(_) }));
    let flushing = cleanup().advance(ran("-N waycast-input\n"));
    assert!(matches!(flushing.advance(failed()), Cleanup::Done { result: Err(_) }));
}

fn inspected() -> HostReply {
    HostReply::Inspected {
        radio_phy: Ok("/phy0".into()),
        index: Ok("10\n".into()),
        seen: seen("0\n"),
    }
}

fn preparing() -> Preparation {
    Preparation::begin("wlan0".into(), "p2p-wlan0-0".into(), true)
}

#[test]
fn a_preparation_tags_before_it_permits() {
    let now = preparing();
    assert!(matches!(
        now.action(),
        HostAction::Inspect { radio, name } if radio == "wlan0" && name == "p2p-wlan0-0"
    ));
    let now = now.advance(inspected());
    assert!(observes(now.action()));
    let now = now.advance(observed("0\n"));
    assert_eq!(
        command(now.action()).args,
        ["link", "set", "dev", "p2p-wlan0-0", "group", "5719620"]
    );
    let now = now.advance(ran(""));
    assert!(observes(now.action()));
    let now = now.advance(observed(TAGGED));
    assert!(observes(now.action()));
    let now = now.advance(observed(TAGGED)).advance(ran(""));
    assert!(command(now.action()).input.unwrap().contains("--sport 68 --dport 67"));
    match now.advance(ran("")) {
        Preparation::Prepared { rules: prepared } => assert_eq!(prepared, rules()),
        other => panic!("{other:?}"),
    }
}

#[test]
fn a_preparation_fails_for_its_first_reason() {
    let error = |now: Preparation| match now {
        Preparation::Failed { error } => error,
        other => panic!("{other:?}"),
    };
    assert_eq!(error(Preparation::begin("wlan0".into(), "eth0".into(), true)), Error::NotP2pInterface);
    assert_eq!(error(Preparation::begin("wl/n0".into(), "p2p0".into(), true)), Error::InvalidName);
    let moved = HostReply::Inspected {
        radio_phy: Ok("/phy1".into()),
        index: Ok("10".into()),
        seen: seen("0"),
    };
    assert_eq!(error(preparing().advance(moved)), Error::WrongRadio);
    let claiming = || preparing().advance(inspected());
    assert_eq!(error(claiming().advance(observed("3"))), Error::ForeignDeviceGroup);
    let tagging = || claiming().advance(observed("0"));
    assert_eq!(error(tagging().advance(failed())), failure());
    assert_eq!(error(tagging().advance(ran("")).advance(observed("0"))), Error::ChangedWhileTagging);
    let applying = tagging().advance(ran("")).advance(observed(TAGGED)).advance(observed("0"));
    assert_eq!(error(applying), Error::InterfaceGone);
}

fn request() -> Begin {
    begin_session(":1.10".into(), "wlan0".into(), "00:11:22:33:44:55".into()).unwrap()
}

fn link() -> Link {
    Link {
        interface: "p2p-wlan0-0".into(),
        sink: Sink {
            ip_address: Some("192.168.49.1".into()),
            go_ip_address: Some("192.168.49.1".into()),
            rtsp_port: 8000,
        },
    }
}

fn connecting() -> Begin {
    request()
        .advance(BeginEvent::Authorized { result: Ok(()) })
        .advance(BeginEvent::Acquired { slot: Slot::Free })
        .advance(BeginEvent::HookChecked { result: Ok(()) })
        .advance(BeginEvent::Cleared { result: Ok(()) })
        .advance(BeginEvent::Opened { radio: Ok("wlan0".into()) })
        .advance(BeginEvent::Resolved { port: Ok(8000) })
}

fn connected(link: Link) -> Begin {
    connecting().advance(BeginEvent::Connected { link: Ok(link), prepared: Some(rules()) })
}

fn refused(request: &Begin) -> &Error {
    match &request.phase {
        BeginPhase::Refused { error } => error,
        other => panic!("{other:?}"),
    }
}

fn unwound(request: Begin) -> Begin {
    assert!(matches!(request.action(), BeginAction::ClearRules));
    request.advance(BeginEvent::Cleared { result: Ok(()) })
}

fn closed(request: Begin) -> Begin {
    assert!(matches!(request.action(), BeginAction::CloseConnection));
    unwound(request.advance(BeginEvent::Closed))
}

#[test]
fn malformed_requests_are_refused_at_once() {
    let ask = |radio: &str, peer: &str| begin_session(":1.10".into(), radio.into(), peer.into());
    assert_eq!(ask("wlan 0", "00:11:22:33:44:55").unwrap_err(), Error::InvalidName);
    for peer in ["", "00:11:22:33:44:5", "00:11:22:33:44:555", "00-11-22-33-44-55", "gg:11:22:33:44:55"] {
        assert_eq!(ask("wlan0", peer).unwrap_err(), Error::InvalidPeer);
    }
    assert!(ask("wlan0", "aB:cD:eF:33:44:55").is_ok());
}

#[test]
fn denial_precedes_everything() {
    let now = request();
    assert!(matches!(now.action(), BeginAction::Authorize { owner } if owner == ":1.10"));
    let now = now
        .advance(BeginEvent::Acquired { slot: Slot::Free })
        .advance(BeginEvent::Opened { radio: Ok("wlan0".into()) });
    assert!(matches!(now.action(), BeginAction::Authorize { .. }));
    let now = now.advance(BeginEvent::Authorized { result: Err(Error::AuthorizationDenied) });
    assert_eq!(refused(&now), &Error::AuthorizationDenied);
    let now = now.advance(BeginEvent::Authorized { result: Ok(()) });
    assert_eq!(refused(&now), &Error::AuthorizationDenied);
    assert!(matches!(now.action(), BeginAction::Reply));
    assert_eq!(now.info(), None);
}

#[test]
fn a_session_is_established_step_by_step() {
    let now = request().advance(BeginEvent::Authorized { result: Ok(()) });
    assert!(matches!(now.action(), BeginAction::Acquire));
    let now = now.advance(BeginEvent::Acquired { slot: Slot::Free });
    assert!(matches!(now.action(), BeginAction::CheckHook));
    let now = now.advance(BeginEvent::HookChecked { result: Ok(()) });
    assert!(matches!(now.action(), BeginAction::ClearRules));
    let now = now.advance(BeginEvent::Cleared { result: Ok(()) });
    assert!(matches!(now.action(), BeginAction::OpenRadio { radio } if radio == "wlan0"));
    let now = now.advance(BeginEvent::Opened { radio: Ok("wlan0".into()) });
    assert!(matches!(now.action(), BeginAction::ResolveSink { peer } if peer == "00:11:22:33:44:55"));
    let now = now.advance(BeginEvent::Resolved { port: Ok(8000) });
    assert!(matches!(now.action(), BeginAction::Connect { radio } if radio == "wlan0"));
    let now = now.advance(BeginEvent::Connected { link: Ok(link()), prepared: Some(rules()) });
    match now.action() {
        BeginAction::ApplyRules { rules: narrowed } => {
            assert_eq!(narrowed.local, Some(ip("192.168.49.1")));
            assert!(narrowed.lines().unwrap()[2].contains("-d 192.168.49.1/32 -p tcp --dport 7236"));
        }
        other => panic!("{other:?}"),
    }
    let now = now.advance(BeginEvent::Applied { result: Ok(()) });
    assert_eq!(
        now.info(),
        Some(SessionInfo {
            interface: "p2p-wlan0-0".into(),
            local_ip: "192.168.49.1".into(),
            go_ip: "192.168.49.1".into(),
            rtsp_port: 8000,
        })
    );
    let session = now.conclude::<&str, u8>("link").unwrap().unwrap();
    assert_eq!(session.owner, ":1.10");
    assert_eq!(session.sink, link().sink);
    let mut service = NetworkService::new();
    assert_eq!(service.install(session), Ok(()));
    assert!(service.session_alive(":1.10"));
}

#[test]
fn requests_are_refused_for_their_first_reason() {
    let held = |slot: Slot| {
        request()
            .advance(BeginEvent::Authorized { result: Ok(()) })
            .advance(BeginEvent::Acquired { slot })
    };
    assert_eq!(refused(&held(Slot::Busy)), &Error::SetupBusy);
    assert_eq!(refused(&held(Slot::Occupied)), &Error::SessionActive);
    let unhooked = held(Slot::Free).advance(BeginEvent::HookChecked { result: Err(Error::HookMissing) });
    assert_eq!(refused(&unhooked), &Error::HookMissing);
    let opening = || {
        held(Slot::Free)
            .advance(BeginEvent::HookChecked { result: Ok(()) })
            .advance(BeginEvent::Cleared { result: Ok(()) })
    };
    let no_radio = opening().advance(BeginEvent::Opened { radio: Err(failure()) });
    assert_eq!(refused(&unwound(no_radio)), &failure());
    let resolving = || opening().advance(BeginEvent::Opened { radio: Ok("wlan0".into()) });
    let privileged = resolving().advance(BeginEvent::Resolved { port: Ok(1023) });
    assert_eq!(refused(&unwound(privileged)), &Error::PrivilegedSinkPort);
    let unknown = resolving().advance(BeginEvent::Resolved { port: Err(failure()) });
    assert_eq!(refused(&unwound(unknown)), &failure());
    let unconnected = connecting().advance(BeginEvent::Connected {
        link: Err(failure()),
        prepared: Some(rules()),
    });
    assert_eq!(refused(&unwound(unconnected)), &failure());
}

#[test]
fn interruptions_unwind_the_setup() {
    for (by, error) in [
        (Interruption::Deadline, Error::SetupTimedOut),
        (Interruption::CallerLost, Error::CallerLost),
    ] {
        let now = unwound(connecting().advance(BeginEvent::Interrupted { by }));
        assert_eq!(refused(&now), &error);
    }
    let early = request().advance(BeginEvent::Interrupted { by: Interruption::Deadline });
    assert!(matches!(early.phase, BeginPhase::Authorizing));
}

#[test]
fn a_connection_without_what_it_needs_is_closed_again() {
    let unprepared = connecting().advance(BeginEvent::Connected { link: Ok(link()), prepared: None });
    assert_eq!(refused(&closed(unprepared)), &Error::MissingPrepared);
    let mut without = link();
    without.sink.ip_address = None;
    assert_eq!(refused(&closed(connected(without))), &Error::MissingLocal);
    let mut garbled = link();
    garbled.sink.ip_address = Some("fe80::1".into());
    assert_eq!(refused(&closed(connected(garbled))), &Error::AddressSyntax);
    let mut ownerless = link();
    ownerless.sink.go_ip_address = None;
    let now = connected(ownerless).advance(BeginEvent::Applied { result: Ok(()) });
    assert_eq!(refused(&closed(now)), &Error::MissingOwnerAddress);
    let unapplied = connected(link()).advance(BeginEvent::Applied { result: Err(Error::InterfaceGone) });
    let end = closed(unapplied);
    assert_eq!(refused(&end), &Error::InterfaceGone);
    assert_eq!(end.conclude::<(), ()>(()).unwrap().unwrap_err(), Error::InterfaceGone);
}

#[test]
fn rules_that_cannot_be_removed_are_fatal() {
    let now = connecting()
        .advance(BeginEvent::Interrupted { by: Interruption::CallerLost })
        .advance(BeginEvent::Cleared { result: Err(failure()) });
    assert!(matches!(now.action(), BeginAction::Exit));
    assert!(now.conclude::<(), ()>(()).is_err());
}

#[test]
fn a_teardown_tries_everything() {
    let now = close_session();
    assert_eq!(now.action(), TeardownAction::ClearRules);
    let now = now
        .advance(TeardownEvent::Closed { completed: true })
        .advance(TeardownEvent::Cleared { result: Ok(()) });
    assert_eq!(now.action(), TeardownAction::CloseConnection);
    let now = now.advance(TeardownEvent::Closed { completed: false });
    assert!(matches!(now, Teardown::Closed { clean: false }));
    assert_eq!(now.action(), TeardownAction::Rest);
    let now = close_session().advance(TeardownEvent::Cleared { result: Err(failure()) });
    assert_eq!(now.action(), TeardownAction::CloseConnection);
    let now = now.advance(TeardownEvent::Closed { completed: true });
    assert_eq!(now.action(), TeardownAction::Exit);
}

#[test]
fn clients_adopt_what_the_helper_tells() {
    let info = SessionInfo {
        interface: "p2p-wlan0-0".into(),
        local_ip: "192.168.49.1".into(),
        go_ip: "192.168.49.1".into(),
        rtsp_port: 8000,
    };
    assert_eq!(info.clone(), info);
    assert_eq!(begin(Reply::Received { value: info }), Ok(link()));
    assert_eq!(
        begin(Reply::TimedOut).unwrap_err().message(),
        "Timed out preparing the wireless display network"
    );
    assert_eq!(
        begin(Reply::Failed { cause: "no service".into() }).unwrap_err().message(),
        "Wireless display network setup failed: no service. Install/enable waycast-networkd using the Waycast installer."
    );
}

#[test]
fn clients_believe_only_the_helpers_word() {
    assert!(alive(&Reply::Received { value: true }));
    assert!(!alive(&Reply::Received { value: false }));
    assert!(!alive(&Reply::TimedOut));
    assert!(!alive(&Reply::Failed { cause: "gone".into() }));
    assert_eq!(rtcp_argument(Some(19007)), 19007);
    assert_eq!(rtcp_argument(None), 0);
    assert_eq!(rtcp_argument(Some(0)), 0);
    assert_eq!(require_session(Some(1)), Ok(1));
    assert_eq!(
        require_session::<u8>(None).unwrap_err().message(),
        "Network session ended"
    );
}

#[test]
fn the_helper_cleans_up_before_it_serves() {
    assert_eq!(mode(None), Ok(Mode::Serve));
    assert_eq!(mode(Some("--cleanup")), Ok(Mode::Cleanup));
    for argument in ["", "--help", "--cleanup "] {
        assert_eq!(
            mode(Some(argument)).unwrap_err().message(),
            "Usage: waycast-networkd [--cleanup]"
        );
    }
    let start = Startup::begin(Mode::Serve);
    assert_eq!(command(start.action()).args[2..], ["-S"]);
    let start = start.advance(ran("-N waycast-input\n"));
    assert_eq!(command(start.action()).args[2..], ["-F", "waycast-input"]);
    let start = start.advance(ran(""));
    assert!(matches!(start, Startup::Serving));
    assert!(matches!(start.action(), HostAction::Rest));
    assert!(matches!(
        Startup::begin(Mode::Serve).advance(failed()),
        Startup::Finished { result: Err(_) }
    ));
    assert!(matches!(
        Startup::begin(Mode::Cleanup).advance(ran("")),
        Startup::Finished { result: Ok(()) }
    ));
}

/// A filter table that answers commands.
struct Host {
    chains: BTreeMap<String, Vec<String>>,
    group: &'static str,
}

impl Host {
    fn new() -> Host {
        let mut chains = BTreeMap::new();
        chains.insert("INPUT".to_string(), vec!["-A INPUT -j ufw-before-input".to_string()]);
        chains.insert(
            "ufw-before-input".to_string(),
            vec!["-A ufw-before-input -j waycast-input".to_string()],
        );
        chains.insert("waycast-input".to_string(), vec!["-A waycast-input -j ACCEPT".to_string()]);
        Host { chains, group: "0" }
    }

    fn list(&self, only: Option<&str>) -> String {
        let mut text = String::new();
        let chosen = || self.chains.iter().filter(|(name, _)| only.is_none_or(|only| only == name.as_str()));
        for (name, _) in chosen() {
            text += &format!("-N {name}\n");
        }
        for (_, rules) in chosen() {
            for rule in rules {
                text += &format!("{rule}\n");
            }
        }
        text
    }

    fn run(&mut self, command: Command) -> String {
        if let Some(script) = command.input {
            for line in script.lines() {
                if let Some(chain) = line.strip_prefix("-F ") {
                    self.chains.insert(chain.to_string(), Vec::new());
                } else if line.starts_with("-A ") {
                    let chain = line.split(' ').nth(1).unwrap();
                    self.chains.get_mut(chain).unwrap().push(line.to_string());
                }
            }
            return String::new();
        }
        let args: Vec<&str> = command.args.iter().map(String::as_str).collect();
        match args[..] {
            ["--wait", "5", "-S"] => self.list(None),
            ["--wait", "5", "-S", chain] => self.list(Some(chain)),
            ["--wait", "5", "-F", chain] => {
                self.chains.insert(chain.to_string(), Vec::new());
                String::new()
            }
            ["link", "set", "dev", _, "group", _] => {
                self.group = TAGGED;
                String::new()
            }
            _ => String::new(),
        }
    }

    fn perform(&mut self, action: HostAction) -> Option<HostReply> {
        match action {
            HostAction::Inspect { .. } => Some(inspected()),
            HostAction::Observe { .. } => Some(observed(self.group)),
            HostAction::Run { command } => Some(ran(&self.run(command))),
            HostAction::Rest => None,
        }
    }

    fn clear(&mut self) -> Result<(), Error> {
        let mut procedure = cleanup();
        while let Some(reply) = self.perform(procedure.action()) {
            procedure = procedure.advance(reply);
        }
        match procedure {
            Cleanup::Done { result } => result,
            other => panic!("{other:?}"),
        }
    }

    fn apply(&mut self, rules: Rules) -> Result<(), Error> {
        let mut procedure = rules.apply();
        while let Some(reply) = self.perform(procedure.action()) {
            procedure = procedure.advance(reply);
        }
        match procedure.phase {
            ApplyPhase::Done { result } => result,
            other => panic!("{other:?}"),
        }
    }

    fn intact(&mut self, rules: Rules) -> bool {
        let mut procedure = rules.intact();
        while let Some(reply) = self.perform(procedure.action()) {
            procedure = procedure.advance(reply);
        }
        matches!(procedure.phase, IntactPhase::Done { intact: true })
    }

    fn prepare(&mut self) -> Rules {
        let mut procedure = preparing();
        while let Some(reply) = self.perform(procedure.action()) {
            procedure = procedure.advance(reply);
        }
        match procedure {
            Preparation::Prepared { rules } => rules,
            other => panic!("{other:?}"),
        }
    }

    fn chain(&self) -> &Vec<String> {
        &self.chains["waycast-input"]
    }

    fn others(&self) -> BTreeMap<String, Vec<String>> {
        let mut others = self.chains.clone();
        others.remove("waycast-input");
        others
    }
}

#[test]
fn the_chain_holds_exactly_the_sessions_rules() {
    let mut host = Host::new();
    let others = host.others();
    assert_eq!(host.clear(), Ok(()));
    assert!(host.chain().is_empty());
    let cleaned = host.chains.clone();
    assert_eq!(host.clear(), Ok(()));
    assert_eq!(host.chains, cleaned);

    let prepared = host.prepare();
    assert_eq!(host.chain(), &prepared.lines().unwrap());
    let request = connecting().advance(BeginEvent::Connected { link: Ok(link()), prepared: Some(prepared) });
    let narrowed = match request.action() {
        BeginAction::ApplyRules { rules } => rules,
        other => panic!("{other:?}"),
    };
    let request = request.advance(BeginEvent::Applied { result: host.apply(narrowed) });
    let mut service: NetworkService<&str, u8> = NetworkService::new();
    service.install(request.conclude("link").unwrap().unwrap()).unwrap();
    let held = |service: &NetworkService<&str, u8>| match &service.session {
        Some(session) => session.rules.lines().unwrap(),
        None => Vec::new(),
    };
    assert_eq!(host.chain(), &held(&service));
    assert!(host.intact(service.session.as_ref().unwrap().rules.clone()));

    let report = || SocketReport {
        control_kind: Ok(SocketKind::Stream),
        rtp_kind: Ok(SocketKind::Datagram),
        rtcp_kind: Ok(SocketKind::Datagram),
        control: Ok(SocketAddrV4 { ip: ip("192.168.49.1"), port: 7236 }),
        peer: Ok(SocketAddrV4 { ip: ip("192.168.49.77"), port: 40000 }),
        rtp: Ok(SocketAddrV4 { ip: ip("192.168.49.1"), port: 45000 }),
        rtcp: Ok(SocketAddrV4 { ip: ip("192.168.49.1"), port: 45001 }),
    };
    let planned = service.authorize_media(":1.10", report(), 19007).unwrap();
    let applied = host.apply(planned.clone());
    assert_eq!(service.settle_media(planned, applied, 7), Ok(()));
    assert_eq!(host.chain(), &held(&service));
    assert_eq!(host.chain().len(), 4);

    // A failed update leaves both as they were.
    host.group = "0";
    let planned = service.authorize_media(":1.10", report(), 0).unwrap();
    let applied = host.apply(planned.clone());
    assert_eq!(service.settle_media(planned, applied, 8), Err(Error::InterfaceGone));
    assert_eq!(host.chain(), &held(&service));

    assert!(service.end_session(":1.11").is_err());
    assert_eq!(host.chain(), &held(&service));
    assert!(service.end_session(":1.10").unwrap().is_some());
    assert_eq!(host.clear(), Ok(()));
    assert_eq!(host.chain(), &held(&service));
    assert_eq!(host.others(), others);
}
