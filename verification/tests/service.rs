use waycast_networkd::address::{ipv4, require_ipv4, Ipv4Addr, SocketAddrV4};
use waycast_networkd::error::Error;
use waycast_networkd::firewall::{GroupInterface, Rules};
use waycast_networkd::service::{
    authorize, failed, owner_present, policy_request, require_owner, sender, validate_addresses, validate_sockets, BusError,
    Health, NetworkService, PolicyReply, Probe, Session, Sink, Slot, SocketKind, SocketReport,
};

type Service = NetworkService<&'static str, u8>;

fn ip(text: &str) -> Ipv4Addr {
    Ipv4Addr::parse(text).unwrap()
}

fn endpoint(text: &str) -> SocketAddrV4 {
    let (host, port) = text.split_once(':').unwrap();
    SocketAddrV4 { ip: ip(host), port: port.parse().unwrap() }
}

fn rules() -> Rules {
    Rules {
        interface: GroupInterface { name: "p2p0".into(), index: 3, phy: "/phy0".into() },
        group_owner: false,
        rtsp: 7236,
        local: Some(ip("192.168.49.10")),
        peer: None,
        rtcp: None,
    }
}

fn sink() -> Sink {
    Sink {
        ip_address: Some("192.168.49.10".into()),
        go_ip_address: Some("192.168.49.1".into()),
        rtsp_port: 7236,
    }
}

fn report() -> SocketReport {
    SocketReport {
        control_kind: Ok(SocketKind::Stream),
        rtp_kind: Ok(SocketKind::Datagram),
        rtcp_kind: Ok(SocketKind::Datagram),
        control: Ok(endpoint("192.168.49.10:7236")),
        peer: Ok(endpoint("192.168.49.1:40000")),
        rtp: Ok(endpoint("192.168.49.10:45000")),
        rtcp: Ok(endpoint("192.168.49.10:45001")),
    }
}

fn session(owner: &str) -> Session<&'static str, u8> {
    Session {
        owner: owner.into(),
        connection: "link",
        sink: sink(),
        rules: rules(),
        sockets: None,
    }
}

fn service(owner: &str) -> Service {
    let mut service = Service::default();
    assert_eq!(service.install(session(owner)), Ok(()));
    service
}

fn outside() -> Error {
    Error::Outside { text: "Bad file descriptor (os error 9)".into() }
}

#[test]
fn authorization_is_per_bus_connection_not_per_uid_or_session_name() {
    assert!(require_owner(":1.10", ":1.10").is_ok());
    assert!(require_owner(":1.11", ":1.10").is_err());
}

fn check(peer: &str, local_socket: &str, rtp_port: u16, rtcp_port: u16) -> Result<(), Error> {
    validate_addresses(
        ip("192.168.49.10"),
        &ip("192.168.49.1"),
        false,
        7236,
        endpoint(&format!("{local_socket}:7236")),
        endpoint(&format!("{peer}:40000")),
        endpoint(&format!("{local_socket}:{rtp_port}")),
        endpoint(&format!("{local_socket}:{rtcp_port}")),
    )
}

#[test]
fn accepts_real_group_endpoints_and_rejects_forged_socket_metadata() {
    assert!(check("192.168.49.1", "192.168.49.10", 45000, 45001).is_ok());
    for (peer, local, rtp, rtcp) in [
        ("192.168.1.1", "192.168.49.10", 45000, 45001),
        ("192.168.49.1", "0.0.0.0", 45000, 45001),
        ("192.168.49.1", "192.168.49.10", 500, 501),
        ("192.168.49.1", "192.168.49.10", 45000, 45003),
        ("192.168.49.10", "192.168.49.10", 45000, 45001),
    ] {
        assert!(check(peer, local, rtp, rtcp).is_err());
    }
}

#[test]
fn custom_sink_port_does_not_change_the_sources_listening_port() {
    let local = ip("192.168.49.10");
    let go = ip("192.168.49.1");
    let rtp = endpoint("192.168.49.10:45000");
    let rtcp = endpoint("192.168.49.10:45001");
    assert!(validate_addresses(
        local,
        &go,
        false,
        8000,
        endpoint("192.168.49.10:7236"),
        endpoint("192.168.49.1:40000"),
        rtp,
        rtcp
    )
    .is_ok());
    assert!(validate_addresses(
        local,
        &go,
        false,
        8000,
        endpoint("192.168.49.10:40000"),
        endpoint("192.168.49.1:8000"),
        rtp,
        rtcp
    )
    .is_ok());
    assert!(validate_addresses(
        local,
        &go,
        false,
        8000,
        endpoint("192.168.49.10:8000"),
        endpoint("192.168.49.1:40000"),
        rtp,
        rtcp
    )
    .is_err());
}

#[test]
fn every_refused_endpoint_has_its_reason() {
    assert_eq!(check("192.168.49.1", "0.0.0.0", 45000, 45001), Err(Error::ForeignLocalAddress));
    assert_eq!(check("192.168.1.1", "192.168.49.10", 45000, 45001), Err(Error::PeerNotGroupOwner));
    for peer in ["192.168.49.10", "127.0.0.1", "224.0.0.1", "239.1.2.3", "0.0.0.0", "192.168.49.0", "192.168.49.255"] {
        assert_eq!(check(peer, "192.168.49.10", 45000, 45001), Err(Error::InvalidPeerAddress));
    }
    for (rtp, rtcp) in [(500, 501), (45000, 45003), (45001, 45002), (1023, 1024), (65535, 0), (45000, 44999)] {
        assert_eq!(
            check("192.168.49.1", "192.168.49.10", rtp, rtcp),
            Err(Error::WrongMediaPorts)
        );
    }
    assert_eq!(check("192.168.49.1", "192.168.49.10", 1024, 1025), Ok(()));
    assert_eq!(check("192.168.49.1", "192.168.49.10", 65534, 65535), Ok(()));
    let owned = |peer: &str| {
        validate_addresses(
            ip("192.168.49.1"),
            &ip("192.168.49.1"),
            true,
            7236,
            endpoint("192.168.49.1:7236"),
            endpoint(peer),
            endpoint("192.168.49.1:45000"),
            endpoint("192.168.49.1:45001"),
        )
    };
    assert_eq!(owned("192.168.49.77:1"), Ok(()));
    assert_eq!(owned("192.168.50.77:1"), Err(Error::PeerOutsideGroup));
    assert_eq!(
        validate_addresses(
            ip("192.168.49.10"),
            &ip("192.168.49.1"),
            false,
            8000,
            endpoint("192.168.49.10:8000"),
            endpoint("192.168.49.1:40000"),
            endpoint("192.168.49.10:45000"),
            endpoint("192.168.49.10:45001"),
        ),
        Err(Error::WrongControlPort)
    );
}

#[test]
fn sockets_are_judged_by_what_they_say() {
    assert_eq!(
        validate_sockets(&rules(), &sink(), report()),
        Ok((ip("192.168.49.1"), 45001))
    );
    let with = |change: fn(&mut SocketReport)| {
        let mut changed = report();
        change(&mut changed);
        validate_sockets(&rules(), &sink(), changed)
    };
    assert_eq!(with(|r| r.control_kind = Ok(SocketKind::Datagram)), Err(Error::WrongSocketTypes));
    assert_eq!(with(|r| r.rtp_kind = Ok(SocketKind::Stream)), Err(Error::WrongSocketTypes));
    assert_eq!(with(|r| r.rtcp_kind = Ok(SocketKind::Other)), Err(Error::WrongSocketTypes));
    assert_eq!(with(|r| r.rtp_kind = Err(outside())), Err(outside()));
    assert_eq!(with(|r| r.control = Err(Error::NotIpv4)), Err(Error::NotIpv4));
    assert_eq!(with(|r| r.peer = Err(outside())), Err(outside()));
    assert_eq!(with(|r| r.rtp = Err(outside())), Err(outside()));
    assert_eq!(with(|r| r.rtcp = Err(outside())), Err(outside()));
    assert_eq!(
        with(|r| r.rtcp = Ok(endpoint("192.168.49.10:45003"))),
        Err(Error::WrongMediaPorts)
    );
    let mut unaddressed = rules();
    unaddressed.local = None;
    assert_eq!(validate_sockets(&unaddressed, &sink(), report()), Err(Error::NoGroupAddress));
    let mut ownerless = sink();
    ownerless.go_ip_address = None;
    assert_eq!(validate_sockets(&rules(), &ownerless, report()), Err(Error::MissingGroupOwner));
    ownerless.go_ip_address = Some("192.168.49".into());
    assert_eq!(validate_sockets(&rules(), &ownerless, report()), Err(Error::AddressSyntax));
}

#[test]
fn only_ipv4_endpoints_are_supported() {
    let socket = socket2::Socket::new(socket2::Domain::IPV4, socket2::Type::DGRAM, None).unwrap();
    let unbound = socket.local_addr().unwrap();
    assert_eq!(ipv4(&unbound), Ok(endpoint("0.0.0.0:0")));
    let mut v4 = unbound.as_socket_ipv4().unwrap();
    v4.set_ip("192.168.49.10".parse().unwrap());
    v4.set_port(45001);
    assert_eq!(
        ipv4(&socket2::SockAddr::from(v4)),
        Ok(endpoint("192.168.49.10:45001"))
    );
    let unix = socket2::SockAddr::unix("/run/waycast").unwrap();
    assert_eq!(ipv4(&unix), Err(Error::NotIpv4));
    assert_eq!(require_ipv4(Some(endpoint("1.2.3.4:5"))), Ok(endpoint("1.2.3.4:5")));
    assert_eq!(require_ipv4(None), Err(Error::NotIpv4));
}

#[test]
fn callers_are_attested_by_the_bus() {
    assert_eq!(sender(Some(":1.10".into())), Ok(":1.10".to_string()));
    assert_eq!(
        sender(None),
        Err(BusError::AccessDenied { text: "Missing bus sender".into() })
    );
    assert_eq!(
        failed(&Error::NotOwner),
        BusError::Failed { text: "The caller does not own this network session".into() }
    );
    assert_eq!(require_owner(":1.11", ":1.10"), Err(Error::NotOwner));
}

#[test]
fn presence_needs_a_bus_name_and_a_positive_answer() {
    for name in [":1.10", ":1.0", ":a-b.c_d", "org.waycast.Network1", "org.freedesktop.DBus", "a-b._c"] {
        assert!(owner_present(name, Some(true)), "{name}");
        assert!(!owner_present(name, Some(false)));
        assert!(!owner_present(name, None));
    }
    let long = format!(":1.{}", "9".repeat(253));
    for name in [
        "", ":", ":1", "1.10", ":1.", ":.1", ":1..2", "org", "org.", ".org", "org..x", "org.1x", "9a.b", "a b.c",
        "org.wayc\u{e4}st", "org.x:y", long.as_str(),
    ] {
        assert!(!owner_present(name, Some(true)), "{name}");
    }
    let limit = format!(":1.{}", "9".repeat(252));
    assert!(owner_present(&limit, Some(true)));
}

#[test]
fn the_policy_decides() {
    let answer = |authorized: bool, challenge: bool| Ok(PolicyReply { authorized, challenge });
    for challenge in [false, true] {
        assert_eq!(authorize(answer(true, challenge)), Ok(()));
        assert_eq!(authorize(answer(false, challenge)), Err(Error::AuthorizationDenied));
    }
    assert!(Error::AuthorizationDenied.message().contains("authorization was denied"));
    assert_eq!(authorize(Err(outside())), Err(outside()));
    let request = policy_request(":1.10");
    assert_eq!(request.subject, "system-bus-name");
    assert_eq!(request.attribute, "name");
    assert_eq!(request.name, ":1.10");
    assert_eq!(request.action, "org.waycast.network.configure");
    assert!(request.details.is_empty());
    assert_eq!(request.flags, 1);
    assert_eq!(request.cancellation, "");
}

#[test]
fn one_session_at_a_time() {
    let mut service = Service::new();
    assert_eq!(service.slot(), Slot::Free);
    assert_eq!(service.install(session(":1.10")), Ok(()));
    assert_eq!(service.slot(), Slot::Occupied);
    assert_eq!(service.install(session(":1.11")), Err(Error::SessionActive));
    assert!(service.session_alive(":1.10"));
    assert!(!service.session_alive(":1.11"));
}

#[test]
fn strangers_neither_change_nor_end_a_session() {
    let mut service = service(":1.10");
    assert_eq!(
        service.authorize_media(":1.11", report(), 19007),
        Err(Error::NotOwner)
    );
    assert_eq!(service.admit_media(":1.11"), Err(Error::NotOwner));
    assert_eq!(service.admit_media(":1.10"), Ok(()));
    assert_eq!(service.end_session(":1.11").unwrap_err(), Error::NotOwner);
    assert!(service.supervise(Health::new()).is_none());
    let kept = service.session.as_ref().unwrap();
    assert_eq!(kept.owner, ":1.10");
    assert_eq!(kept.rules, rules());
}

#[test]
fn ending_a_session_is_idempotent() {
    let mut service = service(":1.10");
    let ended = service.end_session(":1.10").unwrap().unwrap();
    assert_eq!((ended.owner.as_str(), ended.connection), (":1.10", "link"));
    assert!(!service.session_alive(":1.10"));
    assert!(service.end_session(":1.10").unwrap().is_none());
    assert!(service.end_session(":1.11").unwrap().is_none());
    assert_eq!(service.admit_media(":1.10"), Err(Error::NoSession));
    for caller in [":1.10", ":1.11", ""] {
        assert!(!service.session_alive(caller));
    }
}

#[test]
fn media_narrows_the_rules_and_pins_the_sockets() {
    let mut service = service(":1.10");
    let planned = service.authorize_media(":1.10", report(), 19007).unwrap();
    assert_eq!(planned.peer, Some(ip("192.168.49.1")));
    assert_eq!(planned.rtcp, Some((45001, 19007)));
    assert_eq!(planned.local, rules().local);
    assert!(planned.lines().is_ok());
    assert_eq!(service.session.as_ref().unwrap().rules, rules());
    assert_eq!(
        service.settle_media(planned.clone(), Err(Error::HookMissing), 7),
        Err(Error::HookMissing)
    );
    assert_eq!(service.session.as_ref().unwrap().rules, rules());
    assert_eq!(service.session.as_ref().unwrap().sockets, None);
    assert_eq!(service.settle_media(planned.clone(), Ok(()), 7), Ok(()));
    let settled = service.session.as_ref().unwrap();
    assert_eq!(settled.rules, planned);
    assert_eq!(settled.sockets, Some(7));
    assert_eq!(settled.owner, ":1.10");
    let without = service.authorize_media(":1.10", report(), 0).unwrap();
    assert_eq!(without.rtcp, None);
    assert_eq!(without.lines().unwrap().len(), 2);
}

fn is_sound(service: &Service) -> bool {
    service.session.as_ref().is_none_or(|s| {
        s.rules.lines().is_ok()
            && s.rules.rtsp == 7236
            && s.rules.local.is_some()
            && s.sockets.is_some() == s.rules.peer.is_some()
            && (s.rules.rtcp.is_none() || s.sockets.is_some())
    })
}

#[test]
fn every_session_is_sound() {
    let mut service = Service::new();
    assert!(is_sound(&service));
    service.install(session(":1.10")).unwrap();
    assert!(is_sound(&service));
    for (sink_rtcp, applied) in [(19007, false), (19007, true), (0, true), (1, true)] {
        let rules = service.authorize_media(":1.10", report(), sink_rtcp).unwrap();
        let applied = if applied { Ok(()) } else { Err(Error::InterfaceGone) };
        let _ = service.settle_media(rules, applied, 7);
        assert!(is_sound(&service));
        assert!(service.session_alive(":1.10"));
    }
    service.end_session(":1.10").unwrap();
    service.install(session(":1.11")).unwrap();
    assert!(is_sound(&service));
}

#[test]
fn media_needs_a_session() {
    let mut service = Service::new();
    assert_eq!(
        service.authorize_media(":1.10", report(), 19007),
        Err(Error::NoSession)
    );
    assert_eq!(service.settle_media(rules(), Ok(()), 7), Err(Error::NoSession));
    assert!(service.session.is_none());
}

fn probe(owner: bool, connection: bool, intact: bool) -> (Health, usize) {
    let mut health = Health::new();
    let mut asked = 0;
    while let Some(probe) = health.next_probe() {
        asked += 1;
        let good = match probe {
            Probe::Owner => owner,
            Probe::Connection => connection,
            Probe::Rules => intact,
        };
        health = health.answer(probe, good);
    }
    (health, asked)
}

#[test]
fn ill_health_ends_a_session() {
    for (owner, connection, intact, questions) in [
        (true, true, true, 3),
        (false, true, true, 1),
        (true, false, true, 2),
        (true, true, false, 3),
        (false, false, false, 1),
    ] {
        let mut service = service(":1.10");
        let (health, asked) = probe(owner, connection, intact);
        assert_eq!(asked, questions);
        let ended = service.supervise(health);
        let healthy = owner && connection && intact;
        assert_eq!(ended.is_none(), healthy);
        assert_eq!(service.session_alive(":1.10"), healthy);
    }
}
