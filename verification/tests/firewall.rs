use waycast_networkd::address::Ipv4Addr;
use waycast_networkd::command::{
    chain_command, flush_command, hook_command, output, report, restore_command, table_command, tag_command,
    Outcome, CHAIN, DEVICE_GROUP,
};
use waycast_networkd::error::Error;
use waycast_networkd::firewall::{
    group_path, index_path, phy_path, read_number, validate_name, GroupInterface, Observation, Rules,
};
use waycast_networkd::rule_form::{normalize_rule, shows, shows_chain, transaction};

fn rules(owner: bool) -> Rules {
    Rules {
        interface: GroupInterface {
            name: "p2p-wlan0-0".into(),
            index: 10,
            phy: "/fake".into(),
        },
        group_owner: owner,
        rtsp: 7236,
        local: None,
        peer: None,
        rtcp: None,
    }
}

fn ip(text: &str) -> Ipv4Addr {
    Ipv4Addr::parse(text).unwrap()
}

fn media(owner: bool) -> Rules {
    let mut r = rules(owner);
    r.local = Some(ip("192.168.49.10"));
    r.peer = Some(ip("192.168.49.1"));
    r.rtcp = Some((45001, 19007));
    r
}

fn seen(index: &str, phy: &str, group: &str) -> Observation {
    Observation {
        index: Ok(index.into()),
        phy: Ok(phy.into()),
        group: Ok(group.into()),
    }
}

fn gone() -> Result<String, Error> {
    Err(Error::Outside { text: "No such file or directory (os error 2)".into() })
}

const SCOPE: &str = "-A waycast-input -i p2p-wlan0-0 -m devgroup --src-group 0x574644";

#[test]
fn dhcp_bootstrap_is_role_scoped_without_requiring_a_lease() {
    assert_eq!(rules(false).lines().unwrap().len(), 2);
    let lines = rules(true).lines().unwrap();
    assert!(lines
        .iter()
        .any(|line| line.contains("--sport 68 --dport 67")));
    assert!(lines.iter().all(|line| line.contains("-i p2p-wlan0-0")));
    assert!(!lines.iter().any(|line| line.contains(" -s ")));
}

#[test]
fn media_rules_are_exact_and_do_not_open_fixed_5005() {
    let mut r = rules(false);
    r.local = Some(ip("192.168.49.10"));
    r.peer = Some(ip("192.168.49.1"));
    r.rtcp = Some((45001, 19007));
    assert!(r
        .lines()
        .unwrap()
        .last()
        .unwrap()
        .contains("-d 192.168.49.10/32 -s 192.168.49.1/32 -p udp --sport 19007 --dport 45001"));
}

#[test]
fn rejects_injection_and_unvalidated_media() {
    for name in ["", "p2p+", "eth0\n-F INPUT", "../../etc", "-i eth0"] {
        assert!(validate_name(name).is_err());
    }
    let mut r = rules(false);
    r.rtcp = Some((45001, 5005));
    assert!(r.lines().is_err());
    r.rtcp = None;
    r.rtsp = 22;
    assert!(r.lines().is_err());
}

#[test]
fn rule_lines_are_rendered_word_for_word() {
    assert_eq!(
        media(true).lines().unwrap(),
        vec![
            format!("{SCOPE} -p udp --sport 67 --dport 68 -j ACCEPT"),
            format!("{SCOPE} -p udp --sport 68 --dport 67 -j ACCEPT"),
            format!("{SCOPE} -d 192.168.49.10/32 -s 192.168.49.1/32 -p tcp --dport 7236 -j ACCEPT"),
            format!(
                "{SCOPE} -d 192.168.49.10/32 -s 192.168.49.1/32 -p udp --sport 19007 --dport 45001 -j ACCEPT"
            ),
        ]
    );
    let mut r = rules(false);
    r.local = Some(ip("10.0.0.255"));
    assert_eq!(
        r.lines().unwrap()[1],
        format!("{SCOPE} -d 10.0.0.255/32 -p tcp --dport 7236 -j ACCEPT")
    );
}

#[test]
fn every_refusal_to_render_has_its_reason() {
    let mut r = media(false);
    r.interface.name = "eth0 -j".into();
    assert_eq!(r.lines(), Err(Error::InvalidName));
    let mut r = media(false);
    r.rtsp = 1023;
    assert_eq!(r.lines(), Err(Error::PrivilegedRtspPort));
    r.rtsp = 1024;
    assert!(r.lines().is_ok());
    for change in 0..4 {
        let mut r = media(false);
        match change {
            0 => r.local = None,
            1 => r.peer = None,
            2 => r.rtcp = Some((1023, 19007)),
            _ => r.rtcp = Some((45001, 0)),
        }
        assert_eq!(r.lines(), Err(Error::RtcpUnvalidated));
    }
    let mut r = media(false);
    r.rtcp = Some((1024, 1));
    assert!(r.lines().is_ok());
}

#[test]
fn names_are_one_to_fifteen_safe_characters() {
    for name in ["a", "p2p0", "p2p-wlan0-0", "A_z-09", "abcdefghijklmno"] {
        assert_eq!(validate_name(name), Ok(()));
    }
    for name in ["", "abcdefghijklmnop", "a b", "a.b", "a/b", "é", "a\n", "a\0"] {
        assert_eq!(validate_name(name), Err(Error::InvalidName));
    }
}

#[test]
fn attribute_paths_and_numbers() {
    assert_eq!(index_path("p2p0"), "/sys/class/net/p2p0/ifindex");
    assert_eq!(group_path("p2p0"), "/sys/class/net/p2p0/netdev_group");
    assert_eq!(phy_path("wlan0"), "/sys/class/net/wlan0/phy80211");
    assert_eq!(read_number(Ok("10\n".into())), Ok(10));
    assert_eq!(read_number(Ok(" +4294967295 ".into())), Ok(u32::MAX));
    assert_eq!(read_number(Ok("007".into())), Ok(7));
    assert_eq!(read_number(Ok("4294967296".into())), Err(Error::NumberTooLarge));
    assert_eq!(read_number(Ok("\n".into())), Err(Error::EmptyNumber));
    for text in ["-1", "+", "-", "1 2", "0x10", "١"] {
        assert_eq!(read_number(Ok(text.into())), Err(Error::InvalidDigit));
    }
    assert_eq!(read_number(gone()), gone().map(|_| 0));
}

#[test]
fn numbers_are_read_as_the_standard_library_reads_them() {
    for text in [
        "", "0", "+0", "00", "+", "-", "-0", "12", "4294967295", "4294967296", "99999999999999", "1a", "a1",
        "++1", "+-1", " 1", "1 ", "é", "000000000000000000001",
    ] {
        let expected: Result<u32, String> = text.parse::<u32>().map_err(|e| e.to_string());
        let actual = waycast_networkd::number::parse_number(text).map_err(|e| e.message());
        assert_eq!(actual, expected, "{text:?}");
    }
}

#[test]
fn an_interface_must_be_on_the_radio_and_keep_its_index() {
    let validate = |radio: &str, name: &str, index: &str, observed: &Observation| {
        GroupInterface::validate(
            radio,
            name.to_owned(),
            Ok("/phy0".into()),
            Ok(index.into()),
            observed,
        )
    };
    let interface = validate("wlan0", "p2p-wlan0-0", "10\n", &seen("10\n", "/phy0", "0\n")).unwrap();
    assert_eq!(
        interface,
        GroupInterface { name: "p2p-wlan0-0".into(), index: 10, phy: "/phy0".into() }
    );
    assert!(validate("wlan0", "p2p0", "3", &seen("3", "/phy0", "7")).is_ok());
    let good = seen("10", "/phy0", "0");
    assert_eq!(validate("wlan 0", "p2p0", "10", &good), Err(Error::InvalidName));
    assert_eq!(validate("wlan0", "p2p/0", "10", &good), Err(Error::InvalidName));
    for name in ["wlan0", "p2p1", "p2p", "xp2p-0"] {
        assert_eq!(validate("wlan0", name, "10", &good), Err(Error::NotP2pInterface));
    }
    assert_eq!(validate("wlan0", "p2p0", "ten", &good), Err(Error::InvalidDigit));
    assert_eq!(validate("wlan0", "p2p0", "11", &good), Err(Error::WrongRadio));
    assert_eq!(
        validate("wlan0", "p2p0", "10", &seen("10", "/phy1", "0")),
        Err(Error::WrongRadio)
    );
    assert!(GroupInterface::validate("wlan0", "p2p0".into(), gone(), Ok("1".into()), &good).is_err());
    assert!(GroupInterface::validate("wlan0", "p2p0".into(), Ok("/p".into()), gone(), &good).is_err());
}

#[test]
fn only_untagged_or_own_interfaces_are_claimed() {
    let interface = rules(false).interface;
    assert_eq!(interface.claim(seen("10", "/fake", "0\n")), Ok(()));
    assert_eq!(interface.claim(seen("10", "/fake", "5719620\n")), Ok(()));
    assert_eq!(interface.claim(seen("10", "/fake", "1")), Err(Error::ForeignDeviceGroup));
    assert_eq!(interface.claim(seen("11", "/fake", "0")), Err(Error::ReplacedBeforeSetup));
    assert_eq!(interface.claim(seen("10", "/other", "0")), Err(Error::ReplacedBeforeSetup));
    assert_eq!(interface.claim(seen("10", "/fake", "")), Err(Error::EmptyNumber));
}

#[test]
fn a_replacement_does_not_exist_as_the_tagged_interface() {
    let interface = rules(false).interface;
    assert_eq!(DEVICE_GROUP, 5719620);
    assert!(interface.still_exists(&seen("10\n", "/fake", "5719620\n")));
    assert!(!interface.still_exists(&seen("10", "/fake", "0")));
    assert!(!interface.still_exists(&seen("12", "/fake", "5719620")));
    assert!(!interface.still_exists(&seen("10", "/phy", "5719620")));
    assert!(!interface.still_exists(&Observation {
        index: gone(),
        phy: gone(),
        group: gone(),
    }));
}

#[test]
fn commands_are_fixed() {
    let args = |list: &[&str]| list.iter().map(|s| s.to_string()).collect::<Vec<String>>();
    let hook = hook_command();
    assert_eq!(hook.binary, "/usr/bin/iptables");
    assert_eq!(
        hook.args,
        args(&["--wait", "5", "-C", "ufw-before-input", "-j", "waycast-input"])
    );
    assert_eq!(hook.input, None);
    assert_eq!(table_command().args, args(&["--wait", "5", "-S"]));
    assert_eq!(chain_command().args, args(&["--wait", "5", "-S", "waycast-input"]));
    assert_eq!(flush_command().args, args(&["--wait", "5", "-F", "waycast-input"]));
    let restore = restore_command("text".into());
    assert_eq!(restore.binary, "/usr/bin/iptables-restore");
    assert_eq!(restore.args, args(&["--wait", "5", "--noflush"]));
    assert_eq!(restore.input.as_deref(), Some("text"));
    let tag = tag_command("p2p0");
    assert_eq!(tag.binary, "/usr/bin/ip");
    assert_eq!(
        tag.args,
        args(&["link", "set", "dev", "p2p0", "group", "5719620"])
    );
}

#[test]
fn outcomes_of_commands() {
    let command = table_command();
    let run = |outcome: Outcome| output(&command, outcome);
    assert_eq!(
        run(Outcome::Exited { success: true, stdout: b"ok\n\xff".to_vec(), stderr: vec![] }),
        Ok("ok\n\u{fffd}".to_string())
    );
    let failure = run(Outcome::Exited {
        success: false,
        stdout: b"ignored".to_vec(),
        stderr: b" bad\xc3\xa9 \n".to_vec(),
    })
    .unwrap_err();
    assert_eq!(
        failure,
        Error::CommandFailed { binary: "/usr/bin/iptables".into(), stderr: "bad\u{e9}".into() }
    );
    assert_eq!(failure.message(), "/usr/bin/iptables: bad\u{e9}");
    assert_eq!(
        run(Outcome::NotStarted).unwrap_err().message(),
        "Starting /usr/bin/iptables"
    );
    assert_eq!(run(Outcome::NoStdin), Err(Error::MissingStdin));
    assert_eq!(run(Outcome::TimedOut), Err(Error::CommandTimedOut));
    let broken = || Error::Outside { text: "Broken pipe".into() };
    assert_eq!(run(Outcome::Broken { error: broken() }), Err(broken()));
    assert_eq!(report("x", true, "out".into(), "err"), Ok("out".to_string()));
    assert_eq!(
        report("x", false, "out".into(), "\terr\u{a0}"),
        Err(Error::CommandFailed { binary: "x".into(), stderr: "err".into() })
    );
}

#[test]
fn rules_are_compared_up_to_spelling() {
    assert_eq!(
        normalize_rule("-A c -p tcp -m tcp --dport 7 -j ACCEPT"),
        "--dport 7 -A c -j ACCEPT -p tcp"
    );
    assert_eq!(
        normalize_rule("-A c  -j ACCEPT\t-p udp -m udp --dport 7"),
        normalize_rule("-A c -p udp --dport 7 -j ACCEPT")
    );
    assert_ne!(
        normalize_rule("-A c -p udp --dport 7 -j ACCEPT"),
        normalize_rule("-A c -p udp --dport 8 -j ACCEPT")
    );
    assert_eq!(normalize_rule("a b c"), "a b c");
    assert_eq!(normalize_rule(""), "");
}

#[test]
fn normal_forms_agree_with_the_standard_library() {
    let reference = |s: &str| {
        let clean = s.replace(" -m tcp", "").replace(" -m udp", "");
        let tokens: Vec<&str> = clean.split_whitespace().collect();
        let mut pairs: Vec<String> = tokens.chunks(2).map(|pair| pair.join(" ")).collect();
        pairs.sort();
        pairs.join(" ")
    };
    for s in [
        "",
        " ",
        "a",
        "-A x -m tcpmss -m udplite",
        "-A x -m -m tcp tcp",
        "-A x -m -m udp tcp -p udp",
        "z y x w v u t s r q p",
        "\u{85}b\u{2003}a\u{3000}é ü -m tcp",
        "-A waycast-input -i p2p0 -p tcp -m devgroup --src-group 0x574644 -m tcp --dport 7236 -j ACCEPT",
    ] {
        assert_eq!(normalize_rule(s), reference(s), "{s:?}");
    }
}

#[test]
fn own_rules_are_recognized_in_the_packet_filters_spelling() {
    let r = media(true);
    let own = format!("-N waycast-input\n{}\n", r.lines().unwrap().join("\n"));
    assert!(r.listed_in(&own));
    let kernel = "-N waycast-input\n\
        -A waycast-input -i p2p-wlan0-0 -p udp -m devgroup --src-group 0x574644 -m udp --sport 67 --dport 68 -j ACCEPT\n\
        -A waycast-input -i p2p-wlan0-0 -p udp -m devgroup --src-group 0x574644 -m udp --sport 68 --dport 67 -j ACCEPT\n\
        -A waycast-input -s 192.168.49.1/32 -d 192.168.49.10/32 -i p2p-wlan0-0 -p tcp -m devgroup --src-group 0x574644 -m tcp --dport 7236 -j ACCEPT\n\
        -A waycast-input -s 192.168.49.1/32 -d 192.168.49.10/32 -i p2p-wlan0-0 -p udp -m devgroup --src-group 0x574644 -m udp --sport 19007 --dport 45001 -j ACCEPT\n";
    assert!(r.listed_in(kernel));
    assert!(!r.listed_in(&kernel.replace("19007", "19008")));
    assert!(!r.listed_in(&kernel.replace("192.168.49.1/32", "192.168.49.3/32")));
    assert!(!r.listed_in(&format!("{kernel}-A waycast-input -j ACCEPT\n")));
    assert!(!r.listed_in("-N waycast-input\n"));
    assert!(!r.listed_in(""));
    let mut swapped: Vec<&str> = kernel.lines().collect();
    swapped.swap(1, 2);
    assert!(!r.listed_in(&swapped.join("\n")));
    let mut refused = media(true);
    refused.rtsp = 80;
    assert!(!refused.listed_in(kernel));
    assert!(shows("x\n-A a b\r\ny", &vec!["-A b a".to_string()]) == false);
    assert!(shows("x\n-A a -p tcp\r\ny", &vec!["-p tcp -A a".to_string()]));
}

#[test]
fn matches_are_spelled_out_anywhere_and_any_number_of_times() {
    let r = rules(false);
    let listing = "-N waycast-input\n\
        -A waycast-input -m udp -j ACCEPT --dport 68 -m tcp -m udp -p udp -m udp -i p2p-wlan0-0 --sport 67 -m devgroup --src-group 0x574644 -m udp\n\
        -A waycast-input --dport 7236 -m devgroup -j ACCEPT -m tcp -m tcp --src-group 0x574644 -i p2p-wlan0-0 -p tcp\n";
    assert!(r.listed_in(listing));
    assert!(!r.listed_in(&listing.replace("-m tcp -m tcp", "-m tcp -m tcp2")));
    assert!(!r.listed_in(&listing.replace("-m tcp -m udp -p udp", "-m tcp -m udp -p tcp")));
}

#[test]
fn rendered_rules_are_told_apart_by_their_normal_forms() {
    let mut odd = rules(true);
    odd.interface.name = "-m".into();
    let mut tcp = rules(false);
    tcp.interface.name = "tcp".into();
    let mut half = media(false);
    half.rtcp = None;
    half.peer = None;
    let mut lines: Vec<String> = Vec::new();
    for r in [rules(true), media(true), media(false), half, odd, tcp] {
        lines.extend(r.lines().unwrap());
    }
    for x in &lines {
        let normal = normalize_rule(x);
        assert_eq!(normalize_rule(&normal), normal);
        let chunks = |s: &str| {
            let tokens: Vec<&str> = s.split(' ').collect();
            tokens.chunks(2).map(|pair| pair.join(" ")).collect::<Vec<String>>()
        };
        let mut sorted = chunks(x);
        sorted.sort();
        assert_eq!(chunks(&normal), sorted);
        for y in &lines {
            assert_eq!(normal == normalize_rule(y), x == y);
        }
    }
}

#[test]
fn a_transaction_holds_its_frame_and_the_rules() {
    let lines = rules(true).lines().unwrap();
    let text = transaction(&lines);
    assert_eq!(
        text,
        format!("*filter\n-F {CHAIN}\n{}\nCOMMIT\n", lines.join("\n"))
    );
    let split: Vec<&str> = text.lines().collect();
    assert_eq!(split.len(), 6);
    assert_eq!(split[1], "-F waycast-input");
    assert_eq!(split[5], "COMMIT");
}

#[test]
fn the_chain_is_found_by_its_own_line() {
    assert!(shows_chain("-P INPUT DROP\n-N waycast-input\n-A x\n"));
    assert!(shows_chain("-N waycast-input\r\n"));
    assert!(!shows_chain("-N waycast-input2\n -N waycast-input\n-A waycast-input -j ACCEPT\n"));
    assert!(!shows_chain(""));
}
