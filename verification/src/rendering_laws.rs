//! What the rendered rules say, word for word, and that nothing of a session's
//! rules is lost in them.
use crate::address::{law_notation_is_unique, lemma_decimal_value, Ipv4Addr};
use crate::command::{
    chain_flush, chain_list, hook_check, interface_tag, table_list, transaction_restore, CommandView,
};
use crate::error::Error;
use crate::firewall::{is_valid_name, scope_words, tcp_words, udp_words, Rules};
use crate::rule_laws::{lemma_group_word, lemma_rules_are_readable};
use crate::spelling::law_splitting_undoes_joining;
use crate::text::{decimal, joined};
use vstd::prelude::*;

verus! {

/// Where the rule for the control port stands.
pub open spec fn rtsp_place(rules: Rules) -> int {
    if rules.group_owner {
        2
    } else {
        1
    }
}

/// The control port is open on the scope, narrowed by `-d` to the local address if
/// and only if that is known, and by `-s` to the peer's if and only if that is known,
/// whether or not RTCP was negotiated.
pub proof fn law_words_of_the_rtsp_rule(rules: Rules)
    ensures
        ({
            let scope = seq![
                "-A"@,
                "waycast-input"@,
                "-i"@,
                rules.interface.name@,
                "-m"@,
                "devgroup"@,
                "--src-group"@,
                "0x574644"@,
            ];
            let flow = seq!["-p"@, "tcp"@, "--dport"@, decimal(rules.rtsp as nat), "-j"@, "ACCEPT"@];
            let rule = rules.rule_words()[rtsp_place(rules)];
            match (rules.local, rules.peer) {
                (Some(local), Some(peer)) => rule == scope + seq![
                    "-d"@,
                    local.text() + "/32"@,
                    "-s"@,
                    peer.text() + "/32"@,
                ] + flow,
                (Some(local), None) => rule == scope + seq!["-d"@, local.text() + "/32"@] + flow,
                (None, Some(peer)) => rule == scope + seq!["-s"@, peer.text() + "/32"@] + flow,
                (None, None) => rule == scope + flow,
            }
        }),
{
    let scope = seq![
        "-A"@,
        "waycast-input"@,
        "-i"@,
        rules.interface.name@,
        "-m"@,
        "devgroup"@,
        "--src-group"@,
        "0x574644"@,
    ];
    let flow = seq!["-p"@, "tcp"@, "--dport"@, decimal(rules.rtsp as nat), "-j"@, "ACCEPT"@];
    let rule = rules.rule_words()[rtsp_place(rules)];
    lemma_group_word();
    assert(scope_words(rules.interface.name@) =~= scope);
    assert(rule == rules.endpoint_words() + tcp_words(decimal(rules.rtsp as nat)));
    match (rules.local, rules.peer) {
        (Some(local), Some(peer)) => {
            assert(rule =~= scope + seq![
                "-d"@,
                local.text() + "/32"@,
                "-s"@,
                peer.text() + "/32"@,
            ] + flow);
        },
        (Some(local), None) => {
            assert(rule =~= scope + seq!["-d"@, local.text() + "/32"@] + flow);
        },
        (None, Some(peer)) => {
            assert(rule =~= scope + seq!["-s"@, peer.text() + "/32"@] + flow);
        },
        (None, None) => {
            assert(rule =~= scope + flow);
        },
    }
}

/// The rules for DHCP, word for word: replies always, requests where the source
/// owns the group, neither of them narrowed to a host.
pub proof fn law_words_of_the_dhcp_rules(rules: Rules)
    ensures
        ({
            let scope = seq![
                "-A"@,
                "waycast-input"@,
                "-i"@,
                rules.interface.name@,
                "-m"@,
                "devgroup"@,
                "--src-group"@,
                "0x574644"@,
            ];
            &&& rules.rule_words()[0] == scope + seq![
                "-p"@,
                "udp"@,
                "--sport"@,
                "67"@,
                "--dport"@,
                "68"@,
                "-j"@,
                "ACCEPT"@,
            ]
            &&& rules.group_owner ==> rules.rule_words()[1] == scope + seq![
                "-p"@,
                "udp"@,
                "--sport"@,
                "68"@,
                "--dport"@,
                "67"@,
                "-j"@,
                "ACCEPT"@,
            ]
        }),
{
    let scope = seq![
        "-A"@,
        "waycast-input"@,
        "-i"@,
        rules.interface.name@,
        "-m"@,
        "devgroup"@,
        "--src-group"@,
        "0x574644"@,
    ];
    lemma_group_word();
    assert(scope_words(rules.interface.name@) =~= scope);
}

/// The rule for RTCP, word for word: from the display's port to the reserved one,
/// between the two hosts.
pub proof fn law_words_of_the_rtcp_rule(rules: Rules, ports: (u16, u16), local: Ipv4Addr, peer: Ipv4Addr)
    requires
        rules.rtcp == Some(ports),
        rules.local == Some(local),
        rules.peer == Some(peer),
    ensures
        rules.rule_words().len() == rtsp_place(rules) + 2,
        rules.rule_words().last() == seq![
            "-A"@,
            "waycast-input"@,
            "-i"@,
            rules.interface.name@,
            "-m"@,
            "devgroup"@,
            "--src-group"@,
            "0x574644"@,
            "-d"@,
            local.text() + "/32"@,
            "-s"@,
            peer.text() + "/32"@,
            "-p"@,
            "udp"@,
            "--sport"@,
            decimal(ports.1 as nat),
            "--dport"@,
            decimal(ports.0 as nat),
            "-j"@,
            "ACCEPT"@,
        ],
{
    lemma_group_word();
    assert(rules.rule_words().last() == rules.endpoint_words() + udp_words(
        decimal(ports.1 as nat),
        decimal(ports.0 as nat),
    ));
}

/// How many rules there are: nothing but DHCP, the control port and, where it was
/// negotiated, RTCP.
pub proof fn law_no_other_rules(rules: Rules)
    ensures
        rules.rule_words().len() == rtsp_place(rules) + 1 + (if rules.rtcp is Some {
            1int
        } else {
            0
        }),
        rules.rule_lines().len() == rules.rule_words().len(),
        forall|i: int|
            0 <= i < rules.rule_words().len() ==> #[trigger] rules.rule_lines()[i] == joined(
                rules.rule_words()[i],
                " "@,
            ),
{
}

/// When rules are refused, and why: a bad name, a privileged port, or RTCP without
/// both hosts, an unprivileged local port and a remote one. Nothing else is refused.
pub proof fn law_refusals(rules: Rules)
    ensures
        ({
            let unfit = rules.rtcp matches Some(ports) && (rules.local is None || rules.peer is None
                || ports.0 < 1024 || ports.1 == 0);
            &&& !is_valid_name(rules.interface.name@) <==> rules.refusal() == Some(
                Error::InvalidName,
            )
            &&& is_valid_name(rules.interface.name@) && rules.rtsp < 1024 <==> rules.refusal() == Some(
                Error::PrivilegedRtspPort,
            )
            &&& is_valid_name(rules.interface.name@) && rules.rtsp >= 1024 && unfit <==> rules.refusal()
                == Some(Error::RtcpUnvalidated)
            &&& is_valid_name(rules.interface.name@) && rules.rtsp >= 1024 && !unfit
                <==> rules.refusal() is None
        }),
{
}

proof fn lemma_decimal_is_injective(x: nat, y: nat)
    requires
        decimal(x) == decimal(y),
    ensures
        x == y,
{
    lemma_decimal_value(x);
    lemma_decimal_value(y);
}

proof fn lemma_host_is_injective(x: Ipv4Addr, y: Ipv4Addr)
    requires
        x.text() + "/32"@ == y.text() + "/32"@,
    ensures
        x == y,
{
    let a = x.text() + "/32"@;
    let b = y.text() + "/32"@;
    assert(a.len() == b.len());
    assert(x.text().len() == y.text().len());
    assert(a.take(x.text().len() as int) =~= x.text());
    assert(b.take(x.text().len() as int) =~= y.text());
    law_notation_is_unique(x, y);
}

proof fn lemma_words_by_lines(x: Rules, y: Rules, i: int)
    requires
        is_valid_name(x.interface.name@),
        is_valid_name(y.interface.name@),
        0 <= i < x.rule_lines().len(),
        0 <= i < y.rule_lines().len(),
        x.rule_lines()[i] == y.rule_lines()[i],
    ensures
        x.rule_words()[i] == y.rule_words()[i],
{
    lemma_rules_are_readable(x, i);
    lemma_rules_are_readable(y, i);
    law_splitting_undoes_joining(x.rule_words()[i]);
    law_splitting_undoes_joining(y.rule_words()[i]);
}

proof fn lemma_telling_words()
    ensures
        "-p"@ != "-d"@,
        "-p"@ != "-s"@,
        "-d"@ != "-s"@,
        "udp"@ != "tcp"@,
{
    reveal_strlit("-p");
    reveal_strlit("-d");
    reveal_strlit("-s");
    reveal_strlit("udp");
    reveal_strlit("tcp");
    assert("-p"@[1] == 'p' && "-d"@[1] == 'd' && "-s"@[1] == 's');
    assert("udp"@[0] == 'u' && "tcp"@[0] == 't');
}

/// The rule for the control port tells the interface, both hosts and the port.
proof fn lemma_rtsp_rule_tells(x: Rules, y: Rules)
    requires
        x.rule_words()[rtsp_place(x)] == y.rule_words()[rtsp_place(y)],
    ensures
        x.interface.name@ == y.interface.name@,
        x.local == y.local,
        x.peer == y.peer,
        x.rtsp == y.rtsp,
{
    let a = x.rule_words()[rtsp_place(x)];
    let b = y.rule_words()[rtsp_place(y)];
    law_words_of_the_rtsp_rule(x);
    law_words_of_the_rtsp_rule(y);
    lemma_telling_words();
    assert(a[3] == x.interface.name@ && b[3] == y.interface.name@);
    let from_x = a.len() - 3;
    assert(a[from_x] == decimal(x.rtsp as nat));
    assert(b[from_x] == decimal(y.rtsp as nat));
    lemma_decimal_is_injective(x.rtsp as nat, y.rtsp as nat);
    assert(x.local is Some ==> a[8] == "-d"@ && a[9] == x.local->0.text() + "/32"@);
    assert(y.local is Some ==> b[8] == "-d"@ && b[9] == y.local->0.text() + "/32"@);
    assert(x.local is None && x.peer is Some ==> a[8] == "-s"@ && a[9] == x.peer->0.text() + "/32"@);
    assert(y.local is None && y.peer is Some ==> b[8] == "-s"@ && b[9] == y.peer->0.text() + "/32"@);
    assert(x.local is None && x.peer is None ==> a[8] == "-p"@);
    assert(y.local is None && y.peer is None ==> b[8] == "-p"@);
    assert(x.local is Some && x.peer is Some ==> a[10] == "-s"@ && a[11] == x.peer->0.text() + "/32"@);
    assert(y.local is Some && y.peer is Some ==> b[10] == "-s"@ && b[11] == y.peer->0.text() + "/32"@);
    assert(x.local is Some && x.peer is None ==> a[10] == "-p"@);
    assert(y.local is Some && y.peer is None ==> b[10] == "-p"@);
    if x.local is Some && y.local is Some {
        lemma_host_is_injective(x.local->0, y.local->0);
    }
    if x.peer is Some && y.peer is Some {
        lemma_host_is_injective(x.peer->0, y.peer->0);
    }
}

/// Nothing is lost in rendering: rules that are rendered alike are for the same
/// interface name, role, port, hosts and RTCP ports.
pub proof fn law_rendering_loses_nothing(x: Rules, y: Rules)
    requires
        x.refusal() is None,
        y.refusal() is None,
        x.rule_lines() == y.rule_lines(),
    ensures
        x.interface.name@ == y.interface.name@,
        x.group_owner == y.group_owner,
        x.rtsp == y.rtsp,
        x.local == y.local,
        x.peer == y.peer,
        x.rtcp == y.rtcp,
{
    let a = x.rule_words();
    let b = y.rule_words();
    lemma_telling_words();
    law_no_other_rules(x);
    law_no_other_rules(y);
    law_words_of_the_dhcp_rules(x);
    law_words_of_the_dhcp_rules(y);
    law_words_of_the_rtsp_rule(x);
    law_words_of_the_rtsp_rule(y);
    lemma_words_by_lines(x, y, 1);
    if x.group_owner != y.group_owner {
        let (owner, other) = if x.group_owner {
            (x, y)
        } else {
            (y, x)
        };
        assert(owner.rule_words()[1][8] == "-p"@ && owner.rule_words()[1][9] == "udp"@);
        if other.local is None && other.peer is None {
            assert(other.rule_words()[1][9] == "tcp"@);
        } else if other.local is Some {
            assert(other.rule_words()[1][8] == "-d"@);
        } else {
            assert(other.rule_words()[1][8] == "-s"@);
        }
        assert(false);
    }
    lemma_words_by_lines(x, y, rtsp_place(x));
    lemma_rtsp_rule_tells(x, y);
    if x.rtcp is Some && y.rtcp is Some {
        let last = a.len() - 1;
        let of_x = x.rtcp->0;
        let of_y = y.rtcp->0;
        lemma_words_by_lines(x, y, last);
        law_words_of_the_rtcp_rule(x, of_x, x.local->0, x.peer->0);
        law_words_of_the_rtcp_rule(y, of_y, y.local->0, y.peer->0);
        assert(a[last] == a.last() && b[last] == b.last());
        assert(a[last][15] == decimal(of_x.1 as nat) && a[last][17] == decimal(of_x.0 as nat));
        assert(b[last][15] == decimal(of_y.1 as nat) && b[last][17] == decimal(of_y.0 as nat));
        lemma_decimal_is_injective(of_x.0 as nat, of_y.0 as nat);
        lemma_decimal_is_injective(of_x.1 as nat, of_y.1 as nat);
    }
}

/// Every command, word for word. The binaries are fixed and absolute.
pub proof fn law_words_of_the_commands(name: Seq<char>, text: Seq<char>)
    ensures
        ({
            let filter = "/usr/bin/iptables"@;
            &&& hook_check().args == seq![
                "--wait"@,
                "5"@,
                "-C"@,
                "ufw-before-input"@,
                "-j"@,
                "waycast-input"@,
            ]
            &&& table_list().args == seq!["--wait"@, "5"@, "-S"@]
            &&& chain_list().args == seq!["--wait"@, "5"@, "-S"@, "waycast-input"@]
            &&& chain_flush().args == seq!["--wait"@, "5"@, "-F"@, "waycast-input"@]
            &&& hook_check().binary == filter && table_list().binary == filter && chain_list().binary
                == filter && chain_flush().binary == filter
            &&& hook_check().input is None && table_list().input is None && chain_list().input is None
                && chain_flush().input is None
            &&& transaction_restore(text) == (CommandView {
                binary: "/usr/bin/iptables-restore"@,
                args: seq!["--wait"@, "5"@, "--noflush"@],
                input: Some(text),
            })
            &&& interface_tag(name) == (CommandView {
                binary: "/usr/bin/ip"@,
                args: seq!["link"@, "set"@, "dev"@, name, "group"@, "5719620"@],
                input: None,
            })
        }),
{
    reveal_strlit("5719620");
    reveal_with_fuel(decimal, 8);
    assert(decimal(0x574644) =~= "5719620"@);
    assert(hook_check().args =~= seq![
        "--wait"@,
        "5"@,
        "-C"@,
        "ufw-before-input"@,
        "-j"@,
        "waycast-input"@,
    ]);
    assert(table_list().args =~= seq!["--wait"@, "5"@, "-S"@]);
    assert(chain_list().args =~= seq!["--wait"@, "5"@, "-S"@, "waycast-input"@]);
    assert(chain_flush().args =~= seq!["--wait"@, "5"@, "-F"@, "waycast-input"@]);
}

} // verus!
