//! What holds of the rules of every session.
use crate::address::{lemma_decimal_value, Ipv4Addr};
use crate::command::{CHAIN, DEVICE_GROUP};
use crate::firewall::{
    host_words, is_name_char, is_valid_name, scope_words, spaced, tcp_words, udp_words, Rules,
};
use crate::number::is_digit;
use crate::spelling::{all_plain, is_plain, matchless};
use crate::text::{decimal, hexadecimal, is_space, joined, lemma_joined_concat, lemma_joined_push};
use vstd::prelude::*;

verus! {

proof fn lemma_digits_are_plain(n: nat)
    ensures
        is_plain(decimal(n)),
        decimal(n) != "-m"@,
{
    reveal_strlit("-m");
    lemma_decimal_value(n);
    assert forall|i: int| 0 <= i < decimal(n).len() implies !is_space(#[trigger] decimal(n)[i]) by {
        assert(is_digit(decimal(n)[i]));
    }
    assert(is_digit(decimal(n)[0]));
    assert("-m"@[0] == '-');
}

pub proof fn lemma_group_word()
    ensures
        "0x"@ + hexadecimal(DEVICE_GROUP as nat) == "0x574644"@,
{
    reveal_strlit("0x");
    reveal_strlit("0x574644");
    reveal_with_fuel(hexadecimal, 7);
    assert("0x"@ + hexadecimal(DEVICE_GROUP as nat) =~= "0x574644"@);
}

proof fn lemma_address_is_plain(ip: Ipv4Addr)
    ensures
        is_plain(ip.text() + "/32"@),
        ip.text() + "/32"@ != "-m"@,
{
    reveal_strlit("/32");
    reveal_strlit(".");
    reveal_strlit("-m");
    lemma_digits_are_plain(ip.a as nat);
    lemma_digits_are_plain(ip.b as nat);
    lemma_digits_are_plain(ip.c as nat);
    lemma_digits_are_plain(ip.d as nat);
    lemma_plain_concat(decimal(ip.a as nat), "."@);
    lemma_plain_concat(decimal(ip.a as nat) + "."@, decimal(ip.b as nat));
    lemma_plain_concat(decimal(ip.a as nat) + "."@ + decimal(ip.b as nat), "."@);
    lemma_plain_concat(
        decimal(ip.a as nat) + "."@ + decimal(ip.b as nat) + "."@,
        decimal(ip.c as nat),
    );
    lemma_plain_concat(
        decimal(ip.a as nat) + "."@ + decimal(ip.b as nat) + "."@ + decimal(ip.c as nat),
        "."@,
    );
    lemma_plain_concat(
        decimal(ip.a as nat) + "."@ + decimal(ip.b as nat) + "."@ + decimal(ip.c as nat) + "."@,
        decimal(ip.d as nat),
    );
    lemma_plain_concat(ip.text(), "/32"@);
    assert("-m"@.len() == 2);
}

proof fn lemma_plain_concat(x: Seq<char>, y: Seq<char>)
    requires
        is_plain(x),
        is_plain(y),
    ensures
        is_plain(x + y),
{
    assert forall|i: int| 0 <= i < (x + y).len() implies !is_space(#[trigger] (x + y)[i]) by {
        if i < x.len() {
            assert((x + y)[i] == x[i]);
        } else {
            assert((x + y)[i] == y[i - x.len()]);
        }
    }
}

proof fn lemma_name_is_plain(name: Seq<char>)
    requires
        is_valid_name(name),
    ensures
        is_plain(name),
{
    assert forall|i: int| 0 <= i < name.len() implies !is_space(#[trigger] name[i]) by {
        assert(is_name_char(name[i]));
    }
}

/// Words that neither spell out a match nor open one.
spec fn inert(list: Seq<Seq<char>>) -> bool {
    &&& all_plain(list)
    &&& forall|i: int| 0 <= i < list.len() ==> #[trigger] list[i] != "-m"@
}

/// Words that spell out no match.
pub open spec fn readable(list: Seq<Seq<char>>) -> bool {
    &&& all_plain(list)
    &&& matchless(list, "tcp"@)
    &&& matchless(list, "udp"@)
    &&& list.len() > 0
    &&& list.last() != "-m"@
}

proof fn lemma_readable_and_inert(x: Seq<Seq<char>>, y: Seq<Seq<char>>)
    requires
        readable(x),
        inert(y),
    ensures
        readable(x + y),
{
    let z = x + y;
    assert forall|i: int| 0 <= i < z.len() implies is_plain(#[trigger] z[i]) by {
        if i < x.len() {
            assert(z[i] == x[i]);
        } else {
            assert(z[i] == y[i - x.len()]);
        }
    }
    assert forall|k: int| 0 <= k < z.len() - 1 && #[trigger] z[k] == "-m"@ implies !"tcp"@.is_prefix_of(
        z[k + 1],
    ) && !"udp"@.is_prefix_of(z[k + 1]) by {
        if k < x.len() - 1 {
            assert(z[k] == x[k]);
            assert(z[k + 1] == x[k + 1]);
        } else if k == x.len() - 1 {
            assert(z[k] == x.last());
        } else {
            assert(z[k] == y[k - x.len()]);
        }
    }
    if y.len() > 0 {
        assert(z.last() == y[y.len() - 1]);
    } else {
        assert(z =~= x);
    }
}

proof fn lemma_scope_is_readable(name: Seq<char>)
    requires
        is_valid_name(name),
    ensures
        readable(scope_words(name)),
{
    let scope = scope_words(name);
    lemma_name_is_plain(name);
    lemma_group_word();
    reveal_strlit("-A");
    reveal_strlit("waycast-input");
    reveal_strlit("-i");
    reveal_strlit("-m");
    reveal_strlit("devgroup");
    reveal_strlit("--src-group");
    reveal_strlit("0x574644");
    reveal_strlit("tcp");
    reveal_strlit("udp");
    assert(CHAIN@ == "waycast-input"@);
    assert(is_plain("-A"@));
    assert(is_plain("waycast-input"@));
    assert(is_plain("-i"@));
    assert(is_plain("-m"@));
    assert(is_plain("devgroup"@));
    assert(is_plain("--src-group"@));
    assert(is_plain("0x574644"@));
    assert forall|k: int| 0 <= k < scope.len() - 1 && #[trigger] scope[k] == "-m"@ implies !"tcp"@.is_prefix_of(
        scope[k + 1],
    ) && !"udp"@.is_prefix_of(scope[k + 1]) by {
        assert("-m"@[1] == 'm');
        if k == 3 {
            assert(scope[k + 1] == "-m"@);
        } else if k == 4 {
            assert(scope[k + 1] == "devgroup"@);
            assert("devgroup"@.subrange(0, 3)[0] == 'd');
        } else if k == 0 {
            assert("-A"@[1] == 'A');
        } else if k == 1 {
            assert("waycast-input"@[1] == 'a');
        } else if k == 2 {
            assert("-i"@[1] == 'i');
        } else if k == 5 {
            assert("devgroup"@[1] == 'e');
        } else {
            assert("--src-group"@[1] == '-');
        }
    }
    assert("0x574644"@.len() == 8);
}

proof fn lemma_host_is_inert(option: Seq<char>, host: Option<Ipv4Addr>)
    requires
        option == "-d"@ || option == "-s"@,
    ensures
        inert(host_words(option, host)),
{
    reveal_strlit("-d");
    reveal_strlit("-s");
    reveal_strlit("-m");
    assert(is_plain("-d"@));
    assert(is_plain("-s"@));
    assert("-m"@[1] == 'm' && "-d"@[1] == 'd' && "-s"@[1] == 's');
    if let Some(ip) = host {
        lemma_address_is_plain(ip);
    }
}

/// The fixed words of packet flows.
spec fn flow_literals() -> Seq<Seq<char>> {
    seq!["-p"@, "udp"@, "tcp"@, "--sport"@, "--dport"@, "-j"@, "ACCEPT"@, "67"@, "68"@]
}

proof fn lemma_literals_are_inert()
    ensures
        inert(flow_literals()),
{
    reveal_strlit("-m");
    reveal_strlit("-p");
    reveal_strlit("udp");
    reveal_strlit("tcp");
    reveal_strlit("--sport");
    reveal_strlit("--dport");
    reveal_strlit("-j");
    reveal_strlit("ACCEPT");
    reveal_strlit("67");
    reveal_strlit("68");
    assert("-m"@.len() == 2 && "-m"@[1] == 'm');
    assert(is_plain("-p"@) && "-p"@[1] == 'p');
    assert(is_plain("udp"@) && "udp"@.len() == 3);
    assert(is_plain("tcp"@) && "tcp"@.len() == 3);
    assert(is_plain("--sport"@) && "--sport"@.len() == 7);
    assert(is_plain("--dport"@) && "--dport"@.len() == 7);
    assert(is_plain("-j"@) && "-j"@[1] == 'j');
    assert(is_plain("ACCEPT"@) && "ACCEPT"@.len() == 6);
    assert(is_plain("67"@) && "67"@[1] == '7');
    assert(is_plain("68"@) && "68"@[1] == '8');
}

/// A port as a rule holds it.
spec fn is_port_word(word: Seq<char>) -> bool {
    is_plain(word) && word != "-m"@
}

proof fn lemma_flows_are_inert(from: Seq<char>, to: Seq<char>)
    requires
        is_port_word(from),
        is_port_word(to),
    ensures
        inert(udp_words(from, to)),
        inert(tcp_words(to)),
{
    lemma_literals_are_inert();
    let literals = flow_literals();
    assert(literals[0] == "-p"@ && literals[1] == "udp"@ && literals[2] == "tcp"@ && literals[3]
        == "--sport"@ && literals[4] == "--dport"@ && literals[5] == "-j"@ && literals[6]
        == "ACCEPT"@);
    assert(inert(udp_words(from, to)));
    assert(inert(tcp_words(to)));
}

proof fn lemma_dhcp_ports()
    ensures
        is_port_word("67"@),
        is_port_word("68"@),
{
    lemma_literals_are_inert();
    let literals = flow_literals();
    assert(literals[7] == "67"@ && literals[8] == "68"@);
}

proof fn lemma_endpoints_are_readable(rules: Rules)
    requires
        is_valid_name(rules.interface.name@),
    ensures
        readable(scope_words(rules.interface.name@)),
        readable(rules.endpoint_words()),
{
    let scope = scope_words(rules.interface.name@);
    lemma_scope_is_readable(rules.interface.name@);
    lemma_host_is_inert("-d"@, rules.local);
    lemma_host_is_inert("-s"@, rules.peer);
    lemma_readable_and_inert(scope, host_words("-d"@, rules.local));
    lemma_readable_and_inert(
        scope + host_words("-d"@, rules.local),
        host_words("-s"@, rules.peer),
    );
}

pub proof fn lemma_rules_are_readable(rules: Rules, i: int)
    requires
        is_valid_name(rules.interface.name@),
        0 <= i < rules.rule_words().len(),
    ensures
        readable(rules.rule_words()[i]),
{
    let scope = scope_words(rules.interface.name@);
    let endpoints = rules.endpoint_words();
    lemma_endpoints_are_readable(rules);
    lemma_dhcp_ports();
    lemma_flows_are_inert("67"@, "68"@);
    lemma_flows_are_inert("68"@, "67"@);
    lemma_readable_and_inert(scope, udp_words("67"@, "68"@));
    lemma_readable_and_inert(scope, udp_words("68"@, "67"@));
    lemma_digits_are_plain(rules.rtsp as nat);
    lemma_flows_are_inert("67"@, decimal(rules.rtsp as nat));
    lemma_readable_and_inert(endpoints, tcp_words(decimal(rules.rtsp as nat)));
    if let Some((local, remote)) = rules.rtcp {
        lemma_digits_are_plain(local as nat);
        lemma_digits_are_plain(remote as nat);
        lemma_flows_are_inert(decimal(remote as nat), decimal(local as nat));
        lemma_readable_and_inert(endpoints, udp_words(decimal(remote as nat), decimal(local as nat)));
    }
}

proof fn lemma_joined_two(x: Seq<char>, y: Seq<char>, separator: Seq<char>)
    ensures
        joined(seq![x, y], separator) == x + separator + y,
{
    reveal_with_fuel(joined, 2);
    assert(seq![x, y].skip(1) =~= seq![y]);
}

proof fn lemma_scope_front()
    ensures
        joined(seq!["-A"@, CHAIN@, "-i"@], " "@) == "-A waycast-input -i"@,
{
    reveal_strlit("-A");
    reveal_strlit("waycast-input");
    reveal_strlit("-i");
    reveal_strlit(" ");
    reveal_strlit("-A waycast-input -i");
    lemma_joined_two("-A"@, CHAIN@, " "@);
    lemma_joined_push(seq!["-A"@, CHAIN@], "-i"@, " "@);
    assert(seq!["-A"@, CHAIN@].push("-i"@) =~= seq!["-A"@, CHAIN@, "-i"@]);
    assert("-A"@ + " "@ + "waycast-input"@ + " "@ + "-i"@ =~= "-A waycast-input -i"@);
}

proof fn lemma_scope_back()
    ensures
        joined(seq!["-m"@, "devgroup"@, "--src-group"@, "0x574644"@], " "@)
            == "-m devgroup --src-group 0x574644"@,
{
    reveal_strlit("-m");
    reveal_strlit("devgroup");
    reveal_strlit("--src-group");
    reveal_strlit("0x574644");
    reveal_strlit(" ");
    reveal_strlit("-m devgroup --src-group 0x574644");
    let two = seq!["-m"@, "devgroup"@];
    let three = seq!["-m"@, "devgroup"@, "--src-group"@];
    lemma_joined_two("-m"@, "devgroup"@, " "@);
    lemma_joined_push(two, "--src-group"@, " "@);
    assert(two.push("--src-group"@) =~= three);
    lemma_joined_push(three, "0x574644"@, " "@);
    assert(three.push("0x574644"@) =~= seq!["-m"@, "devgroup"@, "--src-group"@, "0x574644"@]);
    assert("-m"@ + " "@ + "devgroup"@ + " "@ + "--src-group"@ + " "@ + "0x574644"@
        =~= "-m devgroup --src-group 0x574644"@);
}

/// The text of the scope that every rule opens with.
pub open spec fn scope_text(name: Seq<char>) -> Seq<char> {
    "-A waycast-input -i"@ + " "@ + name + " "@ + "-m devgroup --src-group 0x574644"@
}

proof fn lemma_scope_text(name: Seq<char>)
    ensures
        spaced(scope_words(name)) == scope_text(name),
{
    let front = seq!["-A"@, CHAIN@, "-i"@];
    let back = seq!["-m"@, "devgroup"@, "--src-group"@, "0x574644"@];
    lemma_group_word();
    lemma_scope_front();
    lemma_scope_back();
    lemma_joined_push(front, name, " "@);
    lemma_joined_concat(front.push(name), back, " "@);
    assert(front.push(name) + back =~= scope_words(name));
}

/// Every rule is confined to the dedicated chain, to packets that arrive on the
/// exact interface name, and to interfaces in the reserved device group; what
/// follows is the rest of the rule.
pub proof fn law_every_rule_is_scoped(rules: Rules, i: int)
    requires
        0 <= i < rules.rule_lines().len(),
    ensures
        rules.rule_words()[i].take(8) == scope_words(rules.interface.name@),
        rules.rule_lines()[i] == scope_text(rules.interface.name@) + " "@ + spaced(
            rules.rule_words()[i].skip(8),
        ),
{
    let scope = scope_words(rules.interface.name@);
    let list = rules.rule_words()[i];
    let rest = list.skip(8);
    assert(list.take(8) =~= scope);
    assert(scope + rest =~= list);
    lemma_joined_concat(scope, rest, " "@);
    lemma_scope_text(rules.interface.name@);
}

/// How many allowances a session has: DHCP replies and RTSP always, DHCP requests
/// only where the source owns the group, and RTCP only where it was negotiated.
pub proof fn law_number_of_rules(rules: Rules)
    ensures
        rules.rule_lines().len() == 2 + (if rules.group_owner {
            1int
        } else {
            0
        }) + (if rules.rtcp is Some {
            1int
        } else {
            0
        }),
{
}

/// DHCP is permitted before any address is known, and the permission does not
/// change when addresses become known.
pub proof fn law_dhcp_needs_no_lease(rules: Rules)
    ensures
        rules.rule_words()[0] == scope_words(rules.interface.name@) + udp_words("67"@, "68"@),
        rules.group_owner ==> rules.rule_words()[1] == scope_words(rules.interface.name@) + udp_words(
            "68"@,
            "67"@,
        ),
{
}

/// DHCP requests are permitted if and only if the source owns the group.
pub proof fn law_only_owners_serve_dhcp(rules: Rules)
    requires
        rules.refusal() is None,
    ensures
        rules.rule_words().contains(
            scope_words(rules.interface.name@) + udp_words("68"@, "67"@),
        ) <==> rules.group_owner,
{
    let scope = scope_words(rules.interface.name@);
    let request = scope + udp_words("68"@, "67"@);
    let list = rules.rule_words();
    reveal_strlit("67");
    reveal_strlit("68");
    reveal_strlit("-p");
    reveal_strlit("-d");
    reveal_strlit("-s");
    if rules.group_owner {
        assert(list[1] == request);
    } else if list.contains(request) {
        let i = choose|i: int| 0 <= i < list.len() && list[i] == request;
        assert(request[11] == "68"@);
        assert(request[8] == "-p"@);
        assert("68"@[1] == '8' && "67"@[1] == '7');
        assert("-p"@[1] == 'p' && "-d"@[1] == 'd' && "-s"@[1] == 's');
        if i == 0 {
            assert(list[0][11] == "67"@);
        } else if i == 1 {
            if rules.local is Some {
                assert(list[1][8] == "-d"@);
            } else if rules.peer is Some {
                assert(list[1][8] == "-s"@);
            } else {
                assert(list[1].len() == 14);
            }
        } else {
            assert(list[2].len() == 20);
        }
    }
}

/// The control port is open on the scope narrowed to the hosts that are known.
pub proof fn law_rtsp_is_narrowed_to_known_hosts(rules: Rules)
    ensures
        rules.rule_words().contains(
            rules.endpoint_words() + tcp_words(decimal(rules.rtsp as nat)),
        ),
{
    let i: int = if rules.group_owner {
        2
    } else {
        1
    };
    assert(rules.rule_words()[i] == rules.endpoint_words() + tcp_words(decimal(rules.rtsp as nat)));
}

/// RTCP is permitted only between two known hosts, from the one port that the
/// display named to the one port that the source reserved.
pub proof fn law_rtcp_is_between_known_ports_and_hosts(rules: Rules, ports: (u16, u16))
    requires
        rules.refusal() is None,
        rules.rtcp == Some(ports),
    ensures
        rules.local is Some,
        rules.peer is Some,
        ports.0 >= 1024,
        ports.1 > 0,
        rules.rule_words().last() == scope_words(rules.interface.name@) + seq![
            "-d"@,
            rules.local->0.text() + "/32"@,
            "-s"@,
            rules.peer->0.text() + "/32"@,
        ] + udp_words(decimal(ports.1 as nat), decimal(ports.0 as nat)),
{
    let hosts = seq![
        "-d"@,
        rules.local->0.text() + "/32"@,
        "-s"@,
        rules.peer->0.text() + "/32"@,
    ];
    assert(rules.endpoint_words() =~= scope_words(rules.interface.name@) + hosts);
}

/// A name that is accepted is one word, one component of a path and one line.
pub proof fn law_accepted_names_are_inert(name: Seq<char>)
    requires
        is_valid_name(name),
    ensures
        is_plain(name),
        !name.contains('/'),
        !name.contains('.'),
        !name.contains('\n'),
        !name.contains('\0'),
{
    lemma_name_is_plain(name);
    assert forall|i: int| 0 <= i < name.len() implies is_name_char(#[trigger] name[i]) by {}
}

} // verus!
