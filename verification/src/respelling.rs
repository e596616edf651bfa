//! Rules as lists of options: their normal form, and every way in which the packet
//! filter may spell them.
use crate::address::Ipv4Addr;
use crate::command::{CHAIN, DEVICE_GROUP};
use crate::comparison::{
    are_options, are_pairs, flat, is_option, law_same_form_means_same_options, lemma_flat, lemma_paired,
    lemma_two_words,
};
use crate::firewall::{host_words, is_valid_name, scope_words, tcp_words, udp_words, Rules};
use crate::listing::{
    chain_listing, is_line, law_listing_is_recognized_exactly, law_listing_shows_its_entries,
    lemma_filter_keeps_all, lemma_rule_reads_as_its_words, lemma_spaced_is_line,
};
use crate::order::{ascending, lemma_text_order, text_order};
use crate::rule_form::{is_addition, normal_form, options, paired};
use crate::rule_laws::{law_every_rule_is_scoped, lemma_rules_are_readable};
use crate::spelling::{
    is_plain, is_protocol, law_option_order_is_irrelevant, law_splitting_undoes_joining, lemma_erase_head,
    lemma_erase_spaced_word, lemma_protocol_literals, lemma_space_literal, match_text, trailing,
};
use crate::text::{decimal, erased, hexadecimal, joined, words};
use vstd::prelude::*;
use vstd::relations::sorted_by;

verus! {

/// An option with its value, as a rule holds it.
pub open spec fn option_text(key: Seq<char>, value: Seq<char>) -> Seq<char> {
    key + " "@ + value
}

/// The match of a protocol, spelled out.
pub open spec fn is_match(option: Seq<char>) -> bool {
    option == option_text("-m"@, "tcp"@) || option == option_text("-m"@, "udp"@)
}

/// Everything but the matches that are spelled out.
pub open spec fn without_match_options(list: Seq<Seq<char>>) -> Seq<Seq<char>> {
    list.filter(|option: Seq<char>| !is_match(option))
}

/// A dashed option with a value, both plain; a match is that of a protocol, or
/// begins like none.
pub open spec fn is_orderly(option: Seq<char>) -> bool {
    &&& is_option(option)
    &&& words(option).len() == 2
    &&& words(option)[0][0] == '-'
    &&& words(option)[0] == "-m"@ ==> {
        ||| is_protocol(words(option)[1])
        ||| !"tcp"@.is_prefix_of(words(option)[1]) && !"udp"@.is_prefix_of(words(option)[1])
    }
}

/// Whether every option is orderly.
pub open spec fn all_orderly(list: Seq<Seq<char>>) -> bool {
    forall|i: int| 0 <= i < list.len() ==> is_orderly(#[trigger] list[i])
}

proof fn lemma_orderly_skip(list: Seq<Seq<char>>)
    requires
        all_orderly(list),
        list.len() > 0,
    ensures
        all_orderly(list.skip(1)),
{
    assert forall|i: int| 0 <= i < list.skip(1).len() implies is_orderly(#[trigger] list.skip(1)[i]) by {
        assert(list.skip(1)[i] == list[i + 1]);
    }
}

proof fn lemma_orderly_are_options(list: Seq<Seq<char>>)
    requires
        all_orderly(list),
    ensures
        are_options(list),
        are_pairs(list),
{
    assert forall|i: int| 0 <= i < list.len() implies is_option(#[trigger] list[i]) && words(list[i]).len()
        == 2 by {
        assert(is_orderly(list[i]));
    }
}

proof fn lemma_filter_first(list: Seq<Seq<char>>, pred: spec_fn(Seq<char>) -> bool)
    requires
        list.len() > 0,
    ensures
        list.filter(pred) == (if pred(list[0]) {
            seq![list[0]]
        } else {
            seq![]
        }) + list.skip(1).filter(pred),
{
    let head = seq![list[0]];
    assert(head + list.skip(1) =~= list);
    Seq::filter_distributes_over_add(head, list.skip(1), pred);
    reveal_with_fuel(Seq::filter, 2);
    assert(head.drop_last() =~= seq![]);
    assert(seq![].push(list[0]) =~= head);
}

proof fn lemma_filter_twice(
    list: Seq<Seq<char>>,
    first: spec_fn(Seq<char>) -> bool,
    second: spec_fn(Seq<char>) -> bool,
    both: spec_fn(Seq<char>) -> bool,
)
    requires
        forall|option: Seq<char>| #[trigger] both(option) == (first(option) && second(option)),
    ensures
        list.filter(first).filter(second) == list.filter(both),
    decreases list.len(),
{
    reveal(Seq::filter);
    if list.len() > 0 {
        let front = list.drop_last();
        lemma_filter_twice(front, first, second, both);
        assert(both(list.last()) == (first(list.last()) && second(list.last())));
        if first(list.last()) {
            let kept = front.filter(first).push(list.last());
            assert(kept.drop_last() =~= front.filter(first));
            assert(kept.last() == list.last());
        }
    }
}

/// Filtering keeps what passes, and nothing else.
proof fn lemma_filter_elements(list: Seq<Seq<char>>, pred: spec_fn(Seq<char>) -> bool)
    ensures
        forall|option: Seq<char>| #[trigger]
            list.filter(pred).contains(option) <==> list.contains(option) && pred(option),
    decreases list.len(),
{
    reveal(Seq::filter);
    if list.len() > 0 {
        let front = list.drop_last();
        lemma_filter_elements(front, pred);
        assert forall|option: Seq<char>| #[trigger] list.filter(pred).contains(option) <==> list.contains(
            option,
        ) && pred(option) by {
            let kept = list.filter(pred);
            if kept.contains(option) {
                let i = choose|i: int| 0 <= i < kept.len() && kept[i] == option;
                if pred(list.last()) && i == kept.len() - 1 {
                    assert(list[list.len() - 1] == option);
                } else {
                    assert(front.filter(pred)[i] == option);
                    assert(front.filter(pred).contains(option));
                    let k = choose|k: int| 0 <= k < front.len() && front[k] == option;
                    assert(list[k] == option);
                }
            }
            if list.contains(option) && pred(option) {
                let k = choose|k: int| 0 <= k < list.len() && list[k] == option;
                if k == list.len() - 1 {
                    assert(kept[kept.len() - 1] == option);
                } else {
                    assert(front[k] == option);
                    assert(front.contains(option));
                    assert(front.filter(pred).contains(option));
                    let i = choose|i: int|
                        0 <= i < front.filter(pred).len() && front.filter(pred)[i] == option;
                    assert(kept[i] == option);
                }
            }
        }
    }
}

/// The options that are not the match of one protocol.
spec fn without_protocol(list: Seq<Seq<char>>, protocol: Seq<char>) -> Seq<Seq<char>> {
    list.filter(|option: Seq<char>| option != option_text("-m"@, protocol))
}

proof fn lemma_match_words(protocol: Seq<char>)
    requires
        is_protocol(protocol),
    ensures
        is_plain("-m"@),
        is_plain(protocol),
        is_orderly(option_text("-m"@, protocol)),
        words(option_text("-m"@, protocol)) == seq!["-m"@, protocol],
{
    lemma_protocol_literals();
    lemma_two_words("-m"@, protocol);
}

proof fn lemma_option_is_its_words(option: Seq<char>)
    requires
        is_orderly(option),
    ensures
        option == option_text(words(option)[0], words(option)[1]),
        is_plain(words(option)[0]),
        is_plain(words(option)[1]),
{
    let list = words(option);
    reveal_with_fuel(joined, 2);
    assert(list.skip(1) =~= seq![list[1]]);
    assert(is_plain(list[0]) && is_plain(list[1]));
}

proof fn lemma_dash_opens_no_protocol(word: Seq<char>, protocol: Seq<char>)
    requires
        is_protocol(protocol),
        word.len() > 0,
        word[0] == '-',
    ensures
        !protocol.is_prefix_of(word),
{
    lemma_protocol_literals();
    if protocol.is_prefix_of(word) {
        assert(word.subrange(0, protocol.len() as int)[0] == protocol[0]);
    }
}

proof fn lemma_value_opens_no_match(option: Seq<char>, protocol: Seq<char>)
    requires
        is_orderly(option),
        is_protocol(protocol),
        option != option_text("-m"@, protocol),
        words(option)[0] == "-m"@,
    ensures
        !protocol.is_prefix_of(words(option)[1]),
{
    lemma_protocol_literals();
    lemma_option_is_its_words(option);
    let value = words(option)[1];
    if is_protocol(value) && protocol.is_prefix_of(value) {
        assert(value.subrange(0, 3) =~= value);
    }
}

/// The value of an option and the options after it: only matches are taken out.
proof fn lemma_erase_after_key(option: Seq<char>, rest: Seq<Seq<char>>, protocol: Seq<char>)
    requires
        is_orderly(option),
        all_orderly(rest),
        is_protocol(protocol),
        erased(trailing(flat(rest)), match_text(protocol)) == trailing(
            flat(without_protocol(rest, protocol)),
        ),
    ensures
        erased(trailing(seq![words(option)[1]] + flat(rest)), match_text(protocol)) == trailing(
            seq![words(option)[1]] + flat(without_protocol(rest, protocol)),
        ),
{
    let value = words(option)[1];
    let tail = flat(rest);
    let kept = flat(without_protocol(rest, protocol));
    lemma_option_is_its_words(option);
    lemma_orderly_are_options(rest);
    lemma_flat(rest);
    if rest.len() > 0 {
        assert(is_orderly(rest[0]));
        assert(tail[0] == words(rest[0])[0]);
        lemma_option_is_its_words(rest[0]);
        lemma_dash_opens_no_protocol(tail[0], protocol);
    }
    lemma_erase_spaced_word(value, tail, protocol);
    assert((seq![value] + tail).skip(1) =~= tail);
    assert((seq![value] + kept).skip(1) =~= kept);
}

proof fn lemma_erase_options(list: Seq<Seq<char>>, protocol: Seq<char>)
    requires
        all_orderly(list),
        is_protocol(protocol),
    ensures
        erased(trailing(flat(list)), match_text(protocol)) == trailing(
            flat(without_protocol(list, protocol)),
        ),
    decreases list.len(),
{
    let pred = |option: Seq<char>| option != option_text("-m"@, protocol);
    if list.len() == 0 {
        reveal(Seq::filter);
        assert(without_protocol(list, protocol) =~= list);
    } else {
        let option = list[0];
        let rest = list.skip(1);
        let tail = flat(rest);
        let kept = flat(without_protocol(rest, protocol));
        let key = words(option)[0];
        let value = words(option)[1];
        assert(is_orderly(option));
        lemma_orderly_skip(list);
        lemma_erase_options(rest, protocol);
        lemma_filter_first(list, pred);
        lemma_option_is_its_words(option);
        lemma_orderly_are_options(rest);
        lemma_flat(rest);
        let after = seq![value] + tail;
        assert(flat(list) =~= seq![key] + after);
        assert(flat(list).skip(1) =~= after);
        if option == option_text("-m"@, protocol) {
            let pattern = match_text(protocol);
            lemma_match_words(protocol);
            lemma_protocol_literals();
            lemma_space_literal();
            assert(after.skip(1) =~= tail);
            assert(trailing(after) == seq![' '] + protocol + trailing(tail));
            let s = trailing(flat(list));
            assert(s =~= pattern + trailing(tail));
            assert(s.subrange(0, pattern.len() as int) =~= pattern);
            assert(s.skip(pattern.len() as int) =~= trailing(tail));
            assert(without_protocol(list, protocol) =~= without_protocol(rest, protocol));
        } else {
            assert forall|i: int| 0 <= i < after.len() implies is_plain(#[trigger] after[i]) by {
                if i > 0 {
                    assert(after[i] == tail[i - 1]);
                }
            }
            if key == "-m"@ {
                lemma_value_opens_no_match(option, protocol);
            }
            lemma_erase_spaced_word(key, after, protocol);
            lemma_erase_after_key(option, rest, protocol);
            let all_kept = without_protocol(list, protocol);
            assert(all_kept =~= seq![option] + without_protocol(rest, protocol));
            assert(all_kept.skip(1) =~= without_protocol(rest, protocol));
            assert(flat(all_kept) =~= seq![key] + (seq![value] + kept));
            assert(flat(all_kept).skip(1) =~= seq![value] + kept);
        }
    }
}

/// Where the first option is no match, taking the matches of a protocol out of the
/// text takes them out of the list.
proof fn lemma_erase_from_text(list: Seq<Seq<char>>, protocol: Seq<char>)
    requires
        list.len() > 0,
        all_orderly(list),
        !is_match(list[0]),
        is_protocol(protocol),
    ensures
        erased(joined(list, " "@), match_text(protocol)) == joined(
            without_protocol(list, protocol),
            " "@,
        ),
        all_orderly(without_protocol(list, protocol)),
        without_protocol(list, protocol).len() > 0,
        without_protocol(list, protocol)[0] == list[0],
{
    let pred = |option: Seq<char>| option != option_text("-m"@, protocol);
    let kept = without_protocol(list, protocol);
    let rest = list.skip(1);
    let option = list[0];
    assert(is_orderly(option));
    lemma_protocol_literals();
    lemma_filter_first(list, pred);
    lemma_filter_elements(list, pred);
    assert forall|i: int| 0 <= i < kept.len() implies is_orderly(#[trigger] kept[i]) by {
        assert(kept.contains(kept[i]));
        let k = choose|k: int| 0 <= k < list.len() && list[k] == kept[i];
        assert(list.contains(kept[i]));
    }
    lemma_orderly_skip(list);
    lemma_erase_options(rest, protocol);
    lemma_erase_after_key(option, rest, protocol);
    lemma_option_is_its_words(option);
    lemma_orderly_are_options(list);
    lemma_orderly_are_options(kept);
    lemma_flat(list);
    lemma_flat(kept);
    assert(kept.skip(1) =~= without_protocol(rest, protocol));
    let value = words(option)[1];
    assert(flat(list).skip(1) =~= seq![value] + flat(rest));
    assert(flat(kept).skip(1) =~= seq![value] + flat(without_protocol(rest, protocol)));
    lemma_erase_head(flat(list), flat(kept), match_text(protocol));
}

/// However often the match of a protocol is spelled out between the options of a
/// rule, the rule's options are the others, in their order.
pub proof fn law_spelled_out_matches_are_irrelevant(list: Seq<Seq<char>>)
    requires
        list.len() > 0,
        all_orderly(list),
        !is_match(list[0]),
    ensures
        options(joined(list, " "@)) == without_match_options(list),
{
    let first = without_protocol(list, "tcp"@);
    let second = without_protocol(first, "udp"@);
    lemma_protocol_literals();
    lemma_erase_from_text(list, "tcp"@);
    lemma_erase_from_text(first, "udp"@);
    lemma_filter_twice(
        list,
        |option: Seq<char>| option != option_text("-m"@, "tcp"@),
        |option: Seq<char>| option != option_text("-m"@, "udp"@),
        |option: Seq<char>| !is_match(option),
    );
    lemma_orderly_are_options(second);
    lemma_flat(second);
    law_splitting_undoes_joining(flat(second));
    lemma_pairing_undoes_flattening(second);
}

proof fn lemma_pairing_undoes_flattening(list: Seq<Seq<char>>)
    requires
        all_orderly(list),
    ensures
        paired(flat(list)) == list,
    decreases list.len(),
{
    if list.len() > 0 {
        let rest = list.skip(1);
        assert(is_orderly(list[0]));
        lemma_orderly_skip(list);
        lemma_pairing_undoes_flattening(rest);
        lemma_option_is_its_words(list[0]);
        assert(flat(list).skip(2) =~= flat(rest));
        assert(flat(list)[0] == words(list[0])[0] && flat(list)[1] == words(list[0])[1]);
        assert(seq![list[0]] + rest =~= list);
    } else {
        assert(paired(flat(list)) =~= list);
    }
}

/// The place of an option in a rendered rule.
pub open spec fn rank(key: Seq<char>) -> int {
    if key == "-A"@ {
        0
    } else if key == "-i"@ {
        1
    } else if key == "-m"@ {
        2
    } else if key == "--src-group"@ {
        3
    } else if key == "-d"@ {
        4
    } else if key == "-s"@ {
        5
    } else if key == "-p"@ {
        6
    } else if key == "--sport"@ {
        7
    } else if key == "--dport"@ {
        8
    } else {
        9
    }
}

/// A word that begins with a hyphen.
pub open spec fn is_dashed(word: Seq<char>) -> bool {
    word.len() > 0 && word[0] == '-'
}

proof fn lemma_ranks()
    ensures
        rank("-A"@) == 0,
        rank("-i"@) == 1,
        rank("-m"@) == 2,
        rank("--src-group"@) == 3,
        rank("-d"@) == 4,
        rank("-s"@) == 5,
        rank("-p"@) == 6,
        rank("--sport"@) == 7,
        rank("--dport"@) == 8,
        rank("-j"@) == 9,
        is_dashed("-A"@),
        is_dashed("-i"@),
        is_dashed("-m"@),
        is_dashed("--src-group"@),
        is_dashed("-d"@),
        is_dashed("-s"@),
        is_dashed("-p"@),
        is_dashed("--sport"@),
        is_dashed("--dport"@),
        is_dashed("-j"@),
{
    reveal_strlit("-A");
    reveal_strlit("-i");
    reveal_strlit("-m");
    reveal_strlit("--src-group");
    reveal_strlit("-d");
    reveal_strlit("-s");
    reveal_strlit("-p");
    reveal_strlit("--sport");
    reveal_strlit("--dport");
    reveal_strlit("-j");
    assert("-A"@[1] == 'A' && "-i"@[1] == 'i' && "-m"@[1] == 'm' && "-d"@[1] == 'd' && "-s"@[1] == 's'
        && "-p"@[1] == 'p' && "-j"@[1] == 'j');
    assert("--src-group"@.len() == 11 && "--sport"@.len() == 7 && "--dport"@.len() == 7);
    assert("--sport"@[2] == 's' && "--dport"@[2] == 'd');
}

/// Options with their values, in order.
pub type Settings = Seq<(Seq<char>, Seq<char>)>;

/// The words of some settings.
pub open spec fn unpaired(list: Settings) -> Seq<Seq<char>>
    decreases list.len(),
{
    if list.len() == 0 {
        seq![]
    } else {
        seq![list[0].0, list[0].1] + unpaired(list.skip(1))
    }
}

/// Each setting as text.
pub open spec fn setting_texts(list: Settings) -> Seq<Seq<char>> {
    Seq::new(list.len(), |i: int| option_text(list[i].0, list[i].1))
}

/// Settings that stand in the order of rendered rules, each at most once, between
/// two places of it; the only match is that of the device group.
pub open spec fn is_ranked(list: Settings, from: int, to: int) -> bool {
    &&& forall|i: int|
        0 <= i < list.len() ==> from <= rank((#[trigger] list[i]).0) < to && is_dashed(list[i].0)
            && (list[i].0 == "-m"@ ==> list[i].1 == "devgroup"@)
    &&& forall|i: int, j: int|
        0 <= i < j < list.len() ==> rank((#[trigger] list[i]).0) < rank((#[trigger] list[j]).0)
}

proof fn lemma_ranked_concat(x: Settings, y: Settings, from: int, middle: int, to: int)
    requires
        is_ranked(x, from, middle),
        is_ranked(y, middle, to),
        from <= middle <= to,
    ensures
        is_ranked(x + y, from, to),
        unpaired(x + y) == unpaired(x) + unpaired(y),
{
    let z = x + y;
    assert forall|i: int| 0 <= i < z.len() implies from <= rank((#[trigger] z[i]).0) < to && is_dashed(z[i].0)
        && (z[i].0 == "-m"@ ==> z[i].1 == "devgroup"@) by {
        if i < x.len() {
            assert(z[i] == x[i]);
        } else {
            assert(z[i] == y[i - x.len()]);
        }
    }
    assert forall|i: int, j: int| 0 <= i < j < z.len() implies rank((#[trigger] z[i]).0) < rank(
        (#[trigger] z[j]).0,
    ) by {
        if j < x.len() {
            assert(z[i] == x[i] && z[j] == x[j]);
        } else if i >= x.len() {
            assert(z[i] == y[i - x.len()] && z[j] == y[j - x.len()]);
        } else {
            assert(z[i] == x[i] && z[j] == y[j - x.len()]);
        }
    }
    lemma_unpaired_concat(x, y);
}

proof fn lemma_unpaired_concat(x: Settings, y: Settings)
    ensures
        unpaired(x + y) == unpaired(x) + unpaired(y),
    decreases x.len(),
{
    if x.len() == 0 {
        assert(x + y =~= y);
        assert(unpaired(x) + unpaired(y) =~= unpaired(y));
    } else {
        lemma_unpaired_concat(x.skip(1), y);
        assert((x + y).skip(1) =~= x.skip(1) + y);
        assert(unpaired(x + y) =~= unpaired(x) + unpaired(y));
    }
}

proof fn lemma_paired_unpaired(list: Settings)
    ensures
        paired(unpaired(list)) == setting_texts(list),
    decreases list.len(),
{
    if list.len() > 0 {
        let rest = list.skip(1);
        lemma_paired_unpaired(rest);
        assert(unpaired(list).skip(2) =~= unpaired(rest));
        assert(setting_texts(list) =~= seq![option_text(list[0].0, list[0].1)] + setting_texts(rest));
    } else {
        assert(paired(unpaired(list)) =~= setting_texts(list));
    }
}

spec fn scope_settings(name: Seq<char>) -> Settings {
    seq![
        ("-A"@, CHAIN@),
        ("-i"@, name),
        ("-m"@, "devgroup"@),
        ("--src-group"@, "0x"@ + hexadecimal(DEVICE_GROUP as nat)),
    ]
}

spec fn host_settings(option: Seq<char>, host: Option<Ipv4Addr>) -> Settings {
    match host {
        Some(ip) => seq![(option, ip.text() + "/32"@)],
        None => seq![],
    }
}

spec fn udp_settings(from: Seq<char>, to: Seq<char>) -> Settings {
    seq![("-p"@, "udp"@), ("--sport"@, from), ("--dport"@, to), ("-j"@, "ACCEPT"@)]
}

spec fn tcp_settings(to: Seq<char>) -> Settings {
    seq![("-p"@, "tcp"@), ("--dport"@, to), ("-j"@, "ACCEPT"@)]
}

proof fn lemma_one_setting(setting: (Seq<char>, Seq<char>))
    ensures
        unpaired(seq![setting]) == seq![setting.0, setting.1],
{
    reveal_with_fuel(unpaired, 2);
    assert(unpaired(seq![setting]) =~= seq![setting.0, setting.1]);
}

proof fn lemma_scope_settings(name: Seq<char>)
    ensures
        is_ranked(scope_settings(name), 0, 4),
        unpaired(scope_settings(name)) == scope_words(name),
{
    let list = scope_settings(name);
    lemma_ranks();
    reveal_with_fuel(unpaired, 5);
    assert(list.skip(1).skip(1).skip(1).skip(1) =~= seq![]);
    assert(unpaired(list) =~= scope_words(name));
}

proof fn lemma_host_settings(option: Seq<char>, host: Option<Ipv4Addr>)
    requires
        option == "-d"@ || option == "-s"@,
    ensures
        is_ranked(host_settings(option, host), rank(option), rank(option) + 1),
        unpaired(host_settings(option, host)) == host_words(option, host),
{
    lemma_ranks();
    if let Some(ip) = host {
        lemma_one_setting((option, ip.text() + "/32"@));
    } else {
        assert(unpaired(host_settings(option, host)) =~= host_words(option, host));
    }
}

proof fn lemma_flow_settings(from: Seq<char>, to: Seq<char>)
    ensures
        is_ranked(udp_settings(from, to), 6, 10),
        unpaired(udp_settings(from, to)) == udp_words(from, to),
        is_ranked(tcp_settings(to), 6, 10),
        unpaired(tcp_settings(to)) == tcp_words(to),
{
    lemma_ranks();
    reveal_with_fuel(unpaired, 5);
    assert(unpaired(udp_settings(from, to)) =~= udp_words(from, to));
    assert(unpaired(tcp_settings(to)) =~= tcp_words(to));
}

/// A rule is its settings, in the fixed order.
proof fn lemma_composed_settings(
    name: Seq<char>,
    local: Option<Ipv4Addr>,
    peer: Option<Ipv4Addr>,
    flow: Settings,
)
    requires
        is_ranked(flow, 6, 10),
    ensures
        ({
            let all = scope_settings(name) + host_settings("-d"@, local) + host_settings("-s"@, peer) + flow;
            &&& is_ranked(all, 0, 10)
            &&& unpaired(all) == scope_words(name) + host_words("-d"@, local) + host_words("-s"@, peer)
                + unpaired(flow)
        }),
{
    let scope = scope_settings(name);
    let to = host_settings("-d"@, local);
    let from = host_settings("-s"@, peer);
    lemma_ranks();
    lemma_scope_settings(name);
    lemma_host_settings("-d"@, local);
    lemma_host_settings("-s"@, peer);
    lemma_ranked_concat(scope, to, 0, 4, 5);
    lemma_ranked_concat(scope + to, from, 0, 5, 6);
    lemma_ranked_concat(scope + to + from, flow, 0, 6, 10);
}

/// Every rendered rule is made of settings in the fixed order.
proof fn lemma_rule_settings(rules: Rules, i: int) -> (list: Settings)
    requires
        0 <= i < rules.rule_words().len(),
    ensures
        is_ranked(list, 0, 10),
        unpaired(list) == rules.rule_words()[i],
{
    let name = rules.interface.name@;
    let scope = scope_words(name);
    lemma_flow_settings("67"@, "68"@);
    lemma_flow_settings("68"@, "67"@);
    lemma_flow_settings("67"@, decimal(rules.rtsp as nat));
    lemma_composed_settings(name, None, None, udp_settings("67"@, "68"@));
    lemma_composed_settings(name, None, None, udp_settings("68"@, "67"@));
    lemma_composed_settings(
        name,
        rules.local,
        rules.peer,
        tcp_settings(decimal(rules.rtsp as nat)),
    );
    assert(scope + host_words("-d"@, None) + host_words("-s"@, None) =~= scope);
    let none = scope_settings(name) + host_settings("-d"@, None) + host_settings("-s"@, None);
    let known = scope_settings(name) + host_settings("-d"@, rules.local) + host_settings(
        "-s"@,
        rules.peer,
    );
    let rtsp = if rules.group_owner {
        2int
    } else {
        1int
    };
    if i == 0 {
        none + udp_settings("67"@, "68"@)
    } else if i < rtsp {
        none + udp_settings("68"@, "67"@)
    } else if i == rtsp {
        known + tcp_settings(decimal(rules.rtsp as nat))
    } else {
        let ports = rules.rtcp->0;
        let to = decimal(ports.0 as nat);
        let from = decimal(ports.1 as nat);
        lemma_flow_settings(from, to);
        lemma_composed_settings(name, rules.local, rules.peer, udp_settings(from, to));
        known + udp_settings(from, to)
    }
}

proof fn lemma_unpaired_index(list: Settings, i: int)
    requires
        0 <= i < list.len(),
    ensures
        2 * i + 1 < unpaired(list).len(),
        unpaired(list)[2 * i] == list[i].0,
        unpaired(list)[2 * i + 1] == list[i].1,
    decreases list.len(),
{
    if i > 0 {
        let rest = list.skip(1);
        lemma_unpaired_index(rest, i - 1);
        assert(rest[i - 1] == list[i]);
        assert(unpaired(list)[2 * i] == unpaired(rest)[2 * (i - 1)]);
        assert(unpaired(list)[2 * i + 1] == unpaired(rest)[2 * (i - 1) + 1]);
    }
}

/// The options of a rendered rule, from its settings.
proof fn lemma_rule_options(rules: Rules, i: int) -> (list: Settings)
    requires
        is_valid_name(rules.interface.name@),
        0 <= i < rules.rule_words().len(),
    ensures
        is_ranked(list, 0, 10),
        unpaired(list) == rules.rule_words()[i],
        forall|k: int| 0 <= k < list.len() ==> is_plain((#[trigger] list[k]).0) && is_plain(list[k].1),
        options(rules.rule_lines()[i]) == paired(rules.rule_words()[i]),
        paired(rules.rule_words()[i]) == setting_texts(list),
        all_orderly(setting_texts(list)),
        forall|k: int| 0 <= k < list.len() ==> !is_match(#[trigger] setting_texts(list)[k]),
{
    let list = lemma_rule_settings(rules, i);
    let all = setting_texts(list);
    lemma_paired_unpaired(list);
    lemma_rules_are_readable(rules, i);
    lemma_rule_reads_as_its_words(rules, i);
    assert forall|k: int| 0 <= k < list.len() implies is_plain((#[trigger] list[k]).0) && is_plain(
        list[k].1,
    ) by {
        lemma_unpaired_index(list, k);
        assert(is_plain(unpaired(list)[2 * k]));
        assert(is_plain(unpaired(list)[2 * k + 1]));
    }
    lemma_protocol_literals();
    reveal_strlit("devgroup");
    assert("devgroup"@[0] == 'd' && "devgroup"@.len() == 8);
    lemma_match_words("tcp"@);
    lemma_match_words("udp"@);
    assert forall|k: int| 0 <= k < all.len() implies is_orderly(#[trigger] all[k]) && !is_match(
        all[k],
    ) by {
        let setting = list[k];
        lemma_two_words(setting.0, setting.1);
        assert(words(all[k]) == seq![setting.0, setting.1]);
        assert(words(all[k])[0] == setting.0 && words(all[k])[1] == setting.1);
        if setting.0 == "-m"@ {
            assert(!"tcp"@.is_prefix_of("devgroup"@)) by {
                if "tcp"@.is_prefix_of("devgroup"@) {
                    assert("devgroup"@.subrange(0, 3)[0] == 'd');
                }
            }
            assert(!"udp"@.is_prefix_of("devgroup"@)) by {
                if "udp"@.is_prefix_of("devgroup"@) {
                    assert("devgroup"@.subrange(0, 3)[0] == 'd');
                }
            }
        }
        if is_match(all[k]) {
            assert(words(all[k])[0] == "-m"@);
            assert(words(all[k])[1].len() == 3);
        }
    }
    list
}

proof fn lemma_same_settings(x: Settings, y: Settings)
    requires
        is_ranked(x, 0, 10),
        is_ranked(y, 0, 10),
        forall|setting: (Seq<char>, Seq<char>)| #[trigger] x.contains(setting) <==> y.contains(setting),
    ensures
        x == y,
    decreases x.len(),
{
    if x.len() == 0 {
        if y.len() > 0 {
            assert(y.contains(y[0]));
            assert(x.contains(y[0]));
        }
        assert(x =~= y);
    } else {
        assert(x.contains(x[0]));
        let j = choose|j: int| 0 <= j < y.len() && y[j] == x[0];
        assert(y.contains(y[0]));
        assert(x.contains(y[0]));
        let i = choose|i: int| 0 <= i < x.len() && x[i] == y[0];
        assert(i == 0) by {
            if i > 0 {
                assert(rank(x[0].0) < rank(x[i].0));
                if j > 0 {
                    assert(rank(y[0].0) < rank(y[j].0));
                }
            }
        }
        let front_x = x.skip(1);
        let front_y = y.skip(1);
        lemma_ranked_skip(x);
        lemma_ranked_skip(y);
        assert forall|setting: (Seq<char>, Seq<char>)| #[trigger] front_x.contains(setting) <==> front_y.contains(
            setting,
        ) by {
            lemma_rest_contains(x, setting);
            lemma_rest_contains(y, setting);
            assert(x.contains(setting) <==> y.contains(setting));
        }
        lemma_same_settings(front_x, front_y);
        assert(x =~= seq![x[0]] + front_x);
        assert(y =~= seq![y[0]] + front_y);
    }
}

proof fn lemma_ranked_skip(list: Settings)
    requires
        is_ranked(list, 0, 10),
        list.len() > 0,
    ensures
        is_ranked(list.skip(1), 0, 10),
{
    let rest = list.skip(1);
    assert forall|i: int| 0 <= i < rest.len() implies #[trigger] rest[i] == list[i + 1] by {}
    assert forall|i: int, j: int| 0 <= i < j < rest.len() implies rank((#[trigger] rest[i]).0) < rank(
        (#[trigger] rest[j]).0,
    ) by {
        assert(rank(list[i + 1].0) < rank(list[j + 1].0));
    }
}

proof fn lemma_rest_contains(list: Settings, setting: (Seq<char>, Seq<char>))
    requires
        is_ranked(list, 0, 10),
        list.len() > 0,
    ensures
        list.skip(1).contains(setting) <==> list.contains(setting) && setting != list[0],
{
    let rest = list.skip(1);
    if rest.contains(setting) {
        let i = choose|i: int| 0 <= i < rest.len() && rest[i] == setting;
        assert(list[i + 1] == setting);
        assert(rank(list[0].0) < rank(list[i + 1].0));
    }
    if list.contains(setting) && setting != list[0] {
        let i = choose|i: int| 0 <= i < list.len() && list[i] == setting;
        assert(rest[i - 1] == setting);
    }
}

proof fn lemma_settings_by_text(list: Settings, setting: (Seq<char>, Seq<char>))
    requires
        forall|k: int| 0 <= k < list.len() ==> is_plain((#[trigger] list[k]).0) && is_plain(list[k].1),
        is_plain(setting.0),
        is_plain(setting.1),
    ensures
        setting_texts(list).contains(option_text(setting.0, setting.1)) <==> list.contains(setting),
{
    let all = setting_texts(list);
    let text = option_text(setting.0, setting.1);
    lemma_two_words(setting.0, setting.1);
    if all.contains(text) {
        let k = choose|k: int| 0 <= k < all.len() && all[k] == text;
        lemma_two_words(list[k].0, list[k].1);
        let found = words(all[k]);
        assert(found[0] == list[k].0 && found[1] == list[k].1);
        assert(found[0] == setting.0 && found[1] == setting.1);
        assert(list[k] == setting);
    }
    if list.contains(setting) {
        let k = choose|k: int| 0 <= k < list.len() && list[k] == setting;
        assert(all[k] == text);
    }
}

proof fn lemma_contained_settings(x: Settings, y: Settings, setting: (Seq<char>, Seq<char>))
    requires
        forall|k: int| 0 <= k < x.len() ==> is_plain((#[trigger] x[k]).0) && is_plain(x[k].1),
        forall|k: int| 0 <= k < y.len() ==> is_plain((#[trigger] y[k]).0) && is_plain(y[k].1),
        setting_texts(x).to_multiset() == setting_texts(y).to_multiset(),
        x.contains(setting),
    ensures
        y.contains(setting),
{
    broadcast use vstd::seq_lib::group_to_multiset_ensures;

    let k = choose|k: int| 0 <= k < x.len() && x[k] == setting;
    assert(is_plain(x[k].0) && is_plain(x[k].1));
    let text = option_text(setting.0, setting.1);
    lemma_settings_by_text(x, setting);
    lemma_settings_by_text(y, setting);
    assert(setting_texts(x).to_multiset().count(text) > 0);
    assert(setting_texts(y).contains(text));
}

/// Two rendered rules have the same normal form if and only if they are the same
/// rule, so that differing rules are never confused.
pub proof fn law_rendered_rules_are_told_apart(x: Rules, i: int, y: Rules, j: int)
    requires
        x.refusal() is None,
        y.refusal() is None,
        0 <= i < x.rule_lines().len(),
        0 <= j < y.rule_lines().len(),
    ensures
        normal_form(x.rule_lines()[i]) == normal_form(y.rule_lines()[j]) <==> x.rule_lines()[i]
            == y.rule_lines()[j],
{
    let of_x = lemma_rule_options(x, i);
    let of_y = lemma_rule_options(y, j);
    lemma_rule_reads_as_its_words(y, j);
    law_same_form_means_same_options(x.rule_lines()[i], y.rule_lines()[j]);
    if normal_form(x.rule_lines()[i]) == normal_form(y.rule_lines()[j]) {
        assert forall|setting: (Seq<char>, Seq<char>)| #[trigger] of_x.contains(setting) <==> of_y.contains(
            setting,
        ) by {
            if of_x.contains(setting) {
                lemma_contained_settings(of_x, of_y, setting);
            }
            if of_y.contains(setting) {
                lemma_contained_settings(of_y, of_x, setting);
            }
        }
        lemma_same_settings(of_x, of_y);
    }
}

/// The normal form of a rendered rule holds the rule's own options, each with its
/// value, in ascending order; and it is its own normal form.
pub proof fn law_normal_form_of_rendered_rules(rules: Rules, i: int)
    requires
        rules.refusal() is None,
        0 <= i < rules.rule_lines().len(),
    ensures
        ({
            let line = rules.rule_lines()[i];
            let given = paired(words(line));
            let normal = paired(words(normal_form(line)));
            &&& words(line) == rules.rule_words()[i]
            &&& normal == ascending(given)
            &&& sorted_by(normal, text_order())
            &&& normal.to_multiset() == given.to_multiset()
            &&& normal_form(normal_form(line)) == normal_form(line)
        }),
{
    let line = rules.rule_lines()[i];
    let given = options(line);
    let sorted = ascending(given);
    let list = lemma_rule_options(rules, i);
    lemma_rules_are_readable(rules, i);
    law_splitting_undoes_joining(rules.rule_words()[i]);
    lemma_text_order();
    given.lemma_sort_by_ensures(text_order());
    assert forall|k: int| 0 <= k < sorted.len() implies is_orderly(#[trigger] sorted[k]) && !is_match(
        sorted[k],
    ) by {
        assert(sorted.contains(sorted[k]));
        assert(given.contains(sorted[k]));
        let n = choose|n: int| 0 <= n < given.len() && given[n] == sorted[k];
        assert(given[n] == setting_texts(list)[n]);
    }
    lemma_orderly_are_options(given);
    lemma_orderly_are_options(sorted);
    lemma_flat(sorted);
    law_splitting_undoes_joining(flat(sorted));
    lemma_pairing_undoes_flattening(sorted);
    assert(sorted.len() > 0) by {
        broadcast use vstd::seq_lib::group_to_multiset_ensures;

        assert(given.to_multiset().len() == sorted.to_multiset().len());
    }
    law_spelled_out_matches_are_irrelevant(sorted);
    let pred = |option: Seq<char>| !is_match(option);
    assert forall|k: int| 0 <= k < sorted.len() implies pred(#[trigger] sorted[k]) by {
        assert(!is_match(sorted[k]));
    }
    lemma_filter_keeps_all(sorted, pred);
    law_option_order_is_irrelevant(normal_form(line), line);
}

/// Whether a list of options is a spelling of a rule in a listing: the chain comes
/// first, the rule's options follow in any order, and matches of protocols are
/// spelled out between them wherever and however often.
pub open spec fn is_spelling(list: Seq<Seq<char>>, rule: Seq<Seq<char>>) -> bool {
    &&& list.len() > 0
    &&& list[0] == option_text("-A"@, CHAIN@)
    &&& without_match_options(list).to_multiset() == paired(rule).to_multiset()
}

proof fn lemma_spelling(rules: Rules, i: int, list: Seq<Seq<char>>)
    requires
        rules.refusal() is None,
        0 <= i < rules.rule_words().len(),
        is_spelling(list, rules.rule_words()[i]),
    ensures
        is_line(joined(list, " "@)),
        is_addition(joined(list, " "@)),
        options(joined(list, " "@)).to_multiset() == options(rules.rule_lines()[i]).to_multiset(),
{
    let settings = lemma_rule_options(rules, i);
    let rule = setting_texts(settings);
    let kept = without_match_options(list);
    let pred = |option: Seq<char>| !is_match(option);
    lemma_protocol_literals();
    lemma_match_words("tcp"@);
    lemma_match_words("udp"@);
    lemma_filter_elements(list, pred);
    assert forall|k: int| 0 <= k < list.len() implies is_orderly(#[trigger] list[k]) by {
        if !is_match(list[k]) {
            assert(list.contains(list[k]));
            assert(kept.contains(list[k]));
            assert(kept.to_multiset().count(list[k]) > 0) by {
                broadcast use vstd::seq_lib::group_to_multiset_ensures;

            }
            assert(rule.contains(list[k])) by {
                broadcast use vstd::seq_lib::group_to_multiset_ensures;

            }
            let n = choose|n: int| 0 <= n < rule.len() && rule[n] == list[k];
            assert(is_orderly(rule[n]));
        }
    }
    reveal_strlit("-A");
    reveal_strlit("-A ");
    reveal_strlit(" ");
    reveal_strlit("waycast-input");
    lemma_two_words("-A"@, CHAIN@);
    assert(words(list[0])[0] == "-A"@);
    assert(!is_match(list[0])) by {
        if is_match(list[0]) {
            assert(words(list[0])[0] == "-m"@);
            assert("-A"@[1] == 'A' && "-m"@[1] == 'm');
        }
    }
    law_spelled_out_matches_are_irrelevant(list);
    lemma_orderly_are_options(list);
    lemma_flat(list);
    lemma_spaced_is_line(flat(list));
    let text = joined(list, " "@);
    assert(text.subrange(0, 3) =~= "-A "@) by {
        assert(list[0].subrange(0, 3) =~= "-A "@);
        assert(list.len() == 1 ==> text == list[0]);
        assert(list.len() > 1 ==> text == list[0] + " "@ + joined(list.skip(1), " "@));
    }
}

/// The packet filter's own listing of the rules is recognized, in whatever order it
/// shows the options of each rule after the chain, and wherever and however often
/// it spells out the match of a protocol.
pub proof fn law_own_rules_are_recognized(rules: Rules, spellings: Seq<Seq<Seq<char>>>)
    requires
        rules.refusal() is None,
        spellings.len() == rules.rule_words().len(),
        forall|i: int|
            0 <= i < spellings.len() ==> is_spelling(#[trigger] spellings[i], rules.rule_words()[i]),
    ensures
        rules.shown_by(
            chain_listing(Seq::new(spellings.len(), |i: int| joined(spellings[i], " "@))),
        ),
{
    let entries = Seq::new(spellings.len(), |i: int| joined(spellings[i], " "@));
    assert forall|i: int| 0 <= i < entries.len() implies is_line(#[trigger] entries[i]) && is_addition(
        entries[i],
    ) && options(entries[i]).to_multiset() == options(rules.rule_lines()[i]).to_multiset() by {
        assert(is_spelling(spellings[i], rules.rule_words()[i]));
        lemma_spelling(rules, i, spellings[i]);
    }
    law_listing_shows_its_entries(entries);
    law_listing_is_recognized_exactly(rules, chain_listing(entries));
}

proof fn lemma_first_option(rules: Rules, i: int)
    requires
        0 <= i < rules.rule_words().len(),
    ensures
        paired(rules.rule_words()[i]).len() > 0,
        paired(rules.rule_words()[i])[0] == option_text("-A"@, CHAIN@),
{
    let rule = rules.rule_words()[i];
    law_every_rule_is_scoped(rules, i);
    assert(rule.take(8)[0] == rule[0] && rule.take(8)[1] == rule[1]);
}

/// The rules as they were rendered are one of their spellings.
pub proof fn law_rendered_rules_are_spellings(rules: Rules, i: int)
    requires
        rules.refusal() is None,
        0 <= i < rules.rule_words().len(),
    ensures
        is_spelling(paired(rules.rule_words()[i]), rules.rule_words()[i]),
        joined(paired(rules.rule_words()[i]), " "@) == rules.rule_lines()[i],
{
    let settings = lemma_rule_options(rules, i);
    let list = setting_texts(settings);
    let pred = |option: Seq<char>| !is_match(option);
    lemma_rules_are_readable(rules, i);
    lemma_paired(rules.rule_words()[i]);
    lemma_orderly_are_options(list);
    lemma_flat(list);
    assert forall|k: int| 0 <= k < list.len() implies pred(#[trigger] list[k]) by {
        assert(!is_match(list[k]));
    }
    lemma_filter_keeps_all(list, pred);
    lemma_first_option(rules, i);
}

} // verus!
