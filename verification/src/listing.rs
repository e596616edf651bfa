//! What the text of a transaction holds, and which listings of the dedicated
//! chain are recognized.
use crate::command::CHAIN;
use crate::comparison::law_same_form_means_same_options;
use crate::firewall::{is_valid_name, spaced, Rules};
use crate::rule_form::{
    additions, chain_line, is_addition, normal_form, normal_forms, options, script, without_matches,
};
use crate::rule_laws::{law_every_rule_is_scoped, lemma_rules_are_readable};
use crate::spelling::{all_plain, is_plain, law_splitting_undoes_joining, lemma_without_matches};
use crate::text::{is_space, joined, lemma_line_len, line_len, lines, words};
use vstd::prelude::*;

verus! {

/// Text that fits on one line.
pub open spec fn is_line(s: Seq<char>) -> bool {
    &&& forall|i: int| 0 <= i < s.len() ==> #[trigger] s[i] != '\n'
    &&& s.len() > 0 ==> s.last() != '\r'
}

/// Whether every text fits on one line.
pub open spec fn all_lines(list: Seq<Seq<char>>) -> bool {
    forall|i: int| 0 <= i < list.len() ==> is_line(#[trigger] list[i])
}

/// The text whose lines are the given ones, each ended by a line feed.
pub open spec fn terminated(list: Seq<Seq<char>>) -> Seq<char>
    decreases list.len(),
{
    if list.len() == 0 {
        seq![]
    } else {
        list[0] + seq!['\n'] + terminated(list.skip(1))
    }
}

/// Splitting into lines undoes terminating them.
pub proof fn law_splitting_undoes_terminating(list: Seq<Seq<char>>)
    requires
        all_lines(list),
    ensures
        lines(terminated(list)) == list,
    decreases list.len(),
{
    if list.len() == 0 {
        assert(lines(terminated(list)) =~= list);
    } else {
        let s = terminated(list);
        let first = list[0];
        let rest = list.skip(1);
        assert(is_line(first));
        assert forall|i: int| 0 <= i < rest.len() implies is_line(#[trigger] rest[i]) by {
            assert(rest[i] == list[i + 1]);
        }
        law_splitting_undoes_terminating(rest);
        lemma_line_len(s);
        assert(s[first.len() as int] == '\n');
        assert(line_len(s) == first.len()) by {
            if line_len(s) < first.len() {
                assert(s[line_len(s) as int] == first[line_len(s) as int]);
            }
        }
        assert(s.take(first.len() as int) =~= first);
        assert(s.skip(first.len() as int + 1) =~= terminated(rest));
        assert(seq![first] + rest =~= list);
    }
}

proof fn lemma_terminated_concat(x: Seq<Seq<char>>, y: Seq<Seq<char>>)
    ensures
        terminated(x + y) == terminated(x) + terminated(y),
    decreases x.len(),
{
    if x.len() == 0 {
        assert(x + y =~= y);
        assert(terminated(x + y) =~= terminated(x) + terminated(y));
    } else {
        lemma_terminated_concat(x.skip(1), y);
        assert((x + y).skip(1) =~= x.skip(1) + y);
        assert(terminated(x + y) =~= terminated(x) + terminated(y));
    }
}

proof fn lemma_terminated_single(s: Seq<char>)
    ensures
        terminated(seq![s]) == s + seq!['\n'],
{
    reveal_with_fuel(terminated, 2);
    assert(terminated(seq![s]) =~= s + seq!['\n']);
}

proof fn lemma_joined_is_terminated(list: Seq<Seq<char>>)
    requires
        list.len() > 0,
    ensures
        joined(list, "\n"@) + seq!['\n'] == terminated(list),
    decreases list.len(),
{
    reveal_strlit("\n");
    assert("\n"@ =~= seq!['\n']);
    if list.len() == 1 {
        assert(list =~= seq![list[0]]);
        lemma_terminated_single(list[0]);
    } else {
        lemma_joined_is_terminated(list.skip(1));
        assert(joined(list, "\n"@) + seq!['\n'] =~= terminated(list));
    }
}

pub proof fn lemma_spaced_is_line(list: Seq<Seq<char>>)
    requires
        all_plain(list),
    ensures
        forall|i: int| 0 <= i < spaced(list).len() ==> #[trigger] spaced(list)[i] != '\n' && spaced(list)[i]
            != '\r',
        is_line(spaced(list)),
    decreases list.len(),
{
    reveal_strlit(" ");
    let s = spaced(list);
    if list.len() > 0 {
        let first = list[0];
        assert(is_plain(first));
        if list.len() > 1 {
            let rest = list.skip(1);
            assert forall|i: int| 0 <= i < rest.len() implies is_plain(#[trigger] rest[i]) by {
                assert(rest[i] == list[i + 1]);
            }
            lemma_spaced_is_line(rest);
            assert forall|i: int| 0 <= i < s.len() implies #[trigger] s[i] != '\n' && s[i] != '\r' by {
                if i < first.len() {
                    assert(s[i] == first[i]);
                    assert(!is_space(first[i]));
                } else if i == first.len() {
                    assert(s[i] == ' ');
                } else {
                    assert(s[i] == spaced(rest)[i - first.len() - 1]);
                }
            }
        } else {
            assert forall|i: int| 0 <= i < s.len() implies #[trigger] s[i] != '\n' && s[i] != '\r' by {
                assert(!is_space(first[i]));
            }
        }
    }
}

proof fn lemma_rule_lines_are_lines(rules: Rules)
    requires
        is_valid_name(rules.interface.name@),
    ensures
        all_lines(rules.rule_lines()),
{
    assert forall|i: int| 0 <= i < rules.rule_lines().len() implies is_line(
        #[trigger] rules.rule_lines()[i],
    ) by {
        lemma_rules_are_readable(rules, i);
        lemma_spaced_is_line(rules.rule_words()[i]);
    }
}

/// A transaction for rules that may be rendered consists of exactly its frame and
/// those rules, one line each: nothing that a rule holds starts a line of its own.
pub proof fn law_transaction_holds_only_the_rules(rules: Rules)
    requires
        rules.refusal() is None,
    ensures
        lines(script(rules.rule_lines())) == seq!["*filter"@, "-F waycast-input"@] + rules.rule_lines()
            + seq!["COMMIT"@],
{
    let list = rules.rule_lines();
    let frame = seq!["*filter"@, "-F waycast-input"@];
    let end = seq!["COMMIT"@];
    let all = frame + list + end;
    reveal_strlit("*filter\n-F ");
    reveal_strlit("waycast-input");
    reveal_strlit("\n");
    reveal_strlit("\nCOMMIT\n");
    reveal_strlit("*filter");
    reveal_strlit("-F waycast-input");
    reveal_strlit("COMMIT");
    lemma_rule_lines_are_lines(rules);
    lemma_joined_is_terminated(list);
    lemma_terminated_concat(frame, list);
    lemma_terminated_concat(frame + list, end);
    lemma_terminated_single("COMMIT"@);
    lemma_terminated_single("*filter"@);
    lemma_terminated_single("-F waycast-input"@);
    lemma_terminated_concat(seq!["*filter"@], seq!["-F waycast-input"@]);
    assert(seq!["*filter"@] + seq!["-F waycast-input"@] =~= frame);
    assert("*filter\n-F "@ + CHAIN@ + "\n"@ =~= terminated(frame));
    assert("\nCOMMIT\n"@ =~= seq!['\n'] + terminated(end));
    assert(script(list) =~= terminated(frame) + (joined(list, "\n"@) + seq!['\n']) + terminated(end));
    assert forall|i: int| 0 <= i < all.len() implies is_line(#[trigger] all[i]) by {
        if 2 <= i < 2 + list.len() {
            assert(all[i] == list[i - 2]);
        }
    }
    law_splitting_undoes_terminating(all);
}

pub proof fn lemma_filter_keeps_all(list: Seq<Seq<char>>, pred: spec_fn(Seq<char>) -> bool)
    requires
        forall|i: int| 0 <= i < list.len() ==> pred(#[trigger] list[i]),
    ensures
        list.filter(pred) == list,
    decreases list.len(),
{
    reveal(Seq::filter);
    if list.len() > 0 {
        let front = list.drop_last();
        assert forall|i: int| 0 <= i < front.len() implies pred(#[trigger] front[i]) by {
            assert(front[i] == list[i]);
        }
        lemma_filter_keeps_all(front, pred);
        assert(front.push(list.last()) =~= list);
    }
}

/// How a listing of the dedicated chain looks that shows the given rules.
pub open spec fn chain_listing(entries: Seq<Seq<char>>) -> Seq<char> {
    terminated(seq![chain_line()] + entries)
}

/// The rules that a listing of the dedicated chain shows are the ones it was made of.
pub proof fn law_listing_shows_its_entries(entries: Seq<Seq<char>>)
    requires
        forall|i: int|
            0 <= i < entries.len() ==> is_line(#[trigger] entries[i]) && is_addition(entries[i]),
    ensures
        additions(chain_listing(entries)) == entries,
{
    let pred = |line: Seq<char>| is_addition(line);
    let head = seq![chain_line()];
    let all = head + entries;
    reveal_strlit("-N ");
    reveal_strlit("-A ");
    reveal_strlit("waycast-input");
    assert forall|i: int| 0 <= i < all.len() implies is_line(#[trigger] all[i]) by {
        if i > 0 {
            assert(all[i] == entries[i - 1]);
        }
    }
    law_splitting_undoes_terminating(all);
    assert(!pred(chain_line())) by {
        assert(chain_line()[1] == 'N');
        assert("-A "@[1] == 'A');
        if is_addition(chain_line()) {
            assert(chain_line().subrange(0, 3)[1] == chain_line()[1]);
        }
    }
    Seq::filter_distributes_over_add(head, entries, pred);
    assert(head.filter(pred) =~= seq![]) by {
        reveal(Seq::filter);
        assert(head.drop_last() =~= seq![]);
        assert(head.drop_last().filter(pred) =~= seq![]);
    }
    assert forall|i: int| 0 <= i < entries.len() implies pred(#[trigger] entries[i]) by {
        assert(is_addition(entries[i]));
    }
    lemma_filter_keeps_all(entries, pred);
    assert(seq![] + entries =~= entries);
}

pub proof fn lemma_rule_reads_as_its_words(rules: Rules, i: int)
    requires
        is_valid_name(rules.interface.name@),
        0 <= i < rules.rule_words().len(),
    ensures
        words(without_matches(rules.rule_lines()[i])) == rules.rule_words()[i],
        rules.rule_words()[i].len() % 2 == 0,
{
    let rule = rules.rule_words()[i];
    reveal_strlit("-A");
    reveal_strlit("-m");
    law_every_rule_is_scoped(rules, i);
    assert(rule[0] == rule.take(8)[0]);
    assert("-A"@[1] == 'A' && "-m"@[1] == 'm');
    lemma_rules_are_readable(rules, i);
    lemma_without_matches(rule);
    law_splitting_undoes_joining(rule);
}

/// A listing is recognized if and only if the rules may be rendered and it shows
/// as many rules, each with the same options as often as the rendered one, in
/// whatever order the options stand. So an emptied chain, an added or missing
/// rule, and a rule with any other option or value are all noticed.
pub proof fn law_listing_is_recognized_exactly(rules: Rules, listing: Seq<char>)
    ensures
        rules.shown_by(listing) <==> {
            &&& rules.refusal() is None
            &&& additions(listing).len() == rules.rule_lines().len()
            &&& forall|i: int|
                0 <= i < rules.rule_lines().len() ==> options(#[trigger] additions(listing)[i]).to_multiset()
                    == options(rules.rule_lines()[i]).to_multiset()
        },
{
    let actual = additions(listing);
    let expected = rules.rule_lines();
    if rules.refusal() is None {
        if actual.len() == expected.len() {
            assert forall|i: int| 0 <= i < expected.len() implies (normal_form(#[trigger] actual[i])
                == normal_form(expected[i]) <==> options(actual[i]).to_multiset() == options(
                expected[i],
            ).to_multiset()) by {
                lemma_rule_reads_as_its_words(rules, i);
                law_same_form_means_same_options(actual[i], expected[i]);
            }
            if rules.shown_by(listing) {
                assert forall|i: int| 0 <= i < expected.len() implies options(
                    #[trigger] actual[i],
                ).to_multiset() == options(expected[i]).to_multiset() by {
                    assert(normal_forms(actual)[i] == normal_form(actual[i]));
                    assert(normal_forms(expected)[i] == normal_form(expected[i]));
                }
            } else {
                assert(exists|i: int|
                    0 <= i < expected.len() && normal_form(#[trigger] actual[i]) != normal_form(
                        expected[i],
                    )) by {
                    if forall|i: int|
                        0 <= i < expected.len() ==> normal_form(#[trigger] actual[i]) == normal_form(
                            expected[i],
                        ) {
                        assert(normal_forms(actual) =~= normal_forms(expected));
                    }
                }
            }
        } else {
            assert(normal_forms(actual).len() != normal_forms(expected).len());
        }
    }
}

/// A listing without a single rule is never recognized: the chain after a flush
/// or a reload of the firewall.
pub proof fn law_emptied_chain_is_noticed(rules: Rules, listing: Seq<char>)
    requires
        additions(listing).len() == 0,
    ensures
        !rules.shown_by(listing),
{
    law_listing_is_recognized_exactly(rules, listing);
}

} // verus!
