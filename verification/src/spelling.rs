//! What the comparison of rules does not depend on: how the packet filter orders
//! options, and which protocol matches it spells out.
use crate::firewall::spaced;
use crate::order::{ascending, lemma_text_order, text_order};
use crate::rule_form::{normal_form, options, paired, without_matches};
use crate::text::{erased, is_space, lemma_word_len, word_len, words};
use vstd::prelude::*;

verus! {

/// A word that survives splitting: not empty, and without white space.
pub open spec fn is_plain(word: Seq<char>) -> bool {
    &&& word.len() > 0
    &&& forall|i: int| 0 <= i < word.len() ==> !is_space(#[trigger] word[i])
}

/// Whether every word is plain.
pub open spec fn all_plain(list: Seq<Seq<char>>) -> bool {
    forall|i: int| 0 <= i < list.len() ==> is_plain(#[trigger] list[i])
}

/// The words, each with a space before it.
pub open spec fn trailing(list: Seq<Seq<char>>) -> Seq<char>
    decreases list.len(),
{
    if list.len() == 0 {
        seq![]
    } else {
        seq![' '] + list[0] + trailing(list.skip(1))
    }
}

pub proof fn lemma_space_literal()
    ensures
        " "@ == seq![' '],
        is_space(' '),
{
    reveal_strlit(" ");
    assert(" "@ =~= seq![' ']);
}

proof fn lemma_spaced_trailing(list: Seq<Seq<char>>)
    requires
        list.len() > 0,
    ensures
        spaced(list) == list[0] + trailing(list.skip(1)),
    decreases list.len(),
{
    lemma_space_literal();
    if list.len() == 1 {
        assert(list.skip(1) =~= seq![]);
        assert(list[0] + trailing(list.skip(1)) =~= list[0]);
    } else {
        lemma_spaced_trailing(list.skip(1));
        assert(spaced(list) =~= list[0] + trailing(list.skip(1)));
    }
}

proof fn lemma_plain_word_len(word: Seq<char>, rest: Seq<char>)
    requires
        forall|i: int| 0 <= i < word.len() ==> !is_space(#[trigger] word[i]),
        rest.len() == 0 || is_space(rest[0]),
    ensures
        word_len(word + rest) == word.len(),
{
    let s = word + rest;
    lemma_word_len(s);
    if word_len(s) < word.len() {
        assert(s[word_len(s) as int] == word[word_len(s) as int]);
    }
    if word_len(s) > word.len() {
        assert(s[word.len() as int] == rest[0]);
    }
}

proof fn lemma_words_trailing(list: Seq<Seq<char>>)
    requires
        all_plain(list),
    ensures
        words(trailing(list)) == list,
    decreases list.len(),
{
    lemma_space_literal();
    if list.len() == 0 {
        assert(words(trailing(list)) =~= list);
    } else {
        let rest = list.skip(1);
        let s = trailing(list);
        let body = list[0] + trailing(rest);
        assert forall|i: int| 0 <= i < rest.len() implies is_plain(#[trigger] rest[i]) by {
            assert(rest[i] == list[i + 1]);
        }
        lemma_words_trailing(rest);
        assert(is_plain(list[0]));
        assert(s.skip(1) =~= body);
        assert(trailing(rest).len() > 0 ==> trailing(rest)[0] == ' ');
        lemma_plain_word_len(list[0], trailing(rest));
        assert(body[0] == list[0][0]);
        assert(body.take(list[0].len() as int) =~= list[0]);
        assert(body.skip(list[0].len() as int) =~= trailing(rest));
        assert(words(s) == words(body));
        assert(words(body) == seq![list[0]] + rest);
        assert(seq![list[0]] + rest =~= list);
    }
}

/// Splitting undoes joining with single spaces.
pub proof fn law_splitting_undoes_joining(list: Seq<Seq<char>>)
    requires
        all_plain(list),
    ensures
        words(spaced(list)) == list,
{
    if list.len() == 0 {
        assert(words(spaced(list)) =~= list);
    } else {
        let s = spaced(list);
        let rest = list.skip(1);
        lemma_spaced_trailing(list);
        lemma_words_trailing(list);
        assert(trailing(list).skip(1) =~= s);
        lemma_space_literal();
    }
}

/// The text of a protocol match.
pub open spec fn match_text(protocol: Seq<char>) -> Seq<char> {
    seq![' ', '-', 'm', ' '] + protocol
}

/// The name of a protocol that the packet filter spells out a match for.
pub open spec fn is_protocol(word: Seq<char>) -> bool {
    word == "tcp"@ || word == "udp"@
}

pub proof fn lemma_protocol_literals()
    ensures
        " -m tcp"@ == match_text("tcp"@),
        " -m udp"@ == match_text("udp"@),
        "tcp"@ == seq!['t', 'c', 'p'],
        "udp"@ == seq!['u', 'd', 'p'],
        "-m"@ == seq!['-', 'm'],
{
    reveal_strlit(" -m tcp");
    reveal_strlit(" -m udp");
    reveal_strlit("tcp");
    reveal_strlit("udp");
    reveal_strlit("-m");
    assert("tcp"@ =~= seq!['t', 'c', 'p']);
    assert("udp"@ =~= seq!['u', 'd', 'p']);
    assert("-m"@ =~= seq!['-', 'm']);
    assert(" -m tcp"@ =~= match_text("tcp"@));
    assert(" -m udp"@ =~= match_text("udp"@));
}

/// Whether no word `-m` is followed by one that opens with `protocol`.
pub open spec fn matchless(list: Seq<Seq<char>>, protocol: Seq<char>) -> bool {
    forall|k: int|
        0 <= k < list.len() - 1 && #[trigger] list[k] == "-m"@ ==> !protocol.is_prefix_of(list[k + 1])
}

proof fn lemma_erase_word(word: Seq<char>, rest: Seq<char>, pattern: Seq<char>)
    requires
        forall|i: int| 0 <= i < word.len() ==> !is_space(#[trigger] word[i]),
        pattern.len() > 0,
        pattern[0] == ' ',
    ensures
        erased(word + rest, pattern) == word + erased(rest, pattern),
    decreases word.len(),
{
    lemma_space_literal();
    let s = word + rest;
    if word.len() == 0 {
        assert(s =~= rest);
        assert(word + erased(rest, pattern) =~= erased(rest, pattern));
    } else {
        assert(s[0] == word[0]);
        assert(!pattern.is_prefix_of(s)) by {
            if pattern.is_prefix_of(s) {
                assert(s.subrange(0, pattern.len() as int)[0] == pattern[0]);
            }
        }
        assert(s.skip(1) =~= word.skip(1) + rest);
        lemma_erase_word(word.skip(1), rest, pattern);
        assert(seq![s[0]] + (word.skip(1) + erased(rest, pattern)) =~= word + erased(rest, pattern));
    }
}

/// A spaced word that does not open a match is kept.
pub proof fn lemma_erase_spaced_word(word: Seq<char>, rest: Seq<Seq<char>>, protocol: Seq<char>)
    requires
        is_plain(word),
        all_plain(rest),
        is_protocol(protocol),
        rest.len() > 0 && word == "-m"@ ==> !protocol.is_prefix_of(rest[0]),
    ensures
        erased(seq![' '] + word + trailing(rest), match_text(protocol)) == seq![' '] + word + erased(
            trailing(rest),
            match_text(protocol),
        ),
{
    lemma_space_literal();
    lemma_protocol_literals();
    let pattern = match_text(protocol);
    let tail = trailing(rest);
    let s = seq![' '] + word + tail;
    if pattern.is_prefix_of(s) {
        let head = s.subrange(0, pattern.len() as int);
        assert(head == pattern);
        assert(s[1] == head[1] && head[1] == '-');
        assert(s[2] == head[2] && head[2] == 'm');
        assert(s[3] == head[3] && head[3] == ' ');
        assert(s[1] == word[0]);
        if word.len() == 1 {
            assert(s[2] == tail[0]);
            assert(tail[0] == ' ');
        } else if word.len() > 2 {
            assert(s[2] == word[1]);
            assert(s[3] == word[2]);
        } else {
            assert(s[2] == word[1]);
            assert(word =~= "-m"@);
            assert(s[3] == tail[0]);
            assert(rest.len() > 0);
            let next = rest[0];
            assert(is_plain(next));
            assert forall|i: int| 0 <= i < protocol.len() implies i < next.len() && next[i]
                == protocol[i] by {
                if next.len() <= i {
                    // The protocol would run on into the space after the word.
                    let j = next.len() as int;
                    assert(s[4 + j] == head[4 + j]);
                    assert(head[4 + j] == protocol[j]);
                    assert(s[4 + j] == tail[1 + j]);
                    assert(tail[1 + j] == trailing(rest.skip(1))[0]);
                    assert(trailing(rest.skip(1))[0] == ' ');
                } else {
                    assert(s[4 + i] == head[4 + i]);
                    assert(s[4 + i] == tail[1 + i]);
                    assert(tail[1 + i] == next[i]);
                }
            }
            assert(next.len() >= protocol.len()) by {
                assert(protocol.len() == 3);
                assert(2 < next.len());
            }
            assert(next.subrange(0, protocol.len() as int) =~= protocol);
        }
        assert(false);
    }
    assert(s.skip(1) =~= word + tail);
    lemma_erase_word(word, tail, pattern);
    assert(seq![s[0]] + (word + erased(tail, pattern)) =~= seq![' '] + word + erased(tail, pattern));
}

proof fn lemma_skip_matchless(list: Seq<Seq<char>>, protocol: Seq<char>)
    requires
        matchless(list, protocol),
        list.len() > 0,
    ensures
        matchless(list.skip(1), protocol),
{
    let rest = list.skip(1);
    assert forall|k: int| 0 <= k < rest.len() - 1 && #[trigger] rest[k] == "-m"@ implies !protocol.is_prefix_of(
        rest[k + 1],
    ) by {
        assert(rest[k] == list[k + 1]);
        assert(rest[k + 1] == list[k + 2]);
    }
}

/// The words without each `-m` that the protocol follows, and without that protocol.
pub open spec fn stripped(list: Seq<Seq<char>>, protocol: Seq<char>) -> Seq<Seq<char>>
    decreases list.len(),
{
    if list.len() == 0 {
        seq![]
    } else if list.len() > 1 && list[0] == "-m"@ && list[1] == protocol {
        stripped(list.skip(2), protocol)
    } else {
        seq![list[0]] + stripped(list.skip(1), protocol)
    }
}

/// Whether no match begins like that of the protocol without being it.
pub open spec fn unambiguous(list: Seq<Seq<char>>, protocol: Seq<char>) -> bool {
    forall|k: int|
        0 <= k < list.len() - 1 && #[trigger] list[k] == "-m"@ && protocol.is_prefix_of(list[k + 1])
            ==> list[k + 1] == protocol
}

proof fn lemma_skip_unambiguous(list: Seq<Seq<char>>, protocol: Seq<char>, n: int)
    requires
        unambiguous(list, protocol),
        all_plain(list),
        0 <= n <= list.len(),
    ensures
        unambiguous(list.skip(n), protocol),
        all_plain(list.skip(n)),
{
    let rest = list.skip(n);
    assert forall|k: int|
        0 <= k < rest.len() - 1 && #[trigger] rest[k] == "-m"@ && protocol.is_prefix_of(rest[k + 1]) implies rest[k
        + 1] == protocol by {
        assert(rest[k] == list[n + k]);
        assert(rest[k + 1] == list[n + k + 1]);
    }
    assert forall|i: int| 0 <= i < rest.len() implies is_plain(#[trigger] rest[i]) by {
        assert(rest[i] == list[n + i]);
    }
}

/// The matches that are spelled out are erased, and nothing else.
proof fn lemma_erase_matches(list: Seq<Seq<char>>, protocol: Seq<char>)
    requires
        all_plain(list),
        is_protocol(protocol),
        unambiguous(list, protocol),
    ensures
        erased(trailing(list), match_text(protocol)) == trailing(stripped(list, protocol)),
        all_plain(stripped(list, protocol)),
    decreases list.len(),
{
    if list.len() > 1 && list[0] == "-m"@ && list[1] == protocol {
        let pattern = match_text(protocol);
        let after = list.skip(2);
        let s = trailing(list);
        lemma_protocol_literals();
        lemma_skip_unambiguous(list, protocol, 2);
        lemma_erase_matches(after, protocol);
        assert(list.skip(1).skip(1) =~= after);
        assert(trailing(list.skip(1)) == seq![' '] + protocol + trailing(after));
        assert(s =~= pattern + trailing(after));
        assert(s.subrange(0, pattern.len() as int) =~= pattern);
        assert(s.skip(pattern.len() as int) =~= trailing(after));
    } else if list.len() > 0 {
        let rest = list.skip(1);
        let kept = stripped(rest, protocol);
        let all = stripped(list, protocol);
        lemma_skip_unambiguous(list, protocol, 1);
        lemma_erase_matches(rest, protocol);
        assert(is_plain(list[0]));
        assert(rest.len() > 0 ==> rest[0] == list[1]);
        lemma_erase_spaced_word(list[0], rest, protocol);
        assert(all.skip(1) =~= kept);
        assert forall|i: int| 0 <= i < all.len() implies is_plain(#[trigger] all[i]) by {
            if i > 0 {
                assert(all[i] == kept[i - 1]);
            }
        }
    }
}

/// Where no match is spelled out, there is nothing to strip.
proof fn lemma_nothing_to_strip(list: Seq<Seq<char>>, protocol: Seq<char>)
    requires
        is_protocol(protocol),
        matchless(list, protocol),
    ensures
        unambiguous(list, protocol),
        stripped(list, protocol) == list,
    decreases list.len(),
{
    if list.len() > 0 {
        let rest = list.skip(1);
        lemma_skip_matchless(list, protocol);
        lemma_nothing_to_strip(rest, protocol);
        if list.len() > 1 && list[0] == "-m"@ && list[1] == protocol {
            assert(protocol.subrange(0, protocol.len() as int) =~= protocol);
        }
        assert(seq![list[0]] + rest =~= list);
    } else {
        assert(stripped(list, protocol) =~= list);
    }
}

pub proof fn lemma_erase_head(list: Seq<Seq<char>>, erased_list: Seq<Seq<char>>, pattern: Seq<char>)
    requires
        list.len() > 0,
        erased_list.len() > 0,
        is_plain(list[0]),
        list[0] == erased_list[0],
        pattern.len() > 0,
        pattern[0] == ' ',
        erased(trailing(list.skip(1)), pattern) == trailing(erased_list.skip(1)),
    ensures
        erased(spaced(list), pattern) == spaced(erased_list),
{
    lemma_spaced_trailing(list);
    lemma_spaced_trailing(erased_list);
    lemma_erase_word(list[0], trailing(list.skip(1)), pattern);
}

/// Where the first word opens no match, erasing from the text strips the words.
proof fn lemma_erase_from_words(list: Seq<Seq<char>>, protocol: Seq<char>)
    requires
        list.len() > 0,
        list[0] != "-m"@,
        all_plain(list),
        is_protocol(protocol),
        unambiguous(list, protocol),
    ensures
        erased(spaced(list), match_text(protocol)) == spaced(stripped(list, protocol)),
        all_plain(stripped(list, protocol)),
        stripped(list, protocol).len() > 0,
        stripped(list, protocol)[0] == list[0],
{
    lemma_protocol_literals();
    lemma_erase_matches(list, protocol);
    lemma_skip_unambiguous(list, protocol, 1);
    lemma_erase_matches(list.skip(1), protocol);
    assert(is_plain(list[0]));
    assert(stripped(list, protocol).skip(1) =~= stripped(list.skip(1), protocol));
    lemma_erase_head(list, stripped(list, protocol), match_text(protocol));
}

/// Where a rule spells out no protocol match, it reads as its words.
pub proof fn lemma_without_matches(list: Seq<Seq<char>>)
    requires
        list.len() > 0,
        list[0] != "-m"@,
        all_plain(list),
        matchless(list, "tcp"@),
        matchless(list, "udp"@),
    ensures
        without_matches(spaced(list)) == spaced(list),
        options(spaced(list)) == paired(list),
{
    lemma_protocol_literals();
    lemma_nothing_to_strip(list, "tcp"@);
    lemma_nothing_to_strip(list, "udp"@);
    lemma_erase_from_words(list, "tcp"@);
    lemma_erase_from_words(list, "udp"@);
    law_splitting_undoes_joining(list);
}

/// However many protocol matches are spelled out after the first word of a rule,
/// and wherever, the rule's options are those of the other words.
pub proof fn law_protocol_matches_are_irrelevant(list: Seq<Seq<char>>)
    requires
        list.len() > 0,
        list[0] != "-m"@,
        all_plain(list),
        unambiguous(list, "tcp"@),
        unambiguous(stripped(list, "tcp"@), "udp"@),
    ensures
        options(spaced(list)) == paired(stripped(stripped(list, "tcp"@), "udp"@)),
{
    let first = stripped(list, "tcp"@);
    lemma_protocol_literals();
    lemma_erase_from_words(list, "tcp"@);
    lemma_erase_from_words(first, "udp"@);
    law_splitting_undoes_joining(stripped(first, "udp"@));
}

/// Two rules with the same options, each as often, have the same normal form, in
/// whatever order the options stand.
pub proof fn law_option_order_is_irrelevant(x: Seq<char>, y: Seq<char>)
    requires
        options(x).to_multiset() == options(y).to_multiset(),
    ensures
        normal_form(x) == normal_form(y),
{
    lemma_text_order();
    options(x).lemma_sort_by_ensures(text_order());
    options(y).lemma_sort_by_ensures(text_order());
    vstd::seq_lib::lemma_sorted_unique(ascending(options(x)), ascending(options(y)), text_order());
}

} // verus!
