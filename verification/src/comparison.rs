//! What the comparison of rules tells apart.
use crate::firewall::spaced;
use crate::order::{ascending, lemma_text_order, text_order};
use crate::rule_form::{normal_form, options, paired, without_matches};
use crate::spelling::{all_plain, is_plain, law_option_order_is_irrelevant, law_splitting_undoes_joining};
use crate::text::{is_space, joined, lemma_joined_concat, lemma_word_len, word_len, words};
use vstd::prelude::*;

verus! {

/// Splitting at white space leaves none.
pub proof fn lemma_words_are_plain(s: Seq<char>)
    ensures
        all_plain(words(s)),
    decreases s.len(),
{
    if s.len() > 0 {
        if is_space(s[0]) {
            lemma_words_are_plain(s.skip(1));
        } else {
            let n = word_len(s) as int;
            let first = s.take(n);
            lemma_word_len(s);
            lemma_words_are_plain(s.skip(n));
            assert forall|i: int| 0 <= i < first.len() implies !is_space(#[trigger] first[i]) by {
                assert(first[i] == s[i]);
            }
            assert forall|i: int| 0 <= i < words(s).len() implies is_plain(#[trigger] words(s)[i]) by {
                if i > 0 {
                    assert(words(s)[i] == words(s.skip(n))[i - 1]);
                }
            }
        }
    }
}

/// One or two plain words with a space between them.
pub open spec fn is_option(text: Seq<char>) -> bool {
    &&& all_plain(words(text))
    &&& 1 <= words(text).len() <= 2
    &&& text == spaced(words(text))
}

pub open spec fn are_options(list: Seq<Seq<char>>) -> bool {
    forall|i: int| 0 <= i < list.len() ==> is_option(#[trigger] list[i])
}

/// Options that all have a value.
pub open spec fn are_pairs(list: Seq<Seq<char>>) -> bool {
    forall|i: int| 0 <= i < list.len() ==> words(#[trigger] list[i]).len() == 2
}

/// The words of a list of options, in order.
pub open spec fn flat(list: Seq<Seq<char>>) -> Seq<Seq<char>>
    decreases list.len(),
{
    if list.len() == 0 {
        seq![]
    } else {
        words(list[0]) + flat(list.skip(1))
    }
}

pub open spec fn word_count() -> spec_fn(Seq<char>, nat) -> nat {
    |text: Seq<char>, n: nat| n + words(text).len()
}

proof fn lemma_skip_options(list: Seq<Seq<char>>)
    requires
        are_options(list),
        list.len() > 0,
    ensures
        are_options(list.skip(1)),
        are_pairs(list) ==> are_pairs(list.skip(1)),
{
    let rest = list.skip(1);
    assert forall|i: int| 0 <= i < rest.len() implies is_option(#[trigger] rest[i]) by {
        assert(rest[i] == list[i + 1]);
    }
    if are_pairs(list) {
        assert forall|i: int| 0 <= i < rest.len() implies words(#[trigger] rest[i]).len() == 2 by {
            assert(rest[i] == list[i + 1]);
        }
    }
}

pub proof fn lemma_flat(list: Seq<Seq<char>>)
    requires
        are_options(list),
    ensures
        all_plain(flat(list)),
        list.len() > 0 ==> flat(list).len() > 0,
        joined(list, " "@) == spaced(flat(list)),
        flat(list).len() == list.fold_right_alt(word_count(), 0),
    decreases list.len(),
{
    if list.len() > 0 {
        let first = words(list[0]);
        let rest = list.skip(1);
        assert(is_option(list[0]));
        lemma_skip_options(list);
        lemma_flat(rest);
        assert(rest =~= list.subrange(1, list.len() as int));
        assert forall|i: int| 0 <= i < flat(list).len() implies is_plain(#[trigger] flat(list)[i]) by {
            if i < first.len() {
                assert(flat(list)[i] == first[i]);
            } else {
                assert(flat(list)[i] == flat(rest)[i - first.len()]);
            }
        }
        if list.len() == 1 {
            assert(flat(list) =~= first);
        } else {
            lemma_joined_concat(first, flat(rest), " "@);
        }
    }
}

proof fn lemma_single_word(word: Seq<char>)
    requires
        is_plain(word),
    ensures
        is_option(word),
        words(word) == seq![word],
{
    law_splitting_undoes_joining(seq![word]);
}

pub proof fn lemma_two_words(x: Seq<char>, y: Seq<char>)
    requires
        is_plain(x),
        is_plain(y),
    ensures
        is_option(x + " "@ + y),
        words(x + " "@ + y) == seq![x, y],
{
    let both = seq![x, y];
    reveal_with_fuel(joined, 2);
    assert(both.skip(1) =~= seq![y]);
    law_splitting_undoes_joining(both);
}

pub proof fn lemma_paired(list: Seq<Seq<char>>)
    requires
        all_plain(list),
    ensures
        are_options(paired(list)),
        flat(paired(list)) == list,
        list.len() % 2 == 0 ==> are_pairs(paired(list)),
    decreases list.len(),
{
    let pairs = paired(list);
    if list.len() == 1 {
        assert(is_plain(list[0]));
        lemma_single_word(list[0]);
        reveal_with_fuel(flat, 2);
        assert(flat(pairs) =~= list);
    } else if list.len() > 1 {
        let rest = list.skip(2);
        assert(is_plain(list[0]) && is_plain(list[1]));
        assert forall|i: int| 0 <= i < rest.len() implies is_plain(#[trigger] rest[i]) by {
            assert(rest[i] == list[i + 2]);
        }
        lemma_two_words(list[0], list[1]);
        lemma_paired(rest);
        assert(pairs.skip(1) =~= paired(rest));
        assert(flat(pairs) =~= list);
        assert forall|i: int| 0 <= i < pairs.len() implies is_option(#[trigger] pairs[i]) by {
            if i > 0 {
                assert(pairs[i] == paired(rest)[i - 1]);
            }
        }
        if list.len() % 2 == 0 {
            assert forall|i: int| 0 <= i < pairs.len() implies words(#[trigger] pairs[i]).len() == 2 by {
                if i > 0 {
                    assert(pairs[i] == paired(rest)[i - 1]);
                }
            }
        }
    } else {
        assert(flat(pairs) =~= list);
    }
}

/// Sorting options keeps them options, and how many words they hold.
proof fn lemma_sorted_options(list: Seq<Seq<char>>)
    requires
        are_options(list),
    ensures
        are_options(ascending(list)),
        are_pairs(list) ==> are_pairs(ascending(list)),
        flat(ascending(list)).len() == flat(list).len(),
{
    let sorted = ascending(list);
    lemma_text_order();
    list.lemma_sort_by_ensures(text_order());
    assert forall|i: int| 0 <= i < sorted.len() implies is_option(#[trigger] sorted[i]) && (are_pairs(list)
        ==> words(sorted[i]).len() == 2) by {
        assert(sorted.contains(sorted[i]));
        let k = choose|k: int| 0 <= k < list.len() && list[k] == sorted[i];
        assert(list.contains(sorted[i]));
        assert(is_option(list[k]));
    }
    lemma_flat(list);
    lemma_flat(sorted);
    vstd::seq_lib::lemma_fold_right_permutation(list, sorted, word_count(), 0nat);
    list.lemma_fold_right_alt(word_count(), 0nat);
    sorted.lemma_fold_right_alt(word_count(), 0nat);
}

proof fn lemma_pairs_are_determined(x: Seq<Seq<char>>, y: Seq<Seq<char>>)
    requires
        are_options(x),
        are_options(y),
        are_pairs(x),
        are_pairs(y),
        flat(x) == flat(y),
    ensures
        x == y,
    decreases x.len(),
{
    lemma_flat(x);
    lemma_flat(y);
    if x.len() == 0 || y.len() == 0 {
        assert(x =~= y);
    } else {
        assert(is_option(x[0]) && is_option(y[0]));
        lemma_skip_options(x);
        lemma_skip_options(y);
        assert(flat(x).take(2) =~= words(x[0]));
        assert(flat(y).take(2) =~= words(y[0]));
        assert(flat(x).skip(2) =~= flat(x.skip(1)));
        assert(flat(y).skip(2) =~= flat(y.skip(1)));
        lemma_pairs_are_determined(x.skip(1), y.skip(1));
        assert(x =~= seq![x[0]] + x.skip(1));
        assert(y =~= seq![y[0]] + y.skip(1));
    }
}

/// The comparison is exact: where every option of a rule has a value, another rule
/// has the same normal form if and only if it has the same options, each as often.
pub proof fn law_same_form_means_same_options(x: Seq<char>, y: Seq<char>)
    requires
        words(without_matches(y)).len() % 2 == 0,
    ensures
        normal_form(x) == normal_form(y) <==> options(x).to_multiset() == options(y).to_multiset(),
{
    if options(x).to_multiset() == options(y).to_multiset() {
        law_option_order_is_irrelevant(x, y);
    }
    if normal_form(x) == normal_form(y) {
        let of_x = words(without_matches(x));
        let of_y = words(without_matches(y));
        lemma_words_are_plain(without_matches(x));
        lemma_words_are_plain(without_matches(y));
        lemma_paired(of_x);
        lemma_paired(of_y);
        lemma_sorted_options(paired(of_x));
        lemma_sorted_options(paired(of_y));
        let sorted_x = ascending(options(x));
        let sorted_y = ascending(options(y));
        lemma_flat(sorted_x);
        lemma_flat(sorted_y);
        law_splitting_undoes_joining(flat(sorted_x));
        law_splitting_undoes_joining(flat(sorted_y));
        lemma_pairs_are_determined(sorted_x, sorted_y);
        lemma_text_order();
        options(x).lemma_sort_by_ensures(text_order());
        options(y).lemma_sort_by_ensures(text_order());
    }
}

} // verus!
