//! What splitting, erasing, ordering and reading text come to, whatever the text.
use crate::error::Error;
use crate::number::{is_digit, lemma_leading_digits, lemma_leading_digits_are, number, value};
use crate::order::{ascending, lemma_text_order, not_after, text_order};
use crate::rule_form::{additions, is_addition, paired};
use crate::text::{
    decimal, erased, hexadecimal, is_space, lemma_line_len, lemma_word_len, line_len, lines, stands_at,
    word_len, words,
};
use vstd::prelude::*;

verus! {

/// White space is what Unicode takes for it: five control characters, the next-line
/// control, and the spaces and separators.
pub proof fn law_white_space(c: char)
    ensures
        is_space(c) <==> {
            let code = c as int;
            ||| code == 9 || code == 10 || code == 11 || code == 12 || code == 13
            ||| code == 32 || code == 133 || code == 160 || code == 5760
            ||| 8192 <= code <= 8202
            ||| code == 8232 || code == 8233 || code == 8239 || code == 8287 || code == 12288
        },
{
}

proof fn lemma_word_len_splits(x: Seq<char>, c: char, y: Seq<char>)
    requires
        is_space(c),
    ensures
        word_len(x + seq![c] + y) == word_len(x),
    decreases x.len(),
{
    let s = x + seq![c] + y;
    if x.len() == 0 {
        assert(s[0] == c);
    } else {
        assert(s[0] == x[0]);
        if !is_space(x[0]) {
            lemma_word_len_splits(x.skip(1), c, y);
            assert(s.skip(1) =~= x.skip(1) + seq![c] + y);
        }
    }
}

/// White space parts words and is part of none: the words on its two sides are all
/// the words there are, in order.
pub proof fn law_words_part_at_white_space(x: Seq<char>, c: char, y: Seq<char>)
    requires
        is_space(c),
    ensures
        words(x + seq![c] + y) == words(x) + words(y),
    decreases x.len(),
{
    let s = x + seq![c] + y;
    if x.len() == 0 {
        assert(s[0] == c);
        assert(s.skip(1) =~= y);
        assert(words(x) + words(y) =~= words(y));
    } else if is_space(x[0]) {
        assert(s[0] == x[0]);
        assert(s.skip(1) =~= x.skip(1) + seq![c] + y);
        law_words_part_at_white_space(x.skip(1), c, y);
    } else {
        assert(s[0] == x[0]);
        let n = word_len(x) as int;
        lemma_word_len(x);
        lemma_word_len_splits(x, c, y);
        assert(s.take(n) =~= x.take(n));
        assert(s.skip(n) =~= x.skip(n) + seq![c] + y);
        law_words_part_at_white_space(x.skip(n), c, y);
        assert(words(s) =~= seq![x.take(n)] + (words(x.skip(n)) + words(y)));
        assert(words(x) + words(y) =~= seq![x.take(n)] + (words(x.skip(n)) + words(y)));
    }
}

/// Text without white space is one word, and no text is no word.
pub proof fn law_unspaced_text_is_one_word(x: Seq<char>)
    requires
        forall|i: int| 0 <= i < x.len() ==> !is_space(#[trigger] x[i]),
    ensures
        x.len() > 0 ==> words(x) == seq![x],
        x.len() == 0 ==> words(x).len() == 0,
{
    if x.len() > 0 {
        lemma_word_len(x);
        assert(word_len(x) == x.len());
        assert(x.take(x.len() as int) =~= x);
        let none = x.skip(x.len() as int);
        assert(none.len() == 0);
        assert(words(none).len() == 0);
        assert(!is_space(x[0]));
        assert(words(x) =~= seq![x]);
    }
}

/// A line feed ends a line, and takes one carriage return before it along. What
/// follows the last line feed is a line as it stands, unless it is empty.
pub proof fn law_lines_end_at_line_feeds(x: Seq<char>, y: Seq<char>)
    requires
        forall|i: int| 0 <= i < x.len() ==> #[trigger] x[i] != '\n',
    ensures
        x.len() == 0 ==> lines(x).len() == 0,
        x.len() > 0 ==> lines(x) == seq![x],
        x.len() == 0 || x.last() != '\r' ==> lines(x + seq!['\n'] + y) == seq![x] + lines(y),
        lines(x + seq!['\r', '\n'] + y) == seq![x] + lines(y),
{
    lemma_line_len(x);
    assert(line_len(x) == x.len());
    lemma_first_line(x, y);
    lemma_first_line(x.push('\r'), y);
    assert(x.push('\r') + seq!['\n'] + y =~= x + seq!['\r', '\n'] + y);
    assert(x.push('\r').drop_last() =~= x);
}

proof fn lemma_first_line(x: Seq<char>, y: Seq<char>)
    requires
        forall|i: int| 0 <= i < x.len() ==> #[trigger] x[i] != '\n',
    ensures
        lines(x + seq!['\n'] + y) == seq![
            if x.len() > 0 && x.last() == '\r' {
                x.drop_last()
            } else {
                x
            },
        ] + lines(y),
{
    let s = x + seq!['\n'] + y;
    lemma_line_len(s);
    let n = line_len(s) as int;
    assert(s[x.len() as int] == '\n');
    if n < x.len() {
        assert(s[n] == x[n]);
    }
    assert(n == x.len());
    assert(s.take(n) =~= x);
    assert(s.skip(n + 1) =~= y);
}

/// Of a listing, exactly the lines that begin with `-A` and a space are rules.
pub proof fn law_rules_of_a_listing(x: Seq<char>, y: Seq<char>)
    requires
        forall|i: int| 0 <= i < x.len() ==> #[trigger] x[i] != '\n',
        x.len() > 0 ==> x.last() != '\r',
    ensures
        is_addition(x) <==> x.len() >= 3 && x[0] == '-' && x[1] == 'A' && x[2] == ' ',
        is_addition(x) ==> additions(x + seq!['\n'] + y) == seq![x] + additions(y),
        !is_addition(x) ==> additions(x + seq!['\n'] + y) == additions(y),
{
    reveal_strlit("-A ");
    if x.len() >= 3 && x[0] == '-' && x[1] == 'A' && x[2] == ' ' {
        assert(x.subrange(0, 3) =~= "-A "@);
    }
    if is_addition(x) {
        let head = x.subrange(0, 3);
        assert(head[0] == x[0] && head[1] == x[1] && head[2] == x[2]);
    }
    let pred = |line: Seq<char>| is_addition(line);
    law_lines_end_at_line_feeds(x, y);
    Seq::filter_distributes_over_add(seq![x], lines(y), pred);
    reveal(Seq::filter);
    let one = seq![x];
    assert(one.drop_last() =~= seq![]);
    assert(one.drop_last().filter(pred) =~= seq![]);
    assert(one.last() == x);
    if is_addition(x) {
        assert(one.filter(pred) =~= one);
    } else {
        assert(one.filter(pred) =~= seq![]);
        assert(seq![] + additions(y) =~= additions(y));
    }
}

/// Text in which a pattern does not occur stays as it is.
pub proof fn law_nothing_to_erase(s: Seq<char>, pattern: Seq<char>)
    requires
        forall|i: int| !#[trigger] stands_at(s, i, pattern) || pattern.len() == 0,
    ensures
        erased(s, pattern) == s,
    decreases s.len(),
{
    if s.len() > 0 && pattern.len() > 0 {
        assert(!stands_at(s, 0, pattern));
        let rest = s.skip(1);
        assert forall|i: int| !#[trigger] stands_at(rest, i, pattern) by {
            if stands_at(rest, i, pattern) {
                assert(s.subrange(i + 1, i + 1 + pattern.len()) =~= rest.subrange(i, i + pattern.len()));
                assert(stands_at(s, i + 1, pattern));
            }
        }
        law_nothing_to_erase(rest, pattern);
        assert(seq![s[0]] + rest =~= s);
    }
}

/// The first occurrence of a pattern goes, what stands before it stays, and what
/// follows it is looked at in the same way.
pub proof fn law_erasing_goes_from_left_to_right(s: Seq<char>, pattern: Seq<char>, at: int)
    requires
        pattern.len() > 0,
        stands_at(s, at, pattern),
        forall|i: int| 0 <= i < at ==> !#[trigger] stands_at(s, i, pattern),
    ensures
        erased(s, pattern) == s.take(at) + erased(s.skip(at + pattern.len()), pattern),
    decreases at,
{
    if at == 0 {
        assert(pattern.is_prefix_of(s));
        assert(s.take(0) + erased(s.skip(pattern.len() as int), pattern) =~= erased(
            s.skip(pattern.len() as int),
            pattern,
        ));
    } else {
        assert(!stands_at(s, 0, pattern));
        let rest = s.skip(1);
        assert(rest.subrange(at - 1, at - 1 + pattern.len()) =~= s.subrange(at, at + pattern.len()));
        assert forall|i: int| 0 <= i < at - 1 implies !#[trigger] stands_at(rest, i, pattern) by {
            if stands_at(rest, i, pattern) {
                assert(s.subrange(i + 1, i + 1 + pattern.len()) =~= rest.subrange(i, i + pattern.len()));
                assert(stands_at(s, i + 1, pattern));
            }
        }
        law_erasing_goes_from_left_to_right(rest, pattern, at - 1);
        assert(rest.skip(at - 1 + pattern.len()) =~= s.skip(at + pattern.len()));
        assert(seq![s[0]] + (rest.take(at - 1) + erased(s.skip(at + pattern.len()), pattern)) =~= s.take(
            at,
        ) + erased(s.skip(at + pattern.len()), pattern));
    }
}

/// Text is ordered like words in a dictionary of code points: what two texts open
/// with in common does not count, then the smaller code point comes first, and a
/// text comes before its own continuations.
pub proof fn law_text_is_in_dictionary_order(
    common: Seq<char>,
    a: char,
    x: Seq<char>,
    b: char,
    y: Seq<char>,
)
    ensures
        (a as int) < (b as int) ==> not_after(common + seq![a] + x, common + seq![b] + y) && !not_after(
            common + seq![b] + y,
            common + seq![a] + x,
        ),
        not_after(common, common + y),
        !not_after(common + seq![b] + y, common),
    decreases common.len(),
{
    let p = common + seq![a] + x;
    let q = common + seq![b] + y;
    let r = common + y;
    if common.len() == 0 {
        assert(p[0] == a && q[0] == b);
    } else {
        let rest = common.skip(1);
        law_text_is_in_dictionary_order(rest, a, x, b, y);
        assert(p[0] == common[0] && q[0] == common[0] && r[0] == common[0]);
        assert(p.skip(1) =~= rest + seq![a] + x);
        assert(q.skip(1) =~= rest + seq![b] + y);
        assert(r.skip(1) =~= rest + y);
    }
}

/// Sorting keeps every text as often as it occurs, and puts none after a later one.
pub proof fn law_sorting(list: Seq<Seq<char>>, i: int, j: int)
    requires
        0 <= i <= j < list.len(),
    ensures
        ascending(list).len() == list.len(),
        ascending(list).to_multiset() == list.to_multiset(),
        not_after(ascending(list)[i], ascending(list)[j]),
{
    broadcast use vstd::seq_lib::group_to_multiset_ensures;

    let order = text_order();
    lemma_text_order();
    list.lemma_sort_by_ensures(order);
    let sorted = ascending(list);
    assert(sorted.to_multiset().len() == sorted.len());
    if i < j {
        assert(order(sorted[i], sorted[j]));
    } else {
        assert(order(sorted[i], sorted[i]));
    }
}

/// Options are the words two by two, with one space between them; a last word
/// without a partner stands alone.
pub proof fn law_pairs(list: Seq<Seq<char>>, k: int)
    requires
        0 <= k,
        2 * k < list.len(),
    ensures
        2 * paired(list).len() == list.len() || 2 * paired(list).len() == list.len() + 1,
        2 * k + 1 < list.len() ==> paired(list)[k] == list[2 * k] + " "@ + list[2 * k + 1],
        2 * k + 1 == list.len() ==> paired(list)[k] == list[2 * k],
    decreases list.len(),
{
    if list.len() > 2 {
        let rest = list.skip(2);
        if k > 0 {
            law_pairs(rest, k - 1);
            assert(paired(list)[k] == paired(rest)[k - 1]);
        } else {
            law_pairs(rest, 0);
        }
    } else if list.len() == 2 {
        assert(list.skip(2) =~= seq![]);
        assert(paired(list.skip(2)) =~= seq![]);
    }
}

/// Numerals are positional: the last digit counts once, and what stands before it
/// ten times in decimal and sixteen times in hexadecimal notation, whose digits
/// beyond nine are the letters from `a` on.
pub proof fn law_numerals_are_positional(n: nat, d: nat)
    requires
        n > 0,
    ensures
        d < 10 ==> decimal(d) == seq![(48 + d) as char],
        d < 10 ==> decimal(n * 10 + d) == decimal(n) + seq![(48 + d) as char],
        d < 10 ==> hexadecimal(d) == seq![(48 + d) as char],
        10 <= d < 16 ==> hexadecimal(d) == seq![(87 + d) as char],
        d < 16 ==> hexadecimal(n * 16 + d) == hexadecimal(n) + hexadecimal(d),
{
    if d < 10 {
        assert((n * 10 + d) / 10 == n && (n * 10 + d) % 10 == d);
        assert(decimal(n * 10 + d) =~= decimal(n) + seq![(48 + d) as char]);
    }
    if d < 16 {
        assert((n * 16 + d) / 16 == n && (n * 16 + d) % 16 == d);
        assert(hexadecimal(n * 16 + d) =~= hexadecimal(n) + hexadecimal(d));
    }
}

/// A run of digits denotes ten times what it denotes without its last digit, and
/// that digit. It is read if and only if that fits into 32 bits, leading zeros or not.
pub proof fn law_digits_are_read_positionally(digits: Seq<char>, c: char)
    requires
        forall|i: int| 0 <= i < digits.len() ==> is_digit(#[trigger] digits[i]),
        48 <= c as int <= 57,
    ensures
        value(Seq::<char>::empty()) == 0,
        value(digits.push(c)) == 10 * value(digits) + (c as int - 48),
        value(digits.push(c)) <= u32::MAX ==> number(digits.push(c)) is Ok && number(
            digits.push(c),
        )->Ok_0 == value(digits.push(c)),
        value(digits.push(c)) > u32::MAX ==> number(digits.push(c)) == Err::<u32, Error>(
            Error::NumberTooLarge,
        ),
{
    let s = digits.push(c);
    assert(s.drop_last() =~= digits);
    assert forall|i: int| 0 <= i < s.len() implies is_digit(#[trigger] s[i]) by {
        if i < digits.len() {
            assert(is_digit(digits[i]));
        }
    }
    assert(is_digit(s[0]));
    lemma_leading_digits_are(s, s.len() as int);
    assert(s.take(s.len() as int) =~= s);
}

/// Digits that are followed by anything else are refused: for what follows them if
/// they still fit into 32 bits, and else for their size. A sign alone is no number.
pub proof fn law_stray_characters_are_refused(digits: Seq<char>, c: char, rest: Seq<char>)
    requires
        digits.len() > 0,
        forall|i: int| 0 <= i < digits.len() ==> is_digit(#[trigger] digits[i]),
        !(48 <= c as int <= 57),
    ensures
        value(digits) <= u32::MAX ==> number(digits + seq![c] + rest) == Err::<u32, Error>(
            Error::InvalidDigit,
        ),
        value(digits) > u32::MAX ==> number(digits + seq![c] + rest) == Err::<u32, Error>(
            Error::NumberTooLarge,
        ),
        number(seq![c]) == Err::<u32, Error>(Error::InvalidDigit),
{
    let s = digits + seq![c] + rest;
    assert(s[0] == digits[0]);
    assert(is_digit(digits[0]));
    lemma_leading_digits_are(s, digits.len() as int);
    assert(s.take(digits.len() as int) =~= digits);
    let one = seq![c];
    lemma_leading_digits(one);
    assert(one.take(0) =~= seq![]);
}

} // verus!
