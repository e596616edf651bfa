//! Text primitives behind rule rendering and rule comparison: numerals, trimming,
//! splitting, joining and erasing, each stated over sequences of characters.
use vstd::prelude::*;

verus! {

/// `String::push` appends the given character to the end of the string.
pub assume_specification[ String::push ](s: &mut String, c: char)
    ensures
        final(s)@ == old(s)@.push(c),
;

/// The contents of a list of strings.
pub open spec fn texts(list: Seq<String>) -> Seq<Seq<char>> {
    Seq::new(list.len(), |i: int| list[i]@)
}

/// The characters of a string, in order.
pub fn to_chars(s: &str) -> (chars: Vec<char>)
    ensures
        chars@ == s@,
{
    let mut chars: Vec<char> = Vec::new();
    for c in it: s.chars()
        invariant
            chars@ == it.seq().take(it.index() as int),
    {
        chars.push(c);
    }
    chars
}

/// The string holding `chars[from..to]`.
pub fn slice_text(chars: &Vec<char>, from: usize, to: usize) -> (s: String)
    requires
        from <= to <= chars@.len(),
    ensures
        s@ == chars@.subrange(from as int, to as int),
{
    let mut s = String::new();
    let mut i: usize = from;
    while i < to
        invariant
            from <= i <= to <= chars@.len(),
            s@ == chars@.subrange(from as int, i as int),
        decreases to - i,
    {
        s.push(chars[i]);
        i = i + 1;
    }
    s
}

/// Whether two strings hold the same characters.
pub fn same_text(a: &str, b: &str) -> (same: bool)
    ensures
        same == (a@ == b@),
{
    a.to_owned() == b.to_owned()
}

/// Whether `prefix` opens `chars`.
pub fn opens_with(chars: &Vec<char>, prefix: &str) -> (opens: bool)
    ensures
        opens == prefix@.is_prefix_of(chars@),
{
    let wanted = to_chars(prefix);
    found_at(chars, 0, &wanted)
}

/// Whether `pattern` stands in `s` at position `at`.
pub open spec fn stands_at(s: Seq<char>, at: int, pattern: Seq<char>) -> bool {
    &&& 0 <= at
    &&& at + pattern.len() <= s.len()
    &&& s.subrange(at, at + pattern.len()) == pattern
}

fn found_at(chars: &Vec<char>, at: usize, pattern: &Vec<char>) -> (found: bool)
    requires
        at <= chars@.len(),
    ensures
        found == stands_at(chars@, at as int, pattern@),
        at == 0 ==> found == pattern@.is_prefix_of(chars@),
{
    if pattern.len() > chars.len() - at {
        return false;
    }
    let mut i: usize = 0;
    while i < pattern.len()
        invariant
            i <= pattern@.len(),
            at + pattern@.len() <= chars.len(),
            forall|k: int| 0 <= k < i ==> chars@[at + k] == #[trigger] pattern@[k],
        decreases pattern@.len() - i,
    {
        if chars[at + i] != pattern[i] {
            proof {
                let part = chars@.subrange(at as int, at + pattern@.len());
                assert(part[i as int] != pattern@[i as int]);
            }
            return false;
        }
        i = i + 1;
    }
    assert(chars@.subrange(at as int, at + pattern@.len()) =~= pattern@);
    true
}

/// The digit character for a value below sixteen.
pub open spec fn digit_char(d: int) -> char {
    if d < 10 {
        (48 + d) as char
    } else {
        (87 + d) as char
    }
}

/// The decimal numeral of `n`, without leading zeros.
pub open spec fn decimal(n: nat) -> Seq<char>
    decreases n,
{
    if n < 10 {
        seq![digit_char(n as int)]
    } else {
        decimal(n / 10).push(digit_char((n % 10) as int))
    }
}

/// The lower-case hexadecimal numeral of `n`, without leading zeros.
pub open spec fn hexadecimal(n: nat) -> Seq<char>
    decreases n,
{
    if n < 16 {
        seq![digit_char(n as int)]
    } else {
        hexadecimal(n / 16).push(digit_char((n % 16) as int))
    }
}

fn digit(d: u32) -> (c: char)
    requires
        d < 16,
    ensures
        c == digit_char(d as int),
{
    if d < 10 {
        (48u8 + d as u8) as char
    } else {
        (87u8 + d as u8) as char
    }
}

/// Append the decimal numeral of `n`.
pub fn push_decimal(out: &mut String, n: u32)
    ensures
        final(out)@ == old(out)@ + decimal(n as nat),
    decreases n,
{
    if n >= 10 {
        push_decimal(out, n / 10);
    }
    out.push(digit(n % 10));
}

/// Append the lower-case hexadecimal numeral of `n`.
pub fn push_hexadecimal(out: &mut String, n: u32)
    ensures
        final(out)@ == old(out)@ + hexadecimal(n as nat),
    decreases n,
{
    if n >= 16 {
        push_hexadecimal(out, n / 16);
    }
    out.push(digit(n % 16));
}

/// The Unicode `White_Space` property.
pub open spec fn is_space(c: char) -> bool {
    let code = c as u32;
    ||| 0x9 <= code <= 0xd
    ||| code == 0x20
    ||| code == 0x85
    ||| code == 0xa0
    ||| code == 0x1680
    ||| 0x2000 <= code <= 0x200a
    ||| code == 0x2028
    ||| code == 0x2029
    ||| code == 0x202f
    ||| code == 0x205f
    ||| code == 0x3000
}

/// Whether a character is white space.
pub fn space(c: char) -> (is: bool)
    ensures
        is == is_space(c),
{
    let code: u32 = c as u32;
    (0x9 <= code && code <= 0xd) || code == 0x20 || code == 0x85 || code == 0xa0 || code == 0x1680
        || (0x2000 <= code && code <= 0x200a) || code == 0x2028 || code == 0x2029 || code == 0x202f
        || code == 0x205f || code == 0x3000
}

/// `s` without the white space at its two ends.
pub open spec fn trimmed(s: Seq<char>) -> Seq<char>
    decreases s.len(),
{
    if s.len() == 0 {
        s
    } else if is_space(s[0]) {
        trimmed(s.skip(1))
    } else if is_space(s.last()) {
        trimmed(s.drop_last())
    } else {
        s
    }
}

/// Strip the white space at both ends.
pub fn trim(s: &str) -> (t: String)
    ensures
        t@ == trimmed(s@),
{
    let chars = to_chars(s);
    let mut from: usize = 0;
    let mut to: usize = chars.len();
    assert(chars@.subrange(0, to as int) =~= s@);
    while from < to && space(chars[from])
        invariant
            from <= to == chars@.len(),
            trimmed(s@) == trimmed(chars@.subrange(from as int, to as int)),
        decreases to - from,
    {
        let ghost rest = chars@.subrange(from as int, to as int);
        assert(rest.skip(1) =~= chars@.subrange(from + 1, to as int));
        from = from + 1;
    }
    while from < to && space(chars[to - 1])
        invariant
            from <= to <= chars@.len(),
            from < to ==> !is_space(chars@[from as int]),
            trimmed(s@) == trimmed(chars@.subrange(from as int, to as int)),
        decreases to - from,
    {
        let ghost rest = chars@.subrange(from as int, to as int);
        assert(rest.drop_last() =~= chars@.subrange(from as int, to - 1));
        to = to - 1;
    }
    slice_text(&chars, from, to)
}

/// How many characters of `s` come before the first white space.
pub open spec fn word_len(s: Seq<char>) -> nat
    decreases s.len(),
{
    if s.len() == 0 || is_space(s[0]) {
        0
    } else {
        1 + word_len(s.skip(1))
    }
}

pub proof fn lemma_word_len(s: Seq<char>)
    ensures
        word_len(s) <= s.len(),
        forall|i: int| 0 <= i < word_len(s) ==> !is_space(#[trigger] s[i]),
        word_len(s) < s.len() ==> is_space(s[word_len(s) as int]),
    decreases s.len(),
{
    if s.len() != 0 && !is_space(s[0]) {
        lemma_word_len(s.skip(1));
        assert forall|i: int| 0 <= i < word_len(s) implies !is_space(#[trigger] s[i]) by {
            if i > 0 {
                assert(s.skip(1)[i - 1] == s[i]);
            }
        }
    }
}

/// The maximal runs of `s` that hold no white space, in order.
pub open spec fn words(s: Seq<char>) -> Seq<Seq<char>>
    decreases s.len(),
{
    if s.len() == 0 {
        seq![]
    } else if is_space(s[0]) {
        words(s.skip(1))
    } else {
        proof {
            lemma_word_len(s);
        }
        seq![s.take(word_len(s) as int)] + words(s.skip(word_len(s) as int))
    }
}

/// Split at white space.
pub fn split_words(s: &str) -> (list: Vec<String>)
    ensures
        texts(list@) == words(s@),
{
    let chars = to_chars(s);
    let mut list: Vec<String> = Vec::new();
    let mut i: usize = 0;
    assert(chars@.skip(0) =~= s@);
    assert(texts(list@) + words(s@) =~= words(s@));
    while i < chars.len()
        invariant
            i <= chars@.len(),
            texts(list@) + words(chars@.skip(i as int)) == words(s@),
        decreases chars@.len() - i,
    {
        let ghost rest = chars@.skip(i as int);
        if space(chars[i]) {
            assert(rest.skip(1) =~= chars@.skip(i + 1));
            i = i + 1;
        } else {
            let from: usize = i;
            assert(chars@.skip(i as int) =~= rest.skip(0));
            while i < chars.len() && !space(chars[i])
                invariant
                    from <= i <= chars@.len(),
                    rest == chars@.skip(from as int),
                    word_len(rest) == i - from + word_len(chars@.skip(i as int)),
                decreases chars@.len() - i,
            {
                assert(chars@.skip(i as int).skip(1) =~= chars@.skip(i + 1));
                i = i + 1;
            }
            let ghost before = texts(list@);
            proof {
                lemma_word_len(rest);
                assert(word_len(chars@.skip(i as int)) == 0);
                assert(rest.take(i - from) =~= chars@.subrange(from as int, i as int));
                assert(rest.skip(i - from) =~= chars@.skip(i as int));
            }
            list.push(slice_text(&chars, from, i));
            assert(texts(list@) =~= before + seq![rest.take(i - from)]);
            assert(before + (seq![rest.take(i - from)] + words(chars@.skip(i as int))) =~= texts(list@)
                + words(chars@.skip(i as int)));
        }
    }
    assert(texts(list@) + words(chars@.skip(i as int)) =~= texts(list@));
    list
}

/// How many characters of `s` come before the first line feed.
pub open spec fn line_len(s: Seq<char>) -> nat
    decreases s.len(),
{
    if s.len() == 0 || s[0] == '\n' {
        0
    } else {
        1 + line_len(s.skip(1))
    }
}

pub proof fn lemma_line_len(s: Seq<char>)
    ensures
        line_len(s) <= s.len(),
        forall|i: int| 0 <= i < line_len(s) ==> #[trigger] s[i] != '\n',
        line_len(s) < s.len() ==> s[line_len(s) as int] == '\n',
    decreases s.len(),
{
    if s.len() != 0 && s[0] != '\n' {
        lemma_line_len(s.skip(1));
        assert forall|i: int| 0 <= i < line_len(s) implies #[trigger] s[i] != '\n' by {
            if i > 0 {
                assert(s.skip(1)[i - 1] == s[i]);
            }
        }
    }
}

/// A terminated line without the carriage return that may precede its line feed.
pub open spec fn without_return(s: Seq<char>) -> Seq<char> {
    if s.len() > 0 && s.last() == '\r' {
        s.drop_last()
    } else {
        s
    }
}

/// The lines of `s`: a line ends at a line feed, with or without a carriage
/// return before it; what follows the last line feed is a line unless it is empty.
pub open spec fn lines(s: Seq<char>) -> Seq<Seq<char>>
    decreases s.len(),
{
    if s.len() == 0 {
        seq![]
    } else {
        proof {
            lemma_line_len(s);
        }
        if line_len(s) >= s.len() {
            seq![s]
        } else {
            seq![without_return(s.take(line_len(s) as int))] + lines(s.skip(line_len(s) as int + 1))
        }
    }
}

/// Split into lines.
pub fn split_lines(s: &str) -> (list: Vec<String>)
    ensures
        texts(list@) == lines(s@),
{
    let chars = to_chars(s);
    let mut list: Vec<String> = Vec::new();
    let mut i: usize = 0;
    assert(chars@.skip(0) =~= s@);
    assert(texts(list@) + lines(s@) =~= lines(s@));
    while i < chars.len()
        invariant
            i <= chars@.len(),
            texts(list@) + lines(chars@.skip(i as int)) == lines(s@),
        decreases chars@.len() - i,
    {
        let ghost rest = chars@.skip(i as int);
        let from: usize = i;
        while i < chars.len() && chars[i] != '\n'
            invariant
                from <= i <= chars@.len(),
                rest == chars@.skip(from as int),
                line_len(rest) == i - from + line_len(chars@.skip(i as int)),
            decreases chars@.len() - i,
        {
            assert(chars@.skip(i as int).skip(1) =~= chars@.skip(i + 1));
            i = i + 1;
        }
        let ghost before = texts(list@);
        proof {
            lemma_line_len(rest);
            assert(line_len(chars@.skip(i as int)) == 0);
            assert(rest.take(i - from) =~= chars@.subrange(from as int, i as int));
        }
        if i == chars.len() {
            assert(rest =~= chars@.subrange(from as int, i as int));
            list.push(slice_text(&chars, from, i));
            assert(texts(list@) =~= before + seq![rest]);
            assert(chars@.skip(i as int).len() == 0);
            assert(texts(list@) + lines(chars@.skip(i as int)) =~= before + lines(rest));
        } else {
            let mut to: usize = i;
            if from < to && chars[to - 1] == '\r' {
                to = to - 1;
            }
            list.push(slice_text(&chars, from, to));
            proof {
                let line = rest.take(i - from);
                if to < i {
                    assert(line.drop_last() =~= chars@.subrange(from as int, to as int));
                }
                assert(texts(list@) =~= before + seq![without_return(line)]);
                assert(rest.skip(i - from + 1) =~= chars@.skip(i + 1));
                assert(before + (seq![without_return(line)] + lines(chars@.skip(i + 1))) =~= texts(
                    list@,
                ) + lines(chars@.skip(i + 1)));
            }
            i = i + 1;
        }
    }
    assert(texts(list@) + lines(chars@.skip(i as int)) =~= texts(list@));
    list
}

/// `s` with every occurrence of `pattern`, found from left to right, taken out.
pub open spec fn erased(s: Seq<char>, pattern: Seq<char>) -> Seq<char>
    decreases s.len(),
{
    if s.len() == 0 || pattern.len() == 0 {
        s
    } else if pattern.is_prefix_of(s) {
        erased(s.skip(pattern.len() as int), pattern)
    } else {
        seq![s[0]] + erased(s.skip(1), pattern)
    }
}

/// Take out every occurrence of a pattern; an empty one takes nothing out.
pub fn erase(s: &str, pattern: &str) -> (t: String)
    ensures
        t@ == erased(s@, pattern@),
{
    let chars = to_chars(s);
    let wanted = to_chars(pattern);
    if wanted.len() == 0 {
        return s.to_owned();
    }
    let mut t = String::new();
    let mut i: usize = 0;
    assert(chars@.skip(0) =~= s@);
    assert(t@ + erased(s@, pattern@) =~= erased(s@, pattern@));
    while i < chars.len()
        invariant
            i <= chars@.len(),
            wanted@ == pattern@,
            pattern@.len() > 0,
            t@ + erased(chars@.skip(i as int), pattern@) == erased(s@, pattern@),
        decreases chars@.len() - i,
    {
        let ghost rest = chars@.skip(i as int);
        if found_at(&chars, i, &wanted) {
            assert(rest.subrange(0, pattern@.len() as int) =~= chars@.subrange(
                i as int,
                i + pattern@.len(),
            ));
            assert(rest.skip(pattern@.len() as int) =~= chars@.skip(i + pattern@.len()));
            i = i + wanted.len();
        } else {
            proof {
                if pattern@.is_prefix_of(rest) {
                    assert(chars@.subrange(i as int, i + pattern@.len()) =~= rest.subrange(
                        0,
                        pattern@.len() as int,
                    ));
                }
                assert(rest.skip(1) =~= chars@.skip(i + 1));
                assert(t@ + (seq![rest[0]] + erased(chars@.skip(i + 1), pattern@)) =~= t@.push(
                    chars@[i as int],
                ) + erased(chars@.skip(i + 1), pattern@));
            }
            t.push(chars[i]);
            i = i + 1;
        }
    }
    assert(t@ + erased(chars@.skip(i as int), pattern@) =~= t@);
    t
}

/// The parts in order, with `separator` between neighbours.
pub open spec fn joined(parts: Seq<Seq<char>>, separator: Seq<char>) -> Seq<char>
    decreases parts.len(),
{
    if parts.len() == 0 {
        seq![]
    } else if parts.len() == 1 {
        parts[0]
    } else {
        parts[0] + separator + joined(parts.skip(1), separator)
    }
}

pub proof fn lemma_joined_push(parts: Seq<Seq<char>>, part: Seq<char>, separator: Seq<char>)
    requires
        parts.len() > 0,
    ensures
        joined(parts.push(part), separator) == joined(parts, separator) + separator + part,
    decreases parts.len(),
{
    let all = parts.push(part);
    if parts.len() == 1 {
        reveal_with_fuel(joined, 2);
        assert(all.skip(1) =~= seq![part]);
    } else {
        lemma_joined_push(parts.skip(1), part, separator);
        assert(all.skip(1) =~= parts.skip(1).push(part));
        assert(joined(all, separator) =~= joined(parts, separator) + separator + part);
    }
}

pub proof fn lemma_joined_concat(x: Seq<Seq<char>>, y: Seq<Seq<char>>, separator: Seq<char>)
    requires
        x.len() > 0,
        y.len() > 0,
    ensures
        joined(x + y, separator) == joined(x, separator) + separator + joined(y, separator),
    decreases y.len(),
{
    if y.len() == 1 {
        assert(x + y =~= x.push(y[0]));
        lemma_joined_push(x, y[0], separator);
    } else {
        let front = y.drop_last();
        assert(front.push(y.last()) =~= y);
        assert((x + front).push(y.last()) =~= x + y);
        lemma_joined_concat(x, front, separator);
        lemma_joined_push(x + front, y.last(), separator);
        lemma_joined_push(front, y.last(), separator);
        assert(joined(x, separator) + separator + joined(front, separator) + separator + y.last()
            =~= joined(x, separator) + separator + (joined(front, separator) + separator + y.last()));
    }
}

/// Join strings with a separator between neighbours.
pub fn join(list: &Vec<String>, separator: &str) -> (s: String)
    ensures
        s@ == joined(texts(list@), separator@),
{
    let mut s = String::new();
    let mut i: usize = 0;
    while i < list.len()
        invariant
            i <= list@.len(),
            s@ == joined(texts(list@).take(i as int), separator@),
        decreases list@.len() - i,
    {
        let ghost done = texts(list@).take(i as int);
        assert(texts(list@).take(i + 1) =~= done.push(list@[i as int]@));
        if i > 0 {
            s.append(separator);
            s.append(list[i].as_str());
            proof {
                lemma_joined_push(done, list@[i as int]@, separator@);
            }
        } else {
            s.append(list[i].as_str());
            assert(done.push(list@[0]@) =~= seq![list@[0]@]);
            assert(s@ =~= list@[0]@);
        }
        i = i + 1;
    }
    assert(texts(list@).take(i as int) =~= texts(list@));
    s
}

} // verus!
