use waycast_networkd::address::Ipv4Addr;
use waycast_networkd::error::Error;
use waycast_networkd::order::{comes_not_after, sort};
use waycast_networkd::text::{
    erase, join, opens_with, push_decimal, push_hexadecimal, same_text, slice_text, space, split_lines,
    split_words, to_chars, trim,
};

const SAMPLES: [&str; 14] = [
    "",
    " ",
    "a",
    " a b ",
    "\n",
    "a\nb",
    "a\r\nb\r",
    "\r\n\r\n",
    "a\n\nb\n",
    "\u{a0}x\u{2028}y\u{200b}",
    "aaaa",
    "-m tcp -m tcp",
    "tab\tfeed\u{c}",
    "é\u{1f600}",
];

#[test]
fn white_space_is_that_of_the_standard_library() {
    for code in 0..=0x10ffff_u32 {
        if let Some(c) = char::from_u32(code) {
            assert_eq!(space(c), c.is_whitespace(), "{code:x}");
        }
    }
}

#[test]
fn splitting_and_trimming_agree_with_the_standard_library() {
    for s in SAMPLES {
        assert_eq!(trim(s), s.trim());
        assert_eq!(split_words(s), s.split_whitespace().collect::<Vec<_>>());
        assert_eq!(split_lines(s), s.lines().collect::<Vec<_>>());
        assert_eq!(to_chars(s), s.chars().collect::<Vec<_>>());
        assert_eq!(erase(s, ""), s);
        for pattern in ["a", "aa", " -m tcp", "é"] {
            assert_eq!(erase(s, pattern), s.replace(pattern, ""));
            assert_eq!(opens_with(&to_chars(s), pattern), s.starts_with(pattern));
            assert_eq!(same_text(s, pattern), s == pattern);
        }
    }
}

#[test]
fn joining_puts_separators_between_neighbours() {
    let list = |parts: &[&str]| parts.iter().map(|s| s.to_string()).collect::<Vec<String>>();
    assert_eq!(join(&list(&[]), ", "), "");
    assert_eq!(join(&list(&["x"]), ", "), "x");
    assert_eq!(join(&list(&["x", "", "y"]), ", "), "x, , y");
}

#[test]
fn numerals_and_slices() {
    let mut s = String::from("n=");
    push_decimal(&mut s, 0);
    push_decimal(&mut s, 4294967295);
    assert_eq!(s, "n=04294967295");
    let mut s = String::new();
    push_hexadecimal(&mut s, 0x574644);
    push_hexadecimal(&mut s, 0xabcdef09);
    assert_eq!(s, "574644abcdef09");
    assert_eq!(slice_text(&to_chars("héllo"), 1, 3), "él");
    assert_eq!(slice_text(&to_chars("héllo"), 2, 2), "");
}

#[test]
fn sorting_agrees_with_the_standard_library() {
    let mut expected: Vec<String> = ["b", "", "a b", "a", "é", "Z", "a b", "\u{ffff}", "\u{10000}", "-p x"]
        .iter()
        .map(|s| s.to_string())
        .collect();
    let sorted = sort(expected.clone());
    expected.sort();
    assert_eq!(sorted, expected);
    for a in &expected {
        for b in &expected {
            assert_eq!(comes_not_after(a, b), a <= b);
        }
    }
}

#[test]
fn addresses_are_read_in_their_own_notation_only() {
    assert_eq!(Ipv4Addr::parse("192.168.49.1"), Ok(Ipv4Addr { a: 192, b: 168, c: 49, d: 1 }));
    assert_eq!(Ipv4Addr::parse("0.0.0.0"), Ok(Ipv4Addr { a: 0, b: 0, c: 0, d: 0 }));
    assert_eq!(Ipv4Addr::parse("255.255.255.255").unwrap().to_text(), "255.255.255.255");
    for text in [
        "", "1", "1.2.3", "1.2.3.4.5", "1.2.3.256", "01.2.3.4", "1.2.3.00", "1..2.3", " 1.2.3.4", "1.2.3.4 ",
        "1.2.3.4\n", "1.2.3.4:80", "a.b.c.d", "+1.2.3.4", "1.2.3.4/32", "1.2.3.1000", "::1",
    ] {
        assert_eq!(Ipv4Addr::parse(text), Err(Error::AddressSyntax), "{text:?}");
    }
}
