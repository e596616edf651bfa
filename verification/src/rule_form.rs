//! The text of a transaction, and the comparison of rules with the packet
//! filter's own listing of them.
use crate::command::CHAIN;
use crate::firewall::Rules;
use crate::order::{ascending, sort};
use crate::text::{
    erase, erased, join, joined, lines, opens_with, same_text, split_lines, split_words, texts,
    to_chars, words,
};
use vstd::prelude::*;

verus! {

/// Neighbouring words, two by two, with a space between them; a last word that is
/// left over stands alone.
pub open spec fn paired(words: Seq<Seq<char>>) -> Seq<Seq<char>>
    decreases words.len(),
{
    if words.len() == 0 {
        seq![]
    } else if words.len() == 1 {
        seq![words[0]]
    } else {
        seq![words[0] + " "@ + words[1]] + paired(words.skip(2))
    }
}

fn pair_up(list: &Vec<String>) -> (pairs: Vec<String>)
    ensures
        texts(pairs@) == paired(texts(list@)),
{
    let mut pairs: Vec<String> = Vec::new();
    let mut i: usize = 0;
    let ghost all = texts(list@);
    assert(all.skip(0) =~= all);
    assert(texts(pairs@) + paired(all) =~= paired(all));
    while i < list.len()
        invariant
            i <= list@.len(),
            all == texts(list@),
            texts(pairs@) + paired(all.skip(i as int)) == paired(all),
        decreases list@.len() - i,
    {
        let ghost before = texts(pairs@);
        let ghost rest = all.skip(i as int);
        if list.len() - i == 1 {
            pairs.push(list[i].clone());
            proof {
                assert(texts(pairs@) =~= before + seq![rest[0]]);
                assert(all.skip(i + 1) =~= seq![]);
                assert(texts(pairs@) + paired(all.skip(i + 1)) =~= before + paired(rest));
            }
            i = i + 1;
        } else {
            pairs.push(list[i].clone().concat(" ").concat(list[i + 1].as_str()));
            proof {
                let pair = rest[0] + " "@ + rest[1];
                assert(texts(pairs@) =~= before + seq![pair]);
                assert(rest.skip(2) =~= all.skip(i + 2));
                assert(texts(pairs@) + paired(all.skip(i + 2)) =~= before + (seq![pair] + paired(
                    rest.skip(2),
                )));
            }
            i = i + 2;
        }
    }
    assert(all.skip(i as int) =~= seq![]);
    assert(texts(pairs@) + paired(all.skip(i as int)) =~= texts(pairs@));
    pairs
}

/// A rule without the protocol matches that the packet filter spells out.
pub open spec fn without_matches(rule: Seq<char>) -> Seq<char> {
    erased(erased(rule, " -m tcp"@), " -m udp"@)
}

/// The options of a rule, each with its value.
pub open spec fn options(rule: Seq<char>) -> Seq<Seq<char>> {
    paired(words(without_matches(rule)))
}

/// The spelling of a rule that does not depend on the order of its options.
pub open spec fn normal_form(rule: Seq<char>) -> Seq<char> {
    joined(ascending(options(rule)), " "@)
}

/// Spell a rule independently of the order of its options and of the protocol
/// matches that the packet filter adds to them.
pub fn normalize_rule(s: &str) -> (normal: String)
    ensures
        normal@ == normal_form(s@),
{
    let clean = erase(erase(s, " -m tcp").as_str(), " -m udp");
    let tokens = split_words(clean.as_str());
    let pairs = sort(pair_up(&tokens));
    join(&pairs, " ")
}

/// Each rule in its normal form.
pub open spec fn normal_forms(rules: Seq<Seq<char>>) -> Seq<Seq<char>> {
    Seq::new(rules.len(), |i: int| normal_form(rules[i]))
}

/// Whether a line of a listing adds a rule.
pub open spec fn is_addition(line: Seq<char>) -> bool {
    "-A "@.is_prefix_of(line)
}

/// The lines of a listing that add rules, in order.
pub open spec fn additions(listing: Seq<char>) -> Seq<Seq<char>> {
    lines(listing).filter(|line: Seq<char>| is_addition(line))
}

/// Whether a listing shows exactly the given rules in the given order, up to spelling.
pub open spec fn listed(listing: Seq<char>, rules: Seq<Seq<char>>) -> bool {
    normal_forms(additions(listing)) == normal_forms(rules)
}

fn normalized_additions(listing: &str) -> (normal: Vec<String>)
    ensures
        texts(normal@) == normal_forms(additions(listing@)),
{
    let all = split_lines(listing);
    let mut normal: Vec<String> = Vec::new();
    let mut i: usize = 0;
    let ghost pred = |line: Seq<char>| is_addition(line);
    proof {
        assert(texts(all@).take(0) =~= seq![]);
        assert(texts(all@).take(0).filter(pred) =~= seq![]) by {
            reveal(Seq::filter);
        }
        assert(texts(normal@) =~= normal_forms(texts(all@).take(0).filter(pred)));
    }
    while i < all.len()
        invariant
            i <= all@.len(),
            pred == |line: Seq<char>| is_addition(line),
            texts(normal@) == normal_forms(texts(all@).take(i as int).filter(pred)),
        decreases all@.len() - i,
    {
        let ghost done = texts(all@).take(i as int);
        let ghost line = all@[i as int]@;
        let ghost before = texts(normal@);
        proof {
            assert(texts(all@).take(i + 1) =~= done.push(line));
            assert(done.push(line).drop_last() =~= done);
            reveal(Seq::filter);
        }
        if opens_with(&to_chars(all[i].as_str()), "-A ") {
            normal.push(normalize_rule(all[i].as_str()));
            assert(pred(line));
            assert(texts(all@).take(i + 1).filter(pred) =~= done.filter(pred).push(line));
            assert(texts(normal@) =~= before.push(normal_form(line)));
            assert(normal_forms(done.filter(pred).push(line)) =~= before.push(normal_form(line)));
        } else {
            assert(!pred(line));
        }
        i = i + 1;
    }
    assert(texts(all@).take(i as int) =~= lines(listing@));
    normal
}

fn same_list(a: &Vec<String>, b: &Vec<String>) -> (same: bool)
    ensures
        same == (texts(a@) == texts(b@)),
{
    if a.len() != b.len() {
        assert(texts(a@).len() != texts(b@).len());
        return false;
    }
    let mut i: usize = 0;
    while i < a.len()
        invariant
            i <= a@.len(),
            a@.len() == b@.len(),
            forall|k: int| 0 <= k < i ==> texts(a@)[k] == #[trigger] texts(b@)[k],
        decreases a@.len() - i,
    {
        if !same_text(a[i].as_str(), b[i].as_str()) {
            assert(texts(a@)[i as int] != texts(b@)[i as int]);
            return false;
        }
        i = i + 1;
    }
    assert(texts(a@) =~= texts(b@));
    true
}

/// Whether a listing shows exactly the given rules in the given order, up to spelling.
pub fn shows(listing: &str, rules: &Vec<String>) -> (shown: bool)
    ensures
        shown == listed(listing@, texts(rules@)),
{
    let actual = normalized_additions(listing);
    let mut expected: Vec<String> = Vec::new();
    let mut i: usize = 0;
    assert(texts(expected@) =~= normal_forms(texts(rules@).take(0)));
    while i < rules.len()
        invariant
            i <= rules@.len(),
            texts(expected@) == normal_forms(texts(rules@).take(i as int)),
        decreases rules@.len() - i,
    {
        let ghost before = texts(expected@);
        expected.push(normalize_rule(rules[i].as_str()));
        assert(texts(expected@) =~= before.push(normal_form(rules@[i as int]@)));
        assert(normal_forms(texts(rules@).take(i + 1)) =~= before.push(
            normal_form(rules@[i as int]@),
        ));
        i = i + 1;
    }
    assert(texts(rules@).take(i as int) =~= texts(rules@));
    same_list(&actual, &expected)
}

/// A single filter-table transaction that replaces the contents of the dedicated
/// chain by the given rules.
pub open spec fn script(rules: Seq<Seq<char>>) -> Seq<char> {
    "*filter\n-F "@ + CHAIN@ + "\n"@ + joined(rules, "\n"@) + "\nCOMMIT\n"@
}

/// Write the transaction for the given rules.
pub fn transaction(rules: &Vec<String>) -> (text: String)
    ensures
        text@ == script(texts(rules@)),
{
    "*filter\n-F ".to_owned().concat(CHAIN).concat("\n").concat(join(rules, "\n").as_str()).concat(
        "\nCOMMIT\n",
    )
}

/// The line by which a listing shows that the dedicated chain is there.
pub open spec fn chain_line() -> Seq<char> {
    "-N "@ + CHAIN@
}

/// Whether a listing of the filter table shows the dedicated chain.
pub open spec fn has_chain(table: Seq<char>) -> bool {
    lines(table).contains(chain_line())
}

/// Look for the dedicated chain in a listing of the filter table.
pub fn shows_chain(table: &str) -> (shown: bool)
    ensures
        shown == has_chain(table@),
{
    let all = split_lines(table);
    let wanted = "-N ".to_owned().concat(CHAIN);
    let mut i: usize = 0;
    while i < all.len()
        invariant
            i <= all@.len(),
            texts(all@) == lines(table@),
            wanted@ == chain_line(),
            forall|k: int| 0 <= k < i ==> #[trigger] texts(all@)[k] != chain_line(),
        decreases all@.len() - i,
    {
        if same_text(all[i].as_str(), wanted.as_str()) {
            assert(texts(all@)[i as int] == chain_line());
            return true;
        }
        i = i + 1;
    }
    false
}

impl Rules {
    /// Whether a listing of the dedicated chain shows these rules and no others.
    pub open spec fn shown_by(self, listing: Seq<char>) -> bool {
        self.refusal() is None && listed(listing, self.rule_lines())
    }

    /// Compare with a listing of the dedicated chain.
    pub fn listed_in(&self, listing: &str) -> (same: bool)
        ensures
            same == self.shown_by(listing@),
    {
        match self.lines() {
            Ok(rules) => shows(listing, &rules),
            Err(_) => false,
        }
    }
}

} // verus!
