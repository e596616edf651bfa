//! The order of text by code point, and sorting by it.
use crate::text::{texts, to_chars};
use vstd::prelude::*;
use vstd::relations::{antisymmetric, reflexive, sorted_by, strongly_connected, total_ordering, transitive};

verus! {

/// Whether `a` comes no later than `b` when compared code point by code point.
pub open spec fn not_after(a: Seq<char>, b: Seq<char>) -> bool
    decreases a.len(),
{
    if a.len() == 0 {
        true
    } else if b.len() == 0 {
        false
    } else if a[0] != b[0] {
        a[0] < b[0]
    } else {
        not_after(a.skip(1), b.skip(1))
    }
}

/// [`not_after`] as a relation.
pub open spec fn text_order() -> spec_fn(Seq<char>, Seq<char>) -> bool {
    |a: Seq<char>, b: Seq<char>| not_after(a, b)
}

proof fn lemma_reflexive(a: Seq<char>)
    ensures
        not_after(a, a),
    decreases a.len(),
{
    if a.len() > 0 {
        lemma_reflexive(a.skip(1));
    }
}

proof fn lemma_antisymmetric(a: Seq<char>, b: Seq<char>)
    requires
        not_after(a, b),
        not_after(b, a),
    ensures
        a == b,
    decreases a.len(),
{
    if a.len() > 0 && b.len() > 0 {
        lemma_antisymmetric(a.skip(1), b.skip(1));
        assert(a =~= seq![a[0]] + a.skip(1));
        assert(b =~= seq![b[0]] + b.skip(1));
    } else {
        assert(a =~= b);
    }
}

proof fn lemma_transitive(a: Seq<char>, b: Seq<char>, c: Seq<char>)
    requires
        not_after(a, b),
        not_after(b, c),
    ensures
        not_after(a, c),
    decreases a.len(),
{
    if a.len() > 0 && b.len() > 0 && c.len() > 0 && a[0] == b[0] && b[0] == c[0] {
        lemma_transitive(a.skip(1), b.skip(1), c.skip(1));
    }
}

proof fn lemma_connected(a: Seq<char>, b: Seq<char>)
    ensures
        not_after(a, b) || not_after(b, a),
    decreases a.len(),
{
    if a.len() > 0 && b.len() > 0 && a[0] == b[0] {
        lemma_connected(a.skip(1), b.skip(1));
    }
}

/// Any two texts are comparable, and only equal texts come no later than each other.
pub proof fn lemma_text_order()
    ensures
        total_ordering(text_order()),
{
    let order = text_order();
    assert(reflexive(order)) by {
        assert forall|a: Seq<char>| #[trigger] order(a, a) by {
            lemma_reflexive(a);
        }
    }
    assert(antisymmetric(order)) by {
        assert forall|a: Seq<char>, b: Seq<char>| #[trigger] order(a, b) && #[trigger] order(b, a)
            implies a == b by {
            lemma_antisymmetric(a, b);
        }
    }
    assert(transitive(order)) by {
        assert forall|a: Seq<char>, b: Seq<char>, c: Seq<char>| #[trigger]
            order(a, b) && #[trigger] order(b, c) implies order(a, c) by {
            lemma_transitive(a, b, c);
        }
    }
    assert(strongly_connected(order)) by {
        assert forall|a: Seq<char>, b: Seq<char>| #[trigger] order(a, b) || #[trigger] order(b, a) by {
            lemma_connected(a, b);
        }
    }
}

/// Compare two strings code point by code point.
pub fn comes_not_after(a: &str, b: &str) -> (result: bool)
    ensures
        result == not_after(a@, b@),
{
    let left = to_chars(a);
    let right = to_chars(b);
    let mut i: usize = 0;
    assert(left@.skip(0) =~= a@);
    assert(right@.skip(0) =~= b@);
    while i < left.len() && i < right.len() && left[i] == right[i]
        invariant
            i <= left@.len(),
            i <= right@.len(),
            not_after(a@, b@) == not_after(left@.skip(i as int), right@.skip(i as int)),
        decreases left@.len() - i,
    {
        assert(left@.skip(i as int).skip(1) =~= left@.skip(i + 1));
        assert(right@.skip(i as int).skip(1) =~= right@.skip(i + 1));
        i = i + 1;
    }
    if i == left.len() {
        true
    } else if i == right.len() {
        false
    } else {
        left[i] < right[i]
    }
}

/// The list in ascending order.
pub open spec fn ascending(list: Seq<Seq<char>>) -> Seq<Seq<char>> {
    list.sort_by(text_order())
}

proof fn lemma_insert_multiset(list: Seq<Seq<char>>, at: int, item: Seq<char>)
    requires
        0 <= at <= list.len(),
    ensures
        list.insert(at, item).to_multiset() == list.to_multiset().insert(item),
{
    broadcast use vstd::seq_lib::group_to_multiset_ensures;

    let longer = list.insert(at, item);
    assert(longer.remove(at) =~= list);
    assert(longer[at] == item);
    assert(longer.contains(item));
    assert(longer.to_multiset() =~= list.to_multiset().insert(item));
}

proof fn lemma_insert_sorted(list: Seq<Seq<char>>, at: int, item: Seq<char>)
    requires
        0 <= at <= list.len(),
        sorted_by(list, text_order()),
        forall|k: int| 0 <= k < at ==> not_after(#[trigger] list[k], item),
        at < list.len() ==> !not_after(list[at], item),
    ensures
        sorted_by(list.insert(at, item), text_order()),
{
    let order = text_order();
    let longer = list.insert(at, item);
    assert forall|i: int, j: int| 0 <= i < j < longer.len() implies #[trigger] order(
        longer[i],
        longer[j],
    ) by {
        if j < at {
            assert(order(list[i], list[j]));
        } else if i == at {
            lemma_connected(list[at], item);
            if j - 1 > at {
                assert(order(list[at], list[j - 1]));
                lemma_transitive(item, list[at], list[j - 1]);
            }
        } else if i > at {
            assert(order(list[i - 1], list[j - 1]));
        } else if j > at {
            assert(order(list[i], list[j - 1]));
        }
    }
}

/// Sort strings by code point.
pub fn sort(list: Vec<String>) -> (sorted: Vec<String>)
    ensures
        texts(sorted@) == ascending(texts(list@)),
{
    let mut sorted: Vec<String> = Vec::new();
    let ghost order = text_order();
    let mut i: usize = 0;
    proof {
        lemma_text_order();
        assert(texts(list@).take(0) =~= texts(sorted@));
    }
    while i < list.len()
        invariant
            i <= list@.len(),
            order == text_order(),
            total_ordering(order),
            sorted_by(texts(sorted@), order),
            texts(sorted@).to_multiset() == texts(list@).take(i as int).to_multiset(),
        decreases list@.len() - i,
    {
        let ghost before = texts(sorted@);
        let ghost item = list@[i as int]@;
        let mut at: usize = 0;
        while at < sorted.len() && comes_not_after(sorted[at].as_str(), list[i].as_str())
            invariant
                i < list@.len(),
                at <= sorted@.len(),
                order == text_order(),
                item == list@[i as int]@,
                before == texts(sorted@),
                forall|k: int| 0 <= k < at ==> order(#[trigger] before[k], item),
            decreases sorted@.len() - at,
        {
            at = at + 1;
        }
        sorted.insert(at, list[i].clone());
        proof {
            let after = texts(sorted@);
            assert(after =~= before.insert(at as int, item));
            lemma_insert_multiset(before, at as int, item);
            assert(texts(list@).take(i + 1) =~= texts(list@).take(i as int).push(item));
            vstd::seq_lib::to_multiset_build(texts(list@).take(i as int), item);
            assert(sorted_by(after, order)) by {
                lemma_insert_sorted(before, at as int, item);
            }
        }
        i = i + 1;
    }
    proof {
        assert(texts(list@).take(i as int) =~= texts(list@));
        texts(list@).lemma_sort_by_ensures(order);
        vstd::seq_lib::lemma_sorted_unique(texts(sorted@), ascending(texts(list@)), order);
    }
    sorted
}

} // verus!
