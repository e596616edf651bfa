//! Events in a given order.
use vstd::prelude::*;

verus! {

/// Whether `events` holds, in this order, one event for each of `checks` that passes it.
#[verifier::opaque]
pub open spec fn in_order<E>(checks: Seq<spec_fn(E) -> bool>, events: Seq<E>) -> bool
    decreases checks.len(),
{
    if checks.len() == 0 {
        true
    } else {
        exists|n: int|
            0 <= n < events.len() && (checks.last())(#[trigger] events[n]) && in_order(
                checks.drop_last(),
                events.take(n),
            )
    }
}

/// What happened in order has still happened when more follows.
pub proof fn lemma_in_order_stays<E>(checks: Seq<spec_fn(E) -> bool>, events: Seq<E>, n: int)
    requires
        0 <= n <= events.len(),
        in_order(checks, events.take(n)),
    ensures
        in_order(checks, events),
{
    reveal(in_order);
    if checks.len() > 0 {
        let front = events.take(n);
        let m = choose|m: int|
            0 <= m < front.len() && (checks.last())(#[trigger] front[m]) && in_order(
                checks.drop_last(),
                front.take(m),
            );
        assert(front[m] == events[m]);
        assert(front.take(m) =~= events.take(m));
    }
}

/// One more event can pass one more check.
pub proof fn lemma_in_order_grows<E>(
    checks: Seq<spec_fn(E) -> bool>,
    check: spec_fn(E) -> bool,
    events: Seq<E>,
)
    requires
        events.len() > 0,
        in_order(checks, events.drop_last()),
    ensures
        in_order(checks, events),
        check(events.last()) ==> in_order(checks.push(check), events),
{
    let last = events.len() - 1;
    assert(events.drop_last() =~= events.take(last));
    lemma_in_order_stays(checks, events, last);
    if check(events.last()) {
        reveal(in_order);
        assert(checks.push(check).drop_last() =~= checks);
        assert(checks.push(check).last() == check);
        assert(events[last] == events.last());
    }
}

/// What passed all checks passed all but the last.
pub proof fn lemma_in_order_shortens<E>(
    checks: Seq<spec_fn(E) -> bool>,
    check: spec_fn(E) -> bool,
    events: Seq<E>,
)
    requires
        in_order(checks.push(check), events),
    ensures
        in_order(checks, events),
{
    let all = checks.push(check);
    assert(all.drop_last() =~= checks);
    let n = choose|n: int|
        0 <= n < events.len() && (all.last())(#[trigger] events[n]) && in_order(
            all.drop_last(),
            events.take(n),
        );
    assert(exists|n: int|
        0 <= n < events.len() && (all.last())(#[trigger] events[n]) && in_order(
            all.drop_last(),
            events.take(n),
        )) by {
        reveal(in_order);
    }
    lemma_in_order_stays(checks, events, n);
}

/// No checks pass without events.
pub proof fn lemma_in_order_empty<E>(events: Seq<E>)
    ensures
        in_order(Seq::<spec_fn(E) -> bool>::empty(), events),
{
    reveal(in_order);
}

/// Each check was passed by some event.
pub proof fn law_each_check_was_passed<E>(checks: Seq<spec_fn(E) -> bool>, events: Seq<E>, i: int)
    requires
        in_order(checks, events),
        0 <= i < checks.len(),
    ensures
        exists|n: int| 0 <= n < events.len() && (checks[i])(#[trigger] events[n]),
    decreases checks.len(),
{
    reveal(in_order);
    let n = choose|n: int|
        0 <= n < events.len() && (checks.last())(#[trigger] events[n]) && in_order(
            checks.drop_last(),
            events.take(n),
        );
    if i < checks.len() - 1 {
        law_each_check_was_passed(checks.drop_last(), events.take(n), i);
        let m = choose|m: int|
            0 <= m < events.take(n).len() && (checks.drop_last()[i])(#[trigger] events.take(n)[m]);
        assert(events.take(n)[m] == events[m]);
    }
}

} // verus!
