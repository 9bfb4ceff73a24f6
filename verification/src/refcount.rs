//! The shared reference count's event model and its laws.
//!
//! One atomic count governs a whole allocation, whatever interface each
//! outstanding handle targets.  This module describes the count's evolution
//! as a sequence of events — acquiring a unit, releasing a unit, or merely
//! borrowing — and proves the discipline's laws: borrows never move the
//! count, and a history that stays positive until its final release
//! deallocates exactly once, at the step where the count reaches zero.

use vstd::prelude::*;

verus! {

/// One event in an allocation's reference-count history.
pub enum RefOp {
    /// A unit is acquired: object creation, a successful owning cast, an
    /// explicit acquire, or the upgrade of a borrow.
    Acquire,
    /// A unit is released: an owning handle or the wrapper itself is dropped.
    Release,
    /// A borrowing handle is produced or discarded.
    Borrow,
}

/// The count after one event.
pub open spec fn apply_op(op: RefOp, c: int) -> int {
    match op {
        RefOp::Acquire => c + 1,
        RefOp::Release => c - 1,
        RefOp::Borrow => c,
    }
}

/// The count after a whole history, starting from `c`.
pub open spec fn count_after(ops: Seq<RefOp>, c: int) -> int
    decreases ops.len(),
{
    if ops.len() == 0 {
        c
    } else {
        count_after(ops.drop_first(), apply_op(ops[0], c))
    }
}

/// How many events of the history step the count from one to zero — that is,
/// how many times the allocation is deallocated.
pub open spec fn dealloc_events(ops: Seq<RefOp>, c: int) -> int
    decreases ops.len(),
{
    if ops.len() == 0 {
        0
    } else {
        (if c == 1 && apply_op(ops[0], c) == 0 {
            1int
        } else {
            0int
        }) + dealloc_events(ops.drop_first(), apply_op(ops[0], c))
    }
}

/// Splitting off the first event of a prefix: the count after `n + 1` events
/// equals the count after `n` events of the rest, started one step in.
proof fn lemma_count_after_prefix_step(ops: Seq<RefOp>, c: int, n: int)
    requires
        0 <= n < ops.len(),
    ensures
        count_after(ops.take(n + 1), c) == count_after(
            ops.drop_first().take(n),
            apply_op(ops[0], c),
        ),
{
    assert(ops.take(n + 1)[0] == ops[0]);
    assert(ops.take(n + 1).drop_first() =~= ops.drop_first().take(n));
}

/// Borrow non-interference: a history of nothing but borrows leaves the
/// count exactly where it started and never deallocates.
pub proof fn lemma_borrows_preserve_count(ops: Seq<RefOp>, c: int)
    requires
        forall|i: int| 0 <= i < ops.len() ==> ops[i] is Borrow,
    ensures
        count_after(ops, c) == c,
        dealloc_events(ops, c) == 0,
    decreases ops.len(),
{
    if ops.len() > 0 {
        assert(ops[0] is Borrow);
        lemma_borrows_preserve_count(ops.drop_first(), c);
    }
}

/// Deallocation happens exactly once: if the count starts at one or more,
/// stays positive after every proper prefix of the history, and ends at
/// zero, then exactly one event of the history steps the count from one to
/// zero.
pub proof fn lemma_dealloc_exactly_once(ops: Seq<RefOp>, c: int)
    requires
        c >= 1,
        forall|n: int| 0 < n < ops.len() ==> count_after(#[trigger] ops.take(n), c) >= 1,
        count_after(ops, c) == 0,
    ensures
        dealloc_events(ops, c) == 1,
    decreases ops.len(),
{
    let c1 = apply_op(ops[0], c);
    let rest = ops.drop_first();
    if ops.len() == 1 {
        assert(rest.len() == 0);
        assert(count_after(ops, c) == count_after(rest, c1));
        assert(count_after(rest, c1) == c1);
        assert(c1 == 0);
        assert(c == 1);
        assert(dealloc_events(rest, c1) == 0);
    } else {
        assert(count_after(ops.take(1), c) >= 1);
        assert(ops.take(1)[0] == ops[0]);
        assert(ops.take(1).drop_first() =~= rest.take(0));
        assert(count_after(ops.take(1), c) == count_after(rest.take(0), c1));
        assert(count_after(rest.take(0), c1) == c1);
        assert forall|n: int| 0 < n < rest.len() implies count_after(
            #[trigger] rest.take(n),
            c1,
        ) >= 1 by {
            lemma_count_after_prefix_step(ops, c, n);
            assert(count_after(ops.take(n + 1), c) >= 1);
        }
        lemma_dealloc_exactly_once(rest, c1);
        assert(!(c == 1 && c1 == 0));
    }
}

/// The reference-count round trip: starting from a fresh allocation's single
/// unit, one further acquire followed by two releases ends at zero, the
/// count is still positive after the first release, and the allocation is
/// deallocated exactly once, at the final release.
pub proof fn lemma_refcount_round_trip()
    ensures
        count_after(seq![RefOp::Acquire, RefOp::Release, RefOp::Release], 1) == 0,
        count_after(seq![RefOp::Acquire], 1) == 2,
        count_after(seq![RefOp::Acquire, RefOp::Release], 1) == 1,
        dealloc_events(seq![RefOp::Acquire, RefOp::Release, RefOp::Release], 1) == 1,
{
    let t = seq![RefOp::Acquire, RefOp::Release, RefOp::Release];
    let t2 = seq![RefOp::Release, RefOp::Release];
    let t1 = seq![RefOp::Release];
    let t0 = Seq::<RefOp>::empty();
    assert(t.drop_first() =~= t2);
    assert(t2.drop_first() =~= t1);
    assert(t1.drop_first() =~= t0);
    assert(t[0] is Acquire && t2[0] is Release && t1[0] is Release);
    assert(count_after(t1, 1) == count_after(t0, 0));
    assert(count_after(t0, 0) == 0);
    assert(count_after(t2, 2) == count_after(t1, 1));
    assert(count_after(t, 1) == count_after(t2, 2));
    assert(dealloc_events(t1, 1) == 1 + dealloc_events(t0, 0));
    assert(dealloc_events(t0, 0) == 0);
    assert(dealloc_events(t2, 2) == dealloc_events(t1, 1));
    assert(dealloc_events(t, 1) == dealloc_events(t2, 2));
    let s1 = seq![RefOp::Acquire];
    assert(s1.drop_first() =~= t0);
    assert(s1[0] is Acquire);
    assert(count_after(s1, 1) == count_after(t0, 2));
    let s2 = seq![RefOp::Acquire, RefOp::Release];
    assert(s2.drop_first() =~= t1);
    assert(s2[0] is Acquire);
    assert(count_after(s2, 1) == count_after(t1, 2));
    assert(count_after(t1, 2) == count_after(t0, 1));
}

} // verus!
