//! Why the rotation is fair: over any number of cycles every identity in the
//! queue is served the same number of times, give or take one.

use crate::rotation::{rotated, served};
use vstd::prelude::*;

verus! {

/// The queue after `calls` rotations by `count`.
pub open spec fn queue_after<A>(queue: Seq<A>, count: nat, calls: nat) -> Seq<A>
    decreases calls,
{
    if calls == 0 {
        queue
    } else {
        rotated(queue_after(queue, count, (calls - 1) as nat), count)
    }
}

/// How often `x` occurs in `s`.
pub open spec fn occurrences<A>(s: Seq<A>, x: A) -> nat
    decreases s.len(),
{
    if s.len() == 0 {
        0
    } else {
        occurrences(s.drop_last(), x) + if s.last() == x {
            1nat
        } else {
            0nat
        }
    }
}

/// How often `x` was served in the first `calls` rotations by `count`.
pub open spec fn times_served<A>(queue: Seq<A>, count: nat, calls: nat, x: A) -> nat
    decreases calls,
{
    if calls == 0 {
        0
    } else {
        times_served(queue, count, (calls - 1) as nat, x) + occurrences(
            served(queue_after(queue, count, (calls - 1) as nat), count),
            x,
        )
    }
}

/// How many of the numbers below `m` leave the remainder `i` modulo `k`.
spec fn hits(i: int, m: nat, k: int) -> nat
    decreases m,
{
    if m == 0 {
        0
    } else {
        hits(i, (m - 1) as nat, k) + if (m - 1) % k == i {
            1nat
        } else {
            0nat
        }
    }
}

proof fn lemma_hits_closed_form(i: int, m: nat, k: int)
    requires
        0 <= i < k,
    ensures
        hits(i, m, k) == (m + k - 1 - i) / k,
    decreases m,
{
    if m == 0 {
        assert((k - 1 - i) / k == 0) by (nonlinear_arith)
            requires
                0 <= i < k,
        ;
    } else {
        lemma_hits_closed_form(i, (m - 1) as nat, k);
        let a = m - 1 + k - 1 - i;
        assert((a + 1) / k == a / k + if (m - 1) % k == i {
            1int
        } else {
            0int
        }) by (nonlinear_arith)
            requires
                0 <= i < k,
                m >= 1,
                a == m - 1 + k - 1 - i,
        ;
    }
}

/// After a rotation by `count <= len`, position `t` holds what position
/// `(t + count) % len` held.
proof fn lemma_rotated_index<A>(queue: Seq<A>, count: nat, t: int)
    requires
        count <= queue.len(),
        0 <= t < queue.len(),
    ensures
        rotated(queue, count).len() == queue.len(),
        rotated(queue, count)[t] == queue[(t + count) % (queue.len() as int)],
{
    let k = queue.len() as int;
    let n = count as int;
    if t + n < k {
        assert((t + n) % k == t + n) by (nonlinear_arith)
            requires
                0 <= t + n < k,
        ;
    } else {
        assert((t + n) % k == t + n - k) by (nonlinear_arith)
            requires
                k <= t + n < 2 * k,
        ;
    }
}

proof fn lemma_queue_after_index<A>(queue: Seq<A>, count: nat, calls: nat, t: int)
    requires
        count <= queue.len(),
        0 <= t < queue.len(),
    ensures
        queue_after(queue, count, calls).len() == queue.len(),
        queue_after(queue, count, calls)[t] == queue[(calls * count + t) % (queue.len() as int)],
    decreases calls,
{
    let k = queue.len() as int;
    let n = count as int;
    if calls == 0 {
        assert(0 * count == 0) by (nonlinear_arith);
        assert(t % k == t) by (nonlinear_arith)
            requires
                0 <= t < k,
        ;
    } else {
        let prev = queue_after(queue, count, (calls - 1) as nat);
        lemma_queue_after_index(queue, count, (calls - 1) as nat, 0);
        lemma_rotated_index(prev, count, t);
        let u = (t + n) % k;
        assert(0 <= u < k && ((calls - 1) * n + u) % k == (calls * n + t) % k) by (nonlinear_arith)
            requires
                u == (t + n) % k,
                0 <= t < k,
                0 <= n <= k,
                calls >= 1,
        ;
        lemma_queue_after_index(queue, count, (calls - 1) as nat, u);
    }
}

/// In a window that starts `base` steps into the cycle of a duplicate-free
/// queue, the entry of position `i` occurs once for every step that lands on
/// `i`.
proof fn lemma_window_occurrences<A>(queue: Seq<A>, s: Seq<A>, base: nat, len: nat, i: int)
    requires
        queue.no_duplicates(),
        0 <= i < queue.len(),
        len <= s.len(),
        forall|t: int|
            0 <= t < len ==> #[trigger] s[t] == queue[(base + t) % (queue.len() as int)],
    ensures
        occurrences(s.subrange(0, len as int), queue[i]) + hits(i, base, queue.len() as int)
            == hits(i, base + len, queue.len() as int),
    decreases len,
{
    let k = queue.len() as int;
    if len == 0 {
    } else {
        let shorter = (len - 1) as nat;
        lemma_window_occurrences(queue, s, base, shorter, i);
        let w = s.subrange(0, len as int);
        assert(w.drop_last() == s.subrange(0, shorter as int));
        assert(w.last() == s[len - 1]);
        let j = (base + len - 1) % k;
        assert(0 <= j < k) by (nonlinear_arith)
            requires
                j == (base + len - 1) % k,
                k > 0,
        ;
        assert(s[len - 1] == queue[j]);
        assert((queue[j] == queue[i]) == (j == i));
    }
}

proof fn lemma_times_served_is_hits<A>(queue: Seq<A>, count: nat, calls: nat, i: int)
    requires
        queue.no_duplicates(),
        0 <= i < queue.len(),
        count <= queue.len(),
    ensures
        times_served(queue, count, calls, queue[i]) == hits(
            i,
            calls * count,
            queue.len() as int,
        ),
    decreases calls,
{
    if calls == 0 {
        assert(0 * count == 0) by (nonlinear_arith);
    } else {
        let before = (calls - 1) as nat;
        lemma_times_served_is_hits(queue, count, before, i);
        let s = queue_after(queue, count, before);
        assert forall|t: int| 0 <= t < count implies #[trigger] s[t] == queue[(before * count
            + t) % (queue.len() as int)] by {
            lemma_queue_after_index(queue, count, before, t);
        }
        lemma_queue_after_index(queue, count, before, 0);
        lemma_window_occurrences(queue, s, before * count, count, i);
        assert(before * count + count == calls * count) by (nonlinear_arith)
            requires
                before == calls - 1,
        ;
    }
}

/// A rotation only reorders the queue: it introduces no duplicates.
pub proof fn lemma_rotation_keeps_distinct<A>(queue: Seq<A>, count: nat, calls: nat)
    requires
        queue.no_duplicates(),
    ensures
        queue_after(queue, count, calls).no_duplicates(),
        queue_after(queue, count, calls).len() == queue.len(),
        served(queue_after(queue, count, calls), count).no_duplicates(),
    decreases calls,
{
    if calls > 0 {
        lemma_rotation_keeps_distinct(queue, count, (calls - 1) as nat);
    }
}

/// Fair rotation. In a duplicate-free queue of `K` identities that is rotated
/// `calls` times by a window of `count < K`, every identity has been served
/// either the floor or the ceiling of `calls * count / K` times, and within
/// one window no identity occurs twice.
pub proof fn lemma_rotation_is_fair<A>(queue: Seq<A>, count: nat, calls: nat, x: A)
    requires
        queue.no_duplicates(),
        queue.contains(x),
        count < queue.len(),
    ensures
        times_served(queue, count, calls, x) == (calls * count) / queue.len() || times_served(
            queue,
            count,
            calls,
            x,
        ) == (calls * count + queue.len() - 1) / (queue.len() as int),
        (calls * count) / queue.len() <= times_served(queue, count, calls, x) <= (calls * count
            + queue.len() - 1) / (queue.len() as int),
        occurrences(served(queue_after(queue, count, calls), count), x) <= 1,
{
    let k = queue.len() as int;
    let i = choose|i: int| 0 <= i < queue.len() && queue[i] == x;
    let m = calls * count;
    lemma_times_served_is_hits(queue, count, calls, i);
    lemma_hits_closed_form(i, m, k);
    assert(m / (k as nat) == (m as int) / k);
    assert((m as int) / k <= (m + k - 1 - i) / k <= (m + k - 1) / k && (m + k - 1) / k <= (
    m as int) / k + 1) by (nonlinear_arith)
        requires
            0 <= i < k,
            m >= 0,
    ;
    // one window holds `x` at most once
    lemma_times_served_is_hits(queue, count, calls + 1, i);
    lemma_hits_closed_form(i, (calls + 1) * count, k);
    assert((calls + 1) * count == m + count) by (nonlinear_arith)
        requires
            m == calls * count,
    ;
    assert((m + count + k - 1 - i) / k <= (m + k - 1 - i) / k + 1) by (nonlinear_arith)
        requires
            0 <= i < k,
            0 <= count < k,
            m >= 0,
    ;
}

} // verus!
