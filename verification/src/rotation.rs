//! The fairness rotation: a FIFO of node identities from whose front a
//! bounded window is served on every cycle and re-appended at the back. An
//! identity is in the rotation at most once.

use std::collections::VecDeque;
use vstd::prelude::*;

verus! {

/// A node identity as contracts see it: the user id and the characters of the
/// address the node connected from.
pub type NodeKey = (u128, Seq<char>);

/// The identities that a vector of nodes denotes, in order.
pub open spec fn keys_of(nodes: Seq<(u128, String)>) -> Seq<NodeKey> {
    Seq::new(nodes.len(), |i: int| (nodes[i].0, nodes[i].1@))
}

/// The length of the window that a request for `count` entries yields on a
/// queue of `len` entries.
pub open spec fn window(len: nat, count: nat) -> nat {
    if count <= len {
        count
    } else {
        len
    }
}

/// The entries served by one rotation: the first `window` entries.
pub open spec fn served<A>(queue: Seq<A>, count: nat) -> Seq<A> {
    queue.subrange(0, window(queue.len(), count) as int)
}

/// The queue after one rotation: the served entries moved, in order, behind
/// the rest.
pub open spec fn rotated<A>(queue: Seq<A>, count: nat) -> Seq<A> {
    let k = window(queue.len(), count) as int;
    queue.subrange(k, queue.len() as int) + queue.subrange(0, k)
}

/// `i` is the first position of `queue` that holds `key`.
pub open spec fn is_first_position<A>(queue: Seq<A>, key: A, i: int) -> bool {
    &&& 0 <= i < queue.len()
    &&& queue[i] == key
    &&& forall|j: int| 0 <= j < i ==> queue[j] != key
}

/// A rotation keeps every entry of the queue.
pub proof fn lemma_rotated_keeps_entries<A>(queue: Seq<A>, count: nat, x: A)
    requires
        queue.contains(x),
    ensures
        rotated(queue, count).contains(x),
{
    let k = window(queue.len(), count) as int;
    let j = choose|j: int| 0 <= j < queue.len() && queue[j] == x;
    let after = rotated(queue, count);
    if j >= k {
        assert(after[j - k] == x);
    } else {
        assert(after[queue.len() - k + j] == x);
    }
}

/// Removing one entry keeps every entry that differs from it.
pub proof fn lemma_remove_keeps_others<A>(queue: Seq<A>, i: int, x: A)
    requires
        0 <= i < queue.len(),
        queue.contains(x),
        queue[i] != x,
    ensures
        queue.remove(i).contains(x),
{
    let j = choose|j: int| 0 <= j < queue.len() && queue[j] == x;
    let after = queue.remove(i);
    if j < i {
        assert(after[j] == x);
    } else {
        assert(after[j - 1] == x);
    }
}

/// The queue once `key` has entered it: an identity is in the rotation at most
/// once, so one that is there keeps its place, and a new one goes to the back.
pub open spec fn entered<A>(queue: Seq<A>, key: A) -> Seq<A> {
    if queue.contains(key) {
        queue
    } else {
        queue.push(key)
    }
}

/// The queue once `key` has left it: without its first entry for `key`, which
/// in a queue without duplicates is its only one. A queue that does not hold
/// `key` stays as it is.
pub open spec fn left<A>(queue: Seq<A>, key: A) -> Seq<A> {
    if queue.contains(key) {
        queue.remove(choose|i: int| is_first_position(queue, key, i))
    } else {
        queue
    }
}

/// Leaving at the first position: where `i` is the first position of `key`,
/// `left` removes the entry at `i`. In a queue without duplicates `key` is
/// gone afterwards and there are no duplicates afterwards either.
pub proof fn lemma_left_at<A>(queue: Seq<A>, key: A, i: int)
    requires
        is_first_position(queue, key, i),
    ensures
        left(queue, key) == queue.remove(i),
        queue.no_duplicates() ==> !queue.remove(i).contains(key) && queue.remove(
            i,
        ).no_duplicates(),
{
    assert(queue.contains(key));
    let c = choose|c: int| is_first_position(queue, key, c);
    assert(c == i) by {
        if c < i {
            assert(queue[c] != key);
        } else if i < c {
            assert(queue[i] != key);
        }
    }
    let after = queue.remove(i);
    if queue.no_duplicates() {
        if after.contains(key) {
            let j = choose|j: int| 0 <= j < after.len() && after[j] == key;
            if j < i {
                assert(queue[j] == key);
            } else {
                assert(queue[j + 1] == key);
            }
        }
        assert forall|a: int, b: int|
            0 <= a < after.len() && 0 <= b < after.len() && a != b implies after[a] != after[b] by {
            let qa = if a < i {
                a
            } else {
                a + 1
            };
            let qb = if b < i {
                b
            } else {
                b + 1
            };
            assert(after[a] == queue[qa] && after[b] == queue[qb]);
        }
    }
}

/// An entry that holds `key` has a first one.
pub proof fn lemma_first_position_exists<A>(queue: Seq<A>, key: A, at: int)
    requires
        0 <= at < queue.len(),
        queue[at] == key,
    ensures
        exists|i: int| is_first_position(queue, key, i),
    decreases at,
{
    if exists|j: int| 0 <= j < at && queue[j] == key {
        let j = choose|j: int| 0 <= j < at && queue[j] == key;
        lemma_first_position_exists(queue, key, j);
    } else {
        assert(is_first_position(queue, key, at));
    }
}

/// Who is in the queue after `key` has entered: `key` and whoever was.
pub proof fn lemma_entered_members<A>(queue: Seq<A>, key: A)
    ensures
        forall|x: A| #[trigger] entered(queue, key).contains(x) <==> (queue.contains(x) || x == key),
        queue.no_duplicates() ==> entered(queue, key).no_duplicates(),
{
    let after = entered(queue, key);
    assert forall|x: A| #[trigger] after.contains(x) <==> (queue.contains(x) || x == key) by {
        if !queue.contains(key) {
            if after.contains(x) {
                let j = choose|j: int| 0 <= j < after.len() && after[j] == x;
                if j < queue.len() {
                    assert(queue[j] == x);
                }
            }
            if queue.contains(x) {
                let j = choose|j: int| 0 <= j < queue.len() && queue[j] == x;
                assert(after[j] == x);
            }
            if x == key {
                assert(after[queue.len() as int] == x);
            }
        }
    }
    if queue.no_duplicates() && !queue.contains(key) {
        assert forall|a: int, b: int|
            0 <= a < after.len() && 0 <= b < after.len() && a != b implies after[a] != after[b] by {
            if a < queue.len() && b < queue.len() {
                assert(after[a] == queue[a] && after[b] == queue[b]);
            } else if a < queue.len() {
                assert(queue[a] != key);
            } else {
                assert(queue[b] != key);
            }
        }
    }
}

/// Who is in a duplicate-free queue after `key` has left: whoever was, but
/// for `key`; and the queue is still free of duplicates.
pub proof fn lemma_left_members<A>(queue: Seq<A>, key: A)
    requires
        queue.no_duplicates(),
    ensures
        left(queue, key).no_duplicates(),
        forall|x: A| #[trigger] left(queue, key).contains(x) <==> (queue.contains(x) && x != key),
{
    let after = left(queue, key);
    if queue.contains(key) {
        let at = choose|j: int| 0 <= j < queue.len() && queue[j] == key;
        lemma_first_position_exists(queue, key, at);
        let i = choose|i: int| is_first_position(queue, key, i);
        lemma_left_at(queue, key, i);
        assert forall|x: A| #[trigger] after.contains(x) <==> (queue.contains(x) && x != key) by {
            if after.contains(x) {
                let j = choose|j: int| 0 <= j < after.len() && after[j] == x;
                if j < i {
                    assert(queue[j] == x);
                } else {
                    assert(queue[j + 1] == x);
                }
            }
            if queue.contains(x) && x != key {
                lemma_remove_keeps_others(queue, i, x);
            }
        }
    }
}

/// Who is in the queue after a rotation: whoever was.
pub proof fn lemma_rotated_members<A>(queue: Seq<A>, count: nat)
    ensures
        forall|x: A| #[trigger] rotated(queue, count).contains(x) <==> queue.contains(x),
{
    let after = rotated(queue, count);
    let k = window(queue.len(), count) as int;
    assert forall|x: A| #[trigger] after.contains(x) <==> queue.contains(x) by {
        if queue.contains(x) {
            lemma_rotated_keeps_entries(queue, count, x);
        }
        if after.contains(x) {
            let j = choose|j: int| 0 <= j < after.len() && after[j] == x;
            if j < queue.len() - k {
                assert(queue[j + k] == x);
            } else {
                assert(queue[j - (queue.len() - k)] == x);
            }
        }
    }
}

/// A rotation only reorders the queue: it brings in no duplicates.
pub proof fn lemma_rotated_distinct<A>(queue: Seq<A>, count: nat)
    requires
        queue.no_duplicates(),
    ensures
        rotated(queue, count).no_duplicates(),
        rotated(queue, count).len() == queue.len(),
{
}

/// Rotation queue of node identities. An identity is in the queue at most
/// once.
pub struct RotationQueue {
    entries: VecDeque<(u128, String)>,
}

impl View for RotationQueue {
    type V = Seq<NodeKey>;

    closed spec fn view(&self) -> Seq<NodeKey> {
        keys_of(self.entries@)
    }
}

impl RotationQueue {
    #[verifier::type_invariant]
    spec fn distinct(self) -> bool {
        keys_of(self.entries@).no_duplicates()
    }

    /// An empty rotation.
    pub fn new() -> (queue: RotationQueue)
        ensures
            queue@ == Seq::<NodeKey>::empty(),
            queue@.no_duplicates(),
    {
        RotationQueue { entries: VecDeque::new() }
    }

    /// Number of entries in the rotation, each of them another identity.
    pub fn len(&self) -> (n: usize)
        ensures
            n == self@.len(),
            self@.no_duplicates(),
    {
        proof {
            use_type_invariant(self);
        }
        self.entries.len()
    }

    fn position(&self, user_id: u128, address: &String) -> (found: Option<usize>)
        ensures
            match found {
                Some(i) => is_first_position(self@, (user_id, address@), i as int),
                None => !self@.contains((user_id, address@)),
            },
    {
        let n = self.entries.len();
        let mut i: usize = 0;
        while i < n
            invariant
                i <= n,
                n == self.entries@.len(),
                forall|j: int| 0 <= j < i ==> self@[j] != (user_id, address@),
            decreases n - i,
        {
            let entry = &self.entries[i];
            if entry.0 == user_id && entry.1 == *address {
                assert(self@[i as int] == (user_id, address@));
                return Some(i);
            }
            i += 1;
        }
        None
    }

    /// Whether the identity is in the rotation.
    pub fn contains(&self, user_id: u128, address: &String) -> (found: bool)
        ensures
            found == self@.contains((user_id, address@)),
    {
        self.position(user_id, address).is_some()
    }

    /// Lets an identity enter the rotation: at the back, unless it is in the
    /// rotation already, where it keeps its place. Says whether it was new.
    pub fn push_back(&mut self, user_id: u128, address: String) -> (added: bool)
        ensures
            final(self)@ == entered(old(self)@, (user_id, address@)),
            added == !old(self)@.contains((user_id, address@)),
            old(self)@.no_duplicates(),
            final(self)@.no_duplicates(),
    {
        proof {
            use_type_invariant(&*self);
        }
        if self.position(user_id, &address).is_some() {
            return false;
        }
        let ghost before = self.entries@;
        let ghost key: NodeKey = (user_id, address@);
        assert(keys_of(before.push((user_id, address))) =~= keys_of(before).push(key));
        assert(keys_of(before).push(key).no_duplicates()) by {
            let pushed = keys_of(before).push(key);
            assert forall|a: int, b: int|
                0 <= a < pushed.len() && 0 <= b < pushed.len() && a != b implies pushed[a]
                != pushed[b] by {
                if a < before.len() && b < before.len() {
                    assert(pushed[a] == keys_of(before)[a] && pushed[b] == keys_of(before)[b]);
                } else if a < before.len() {
                    assert(keys_of(before)[a] != key);
                } else {
                    assert(keys_of(before)[b] != key);
                }
            }
        }
        let mut entries: VecDeque<(u128, String)> = VecDeque::new();
        std::mem::swap(&mut self.entries, &mut entries);
        entries.push_back((user_id, address));
        self.entries = entries;
        true
    }

    /// Lets an identity leave the rotation, and says whether it was there.
    pub fn remove(&mut self, user_id: u128, address: &String) -> (found: bool)
        ensures
            final(self)@ == left(old(self)@, (user_id, address@)),
            found == old(self)@.contains((user_id, address@)),
            !final(self)@.contains((user_id, address@)),
            old(self)@.no_duplicates(),
            final(self)@.no_duplicates(),
    {
        let ghost key: NodeKey = (user_id, address@);
        let ghost before = self.entries@;
        proof {
            use_type_invariant(&*self);
        }
        match self.position(user_id, address) {
            Some(i) => {
                proof {
                    lemma_left_at(keys_of(before), key, i as int);
                    assert(keys_of(before.remove(i as int)) =~= keys_of(before).remove(i as int));
                }
                let mut entries: VecDeque<(u128, String)> = VecDeque::new();
                std::mem::swap(&mut self.entries, &mut entries);
                let _ = entries.remove(i);
                self.entries = entries;
                true
            },
            None => false,
        }
    }

    /// Serves the window: takes up to `count` identities from the front and
    /// re-appends them at the back in the same order. Returns the identities
    /// served.
    pub fn move_queue(&mut self, count: usize) -> (drained: Vec<(u128, String)>)
        ensures
            keys_of(drained@) == served(old(self)@, count as nat),
            final(self)@ == rotated(old(self)@, count as nat),
            old(self)@.no_duplicates(),
            final(self)@.no_duplicates(),
    {
        proof {
            use_type_invariant(&*self);
        }
        let mut entries: VecDeque<(u128, String)> = VecDeque::new();
        std::mem::swap(&mut self.entries, &mut entries);
        let ghost start = keys_of(entries@);
        let n = entries.len();
        let k = if count <= n {
            count
        } else {
            n
        };
        let mut drained: Vec<(u128, String)> = Vec::new();
        let mut i: usize = 0;
        while i < k
            invariant
                i <= k <= n,
                n == start.len(),
                n == entries@.len(),
                keys_of(entries@) == start.subrange(i as int, n as int) + start.subrange(
                    0,
                    i as int,
                ),
                keys_of(drained@) == start.subrange(0, i as int),
            decreases k - i,
        {
            let ghost queue_before = entries@;
            assert(keys_of(queue_before)[0] == start[i as int]);
            match entries.pop_front() {
                Some(entry) => {
                    let copy = (entry.0, entry.1.clone());
                    entries.push_back(entry);
                    drained.push(copy);
                    assert(keys_of(queue_before)[0] == (entry.0, entry.1@));
                    let ghost target = start.subrange(i + 1, n as int) + start.subrange(0, i + 1);
                    assert forall|j: int| 0 <= j < n implies #[trigger] keys_of(entries@)[j]
                        == target[j] by {
                        if j < n - 1 {
                            assert(entries@[j] == queue_before[j + 1]);
                            assert(keys_of(entries@)[j] == keys_of(queue_before)[j + 1]);
                        } else {
                            assert(entries@[j] == entry);
                        }
                    }
                    assert(keys_of(entries@) == target);
                    assert(keys_of(drained@) == start.subrange(0, i + 1));
                },
                None => {
                    assert(false);
                },
            }
            i += 1;
        }
        proof {
            assert(start.subrange(0, n as int) == start);
            lemma_rotated_distinct(start, count as nat);
        }
        self.entries = entries;
        drained
    }
}

} // verus!
