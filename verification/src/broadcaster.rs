//! The broadcaster: the global channel, the socket registry and the fairness
//! rotation. A message for everyone goes out on the global channel. For every
//! other delivery the broadcaster names the sinks it goes to; sending on a
//! sink is left to the caller, who owns the sockets' channels.

use crate::registry::{lookup, no_sockets, registered, table_get, table_insert, table_new, table_remove};
use crate::rotation::{
    entered, keys_of, left, lemma_entered_members, lemma_left_members, lemma_rotated_members,
    rotated, served, NodeKey, RotationQueue,
};
use dashmap::DashMap;
use tokio::sync::broadcast::{channel, Receiver, Sender};
use vstd::prelude::*;

verus! {

#[verifier::external_type_specification]
#[verifier::external_body]
#[verifier::reject_recursive_types(T)]
pub struct ExSender<T>(Sender<T>);

#[verifier::external_type_specification]
#[verifier::external_body]
#[verifier::reject_recursive_types(T)]
pub struct ExReceiver<T>(Receiver<T>);

/// `tokio::sync::broadcast::channel`, of which the sending half is kept: a
/// channel that holds back up to `capacity` messages for a slow subscriber.
/// Nothing is claimed of the channel. The capacity must be above zero and at
/// most half the largest `usize`.
#[verifier::external_body]
fn open_channel<M: Clone>(capacity: usize) -> (transmitter: Sender<M>)
    requires
        0 < capacity <= usize::MAX / 2,
{
    channel(capacity).0
}

/// `Sender::send`: the number of subscribers that the message went out to,
/// which is one at least; or, when nobody is subscribed, the message back.
#[verifier::external_body]
fn send_to_all<M>(transmitter: &Sender<M>, message: M) -> (sent: Result<usize, M>)
    ensures
        match sent {
            Ok(subscribers) => subscribers >= 1,
            Err(back) => back == message,
        },
{
    transmitter.send(message).map_err(|error| error.0)
}

/// `Sender::subscribe`: a new receiving end of the channel. Nothing is
/// claimed of it.
#[verifier::external_body]
fn new_receiver<M>(transmitter: &Sender<M>) -> (receiver: Receiver<M>) {
    transmitter.subscribe()
}

/// How many messages the global channel holds back for a slow subscriber.
pub const GLOBAL_BACKLOG: usize = 10000;

/// The sinks of those `targets` that are registered in `sockets`, in the order
/// of the targets. A target without a socket contributes nothing.
pub open spec fn sinks_for(sockets: Map<NodeKey, u64>, targets: Seq<NodeKey>) -> Seq<u64>
    decreases targets.len(),
{
    if targets.len() == 0 {
        Seq::empty()
    } else {
        let rest = sinks_for(sockets, targets.drop_last());
        match lookup(sockets, targets.last()) {
            Some(sink) => rest.push(sink),
            None => rest,
        }
    }
}

/// The identities that hold a socket are the identities in the rotation:
/// whoever is connected gets a turn, and nobody else does.
pub open spec fn same_identities(sockets: Map<NodeKey, u64>, rotation: Seq<NodeKey>) -> bool {
    forall|key: NodeKey| sockets.dom().contains(key) <==> rotation.contains(key)
}

/// The global channel for messages of type `M`, the registry of live sockets
/// and the rotation of their identities.
#[verifier::reject_recursive_types(M)]
pub struct Broadcaster<M> {
    global_transmitter: Sender<M>,
    sockets: DashMap<(u128, String), u64>,
    queue: RotationQueue,
}

impl<M: Clone> Broadcaster<M> {
    /// The registry: the sink of every identity that holds a live socket.
    pub closed spec fn sockets(&self) -> Map<NodeKey, u64> {
        registered(self.sockets)
    }

    /// The rotation, front first.
    pub closed spec fn rotation(&self) -> Seq<NodeKey> {
        self.queue@
    }

    /// Registry and rotation fit together: they hold the same identities. A
    /// new broadcaster is consistent and every operation keeps it so.
    pub open spec fn consistent(&self) -> bool {
        same_identities(self.sockets(), self.rotation())
    }

    /// A broadcaster to which nobody is subscribed.
    pub fn new() -> (broadcaster: Broadcaster<M>)
        ensures
            broadcaster.sockets() == no_sockets(),
            broadcaster.rotation() == Seq::<NodeKey>::empty(),
            broadcaster.rotation().no_duplicates(),
            broadcaster.consistent(),
    {
        Broadcaster {
            global_transmitter: open_channel(GLOBAL_BACKLOG),
            sockets: table_new(),
            queue: RotationQueue::new(),
        }
    }

    /// Publishes a message on the global channel. Returns the number of
    /// subscribers it went out to, or the message itself when nobody is
    /// subscribed to the channel. Registry and rotation play no part.
    pub fn broadcast(&self, message: M) -> (sent: Result<usize, M>)
        ensures
            match sent {
                Ok(subscribers) => subscribers >= 1,
                Err(back) => back == message,
            },
    {
        send_to_all(&self.global_transmitter, message)
    }

    /// Registers the sink of a node and lets the node enter the rotation: at
    /// the back if it is new, while a node that subscribes again keeps its
    /// place in the rotation and has its sink replaced. Returns a new
    /// receiving end of the global channel and the sink that was replaced.
    pub fn subscribe(&mut self, user_id: u128, ip: String, sink: u64) -> (subscription: (
        Receiver<M>,
        Option<u64>,
    ))
        ensures
            final(self).sockets() == old(self).sockets().insert((user_id, ip@), sink),
            final(self).rotation() == entered(old(self).rotation(), (user_id, ip@)),
            subscription.1 == lookup(old(self).sockets(), (user_id, ip@)),
            final(self).rotation().no_duplicates(),
            old(self).consistent() ==> final(self).consistent(),
    {
        let replaced = table_insert(&mut self.sockets, user_id, ip.clone(), sink);
        let _ = self.queue.push_back(user_id, ip);
        proof {
            lemma_entered_members(old(self).rotation(), (user_id, ip@));
            if old(self).consistent() {
                assert forall|key: NodeKey|
                    self.sockets().dom().contains(key) <==> self.rotation().contains(key) by {
                    assert(old(self).sockets().dom().contains(key) <==> old(self).rotation().contains(
                        key,
                    ));
                }
            }
        }
        (new_receiver(&self.global_transmitter), replaced)
    }

    /// Drops the socket of a node and lets the node leave the rotation.
    /// Returns the sink that the node held, and whether the rotation held the
    /// node; a miss is for the caller to report.
    pub fn unsubscribe(&mut self, user_id: u128, ip: String) -> (gone: (Option<u64>, bool))
        ensures
            final(self).sockets() == old(self).sockets().remove((user_id, ip@)),
            final(self).rotation() == left(old(self).rotation(), (user_id, ip@)),
            gone.0 == lookup(old(self).sockets(), (user_id, ip@)),
            gone.1 == old(self).rotation().contains((user_id, ip@)),
            !final(self).rotation().contains((user_id, ip@)),
            final(self).rotation().no_duplicates(),
            old(self).consistent() ==> final(self).consistent(),
    {
        let key = (user_id, ip);
        let sink = table_remove(&mut self.sockets, &key);
        let found = self.queue.remove(user_id, &key.1);
        proof {
            if old(self).consistent() {
                let before = old(self).rotation();
                lemma_left_members(before, (user_id, key.1@));
                assert forall|other: NodeKey|
                    self.sockets().dom().contains(other) <==> self.rotation().contains(other) by {
                    assert(old(self).sockets().dom().contains(other) <==> before.contains(other));
                }
            }
        }
        (sink, found)
    }

    /// The sinks to which a message for `targets` goes: one for each target
    /// that still holds a socket, in the order of the targets.
    pub fn batch(&self, targets: &[(u128, String)]) -> (sinks: Vec<u64>)
        ensures
            sinks@ == sinks_for(self.sockets(), keys_of(targets@)),
    {
        let mut sinks: Vec<u64> = Vec::new();
        let n = targets.len();
        let mut i: usize = 0;
        while i < n
            invariant
                i <= n,
                n == targets@.len(),
                sinks@ == sinks_for(self.sockets(), keys_of(targets@).subrange(0, i as int)),
            decreases n - i,
        {
            let ghost keys = keys_of(targets@);
            assert(keys.subrange(0, i + 1).drop_last() == keys.subrange(0, i as int));
            assert(keys.subrange(0, i + 1).last() == (targets@[i as int].0, targets@[i as int].1@));
            match table_get(&self.sockets, &targets[i]) {
                Some(sink) => {
                    sinks.push(sink);
                },
                None => {},
            }
            i += 1;
        }
        assert(keys_of(targets@).subrange(0, n as int) == keys_of(targets@));
        sinks
    }

    /// Rotates the queue by up to `count` entries and returns the identities
    /// that were at its front: the nodes that are due in this cycle.
    pub fn move_queue(&mut self, count: usize) -> (drained: Vec<(u128, String)>)
        ensures
            keys_of(drained@) == served(old(self).rotation(), count as nat),
            final(self).rotation() == rotated(old(self).rotation(), count as nat),
            final(self).sockets() == old(self).sockets(),
            final(self).rotation().no_duplicates(),
            old(self).consistent() ==> final(self).consistent(),
    {
        let drained = self.queue.move_queue(count);
        proof {
            lemma_rotated_members(old(self).rotation(), count as nat);
            if old(self).consistent() {
                assert forall|key: NodeKey|
                    self.sockets().dom().contains(key) <==> self.rotation().contains(key) by {
                    assert(old(self).sockets().dom().contains(key) <==> old(self).rotation().contains(
                        key,
                    ));
                }
            }
        }
        drained
    }

    /// The sink of one node, if it holds a socket.
    pub fn broadcast_to_user(&self, id: &(u128, String)) -> (sink: Option<u64>)
        ensures
            sink == lookup(self.sockets(), (id.0, id.1@)),
    {
        table_get(&self.sockets, id)
    }

    /// Rotates the queue by up to `count` entries and returns the identities
    /// served together with the sinks of those among them that hold a socket.
    pub fn queue_multiple(&mut self, count: usize) -> (delivery: (Vec<(u128, String)>, Vec<u64>))
        ensures
            keys_of(delivery.0@) == served(old(self).rotation(), count as nat),
            delivery.1@ == sinks_for(
                old(self).sockets(),
                served(old(self).rotation(), count as nat),
            ),
            final(self).rotation() == rotated(old(self).rotation(), count as nat),
            final(self).sockets() == old(self).sockets(),
            final(self).rotation().no_duplicates(),
            old(self).consistent() ==> final(self).consistent(),
    {
        let drained = self.move_queue(count);
        let sinks = self.batch(drained.as_slice());
        (drained, sinks)
    }
}

impl<M: Clone> Default for Broadcaster<M> {
    fn default() -> (broadcaster: Broadcaster<M>)
        ensures
            broadcaster.sockets() == no_sockets(),
            broadcaster.rotation() == Seq::<NodeKey>::empty(),
            broadcaster.rotation().no_duplicates(),
            broadcaster.consistent(),
    {
        Broadcaster::new()
    }
}

} // verus!
