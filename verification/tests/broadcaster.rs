use block_mesh::broadcaster::Broadcaster;
use block_mesh::rotation::RotationQueue;

fn node(n: u128) -> (u128, String) {
    (n, format!("10.0.0.{}", n))
}

fn subscribed(count: u128) -> Broadcaster<String> {
    let mut b = Broadcaster::new();
    for n in 0..count {
        let (id, ip) = node(n);
        let _ = b.subscribe(id, ip, 100 + n as u64);
    }
    b
}

#[test]
fn move_queue_rotates_the_front_to_the_back() {
    let mut b = subscribed(5);
    assert_eq!(b.move_queue(2), vec![node(0), node(1)]);
    assert_eq!(b.move_queue(2), vec![node(2), node(3)]);
    assert_eq!(b.move_queue(2), vec![node(4), node(0)]);
    assert_eq!(b.move_queue(5), vec![node(1), node(2), node(3), node(4), node(0)]);
}

#[test]
fn move_queue_caps_the_window_at_the_queue_length() {
    let mut b = subscribed(3);
    assert_eq!(b.move_queue(10), vec![node(0), node(1), node(2)]);
    assert_eq!(b.move_queue(0), vec![]);
    let mut empty = Broadcaster::<String>::default();
    assert_eq!(empty.move_queue(4), vec![]);
}

#[test]
fn rotation_serves_every_node_equally_often() {
    let mut b = subscribed(5);
    let mut seen = vec![0u32; 5];
    for _ in 0..10 {
        let drained = b.move_queue(2);
        assert_eq!(drained.len(), 2);
        assert_ne!(drained[0], drained[1]);
        for (id, _) in drained {
            seen[id as usize] += 1;
        }
    }
    assert_eq!(seen, vec![4, 4, 4, 4, 4]);
    let drained = b.move_queue(2);
    for (id, _) in drained {
        seen[id as usize] += 1;
    }
    // 11 calls * 2 / 5: four or five times each
    assert_eq!(seen, vec![5, 5, 4, 4, 4]);
}

#[test]
fn batch_skips_targets_without_a_socket() {
    let b = subscribed(3);
    let targets = vec![node(2), node(7), node(0), node(2)];
    assert_eq!(b.batch(&targets), vec![102, 100, 102]);
    assert_eq!(b.batch(&[]), Vec::<u64>::new());
}

#[test]
fn subscribing_twice_replaces_the_sink_and_keeps_one_turn() {
    let mut b = subscribed(3);
    let (id, ip) = node(1);
    let (_receiver, replaced) = b.subscribe(id, ip, 999);
    assert_eq!(replaced, Some(101));
    assert_eq!(b.broadcast_to_user(&node(1)), Some(999));
    assert_eq!(b.broadcast_to_user(&node(0)), Some(100));
    // the node is in the rotation once, at its old place
    assert_eq!(b.move_queue(5), vec![node(0), node(1), node(2)]);
    assert_eq!(b.batch(&[node(1)]), vec![999]);
    let (id, ip) = node(7);
    let (_receiver, replaced) = b.subscribe(id, ip, 107);
    assert_eq!(replaced, None);
    assert_eq!(b.move_queue(5), vec![node(0), node(1), node(2), node(7)]);
}

#[test]
fn unsubscribe_drops_socket_and_rotation_entry() {
    let mut b = subscribed(3);
    assert_eq!(b.unsubscribe(1, "10.0.0.1".to_string()), (Some(101), true));
    assert_eq!(b.broadcast_to_user(&node(1)), None);
    assert_eq!(b.move_queue(3), vec![node(0), node(2)]);
    // a second time neither registry nor rotation holds it
    assert_eq!(b.unsubscribe(1, "10.0.0.1".to_string()), (None, false));
    // same user, other address
    assert_eq!(b.unsubscribe(0, "10.0.0.9".to_string()), (None, false));
    assert_eq!(b.broadcast_to_user(&node(0)), Some(100));
}

#[test]
fn queue_multiple_returns_the_window_and_its_sinks() {
    let mut b = subscribed(4);
    assert!(b.unsubscribe(1, "10.0.0.1".to_string()).1);
    let (id, ip) = node(1);
    // back in the rotation, then its socket goes away again
    let _ = b.subscribe(id, ip, 555);
    assert_eq!(b.batch(&[node(1)]), vec![555]);
    let (drained, sinks) = b.queue_multiple(2);
    assert_eq!(drained, vec![node(0), node(2)]);
    assert_eq!(sinks, vec![100, 102]);
    let (drained, sinks) = b.queue_multiple(2);
    assert_eq!(drained, vec![node(3), node(1)]);
    assert_eq!(sinks, vec![103, 555]);
}

#[test]
fn rotation_queue_holds_an_identity_once() {
    let mut q = RotationQueue::new();
    assert!(q.push_back(1, "a".to_string()));
    assert!(q.push_back(2, "b".to_string()));
    assert!(!q.push_back(1, "a".to_string()));
    assert!(q.push_back(1, "b".to_string()));
    assert_eq!(q.len(), 3);
    assert!(q.contains(1, &"a".to_string()));
    assert!(!q.contains(2, &"a".to_string()));
    assert!(q.remove(1, &"a".to_string()));
    assert!(!q.contains(1, &"a".to_string()));
    assert_eq!(q.len(), 2);
    assert_eq!(q.move_queue(1), vec![(2, "b".to_string())]);
    assert_eq!(q.move_queue(2), vec![(1, "b".to_string()), (2, "b".to_string())]);
    assert!(!q.remove(3, &"a".to_string()));
    assert!(q.push_back(1, "a".to_string()));
    assert_eq!(q.move_queue(3), vec![(1, "b".to_string()), (2, "b".to_string()), (1, "a".to_string())]);
}

#[test]
fn broadcast_reaches_every_subscriber_of_the_global_channel() {
    let mut b = Broadcaster::<String>::new();
    // nobody listens: the message comes back
    assert_eq!(b.broadcast("lost".to_string()), Err("lost".to_string()));
    let (mut first, _) = b.subscribe(1, "10.0.0.1".to_string(), 1);
    assert_eq!(b.broadcast("one".to_string()), Ok(1));
    let (mut second, _) = b.subscribe(2, "10.0.0.2".to_string(), 2);
    assert_eq!(b.broadcast("two".to_string()), Ok(2));
    assert_eq!(first.try_recv().unwrap(), "one");
    assert_eq!(first.try_recv().unwrap(), "two");
    assert_eq!(second.try_recv().unwrap(), "two");
    assert!(second.try_recv().is_err());
    drop(first);
    assert_eq!(b.broadcast("three".to_string()), Ok(1));
    drop(second);
    assert_eq!(b.broadcast("four".to_string()), Err("four".to_string()));
}

#[test]
fn long_queue_rotates_by_a_window_of_a_thousand() {
    let mut b = subscribed(50_000);
    let drained = b.move_queue(1_000);
    assert_eq!(drained.len(), 1_000);
    assert_eq!(drained[0], node(0));
    assert_eq!(drained[999], node(999));
    let next = b.move_queue(1_000);
    assert_eq!(next[0], node(1_000));
    assert_eq!(next[999], node(1_999));
    // 48 more windows bring the first node to the front again
    for _ in 0..48 {
        let _ = b.move_queue(1_000);
    }
    assert_eq!(b.move_queue(1)[0], node(0));
}

#[test]
fn entry_deep_in_a_long_queue_is_found_and_removed() {
    let mut b = subscribed(50_000);
    assert_eq!(b.unsubscribe(49_000, "10.0.0.49000".to_string()), (Some(49_100), true));
    assert_eq!(b.unsubscribe(49_000, "10.0.0.49000".to_string()), (None, false));
    assert_eq!(b.broadcast_to_user(&node(49_000)), None);
    let window = b.move_queue(50_000);
    assert_eq!(window.len(), 49_999);
    assert_eq!(window[48_999], node(48_999));
    assert_eq!(window[49_000], node(49_001));
}
