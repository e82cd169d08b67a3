use block_mesh::task::{Task, TaskStatus};
use block_mesh::assignment::poll_on;
use block_mesh::daily_stat::{DailyStat, DailyStatStatus, DailyStats};
use block_mesh::task_pool::{Polled, TaskPool};

fn task(n: u128) -> Task {
    Task {
        id: n,
        url: format!("https://example.org/{}", n),
        method: "GET".to_string(),
        headers: None,
        body: if n % 2 == 0 { Some("{}".to_string()) } else { None },
    }
}

fn pool(tasks: u128) -> TaskPool {
    let mut p = TaskPool::new();
    for n in 1..=tasks {
        p.add_pending(task(n));
    }
    p
}

#[test]
fn oldest_pending_task_is_assigned_first() {
    let mut p = pool(3);
    assert_eq!(p.find_pending(), Some(task(1)));
    assert_eq!(p.poll(70), Polled::Assigned(task(1)));
    assert_eq!(p.state_at(0), Some((TaskStatus::Assigned, Some(70))));
    assert_eq!(p.state_at(1), Some((TaskStatus::Pending, None)));
    assert_eq!(p.find_pending(), Some(task(2)));
    assert_eq!(p.find_assigned(70), Some(task(1)));
    assert_eq!(p.find_assigned(71), None);
}

#[test]
fn more_pollers_than_tasks_never_share_a_task() {
    // five nodes compete for three pending tasks
    let mut p = pool(3);
    let nodes = [15u128, 11, 14, 12, 13];
    let mut got = Vec::new();
    for node in nodes {
        got.push(p.poll(node));
    }
    assert_eq!(
        got,
        vec![
            Polled::Assigned(task(1)),
            Polled::Assigned(task(2)),
            Polled::Assigned(task(3)),
            Polled::Nothing,
            Polled::Nothing,
        ]
    );
    assert_eq!(p.state_at(0), Some((TaskStatus::Assigned, Some(15))));
    assert_eq!(p.state_at(1), Some((TaskStatus::Assigned, Some(11))));
    assert_eq!(p.state_at(2), Some((TaskStatus::Assigned, Some(14))));
    assert_eq!(p.find_pending(), None);
    assert_eq!(p.len(), 3);
}

#[test]
fn repoll_returns_the_same_task_and_leaves_the_pool() {
    let mut p = pool(2);
    assert_eq!(p.poll(7), Polled::Assigned(task(1)));
    assert_eq!(p.poll(7), Polled::Held(task(1)));
    assert_eq!(p.poll(7), Polled::Held(task(1)));
    // the second task is still pending
    assert_eq!(p.state_at(1), Some((TaskStatus::Pending, None)));
    assert_eq!(p.find_pending(), Some(task(2)));
}

#[test]
fn empty_pool_has_no_task() {
    let mut p = TaskPool::new();
    assert_eq!(p.poll(1), Polled::Nothing);
    assert_eq!(p.find_pending(), None);
    assert_eq!(p.len(), 0);
    assert_eq!(p.state_at(0), None);
}

#[test]
fn finished_task_frees_the_node_for_the_next() {
    let mut p = pool(3);
    assert_eq!(p.poll(7), Polled::Assigned(task(1)));
    assert!(p.finish(7, true));
    assert_eq!(p.state_at(0), Some((TaskStatus::Completed, Some(7))));
    assert_eq!(p.poll(7), Polled::Assigned(task(2)));
    assert!(p.finish(7, false));
    assert_eq!(p.state_at(1), Some((TaskStatus::Failed, Some(7))));
    assert!(!p.finish(8, true));
    assert_eq!(p.poll(7), Polled::Assigned(task(3)));
    assert_eq!(p.poll(8), Polled::Nothing);
}

#[test]
fn assignment_creates_the_roll_up_of_the_day() {
    let mut p = pool(1);
    let mut stats = DailyStats::new();
    let empty = |user| DailyStat {
        user_id: user,
        day: 20000,
        tasks_count: 0,
        uptime: 0,
        status: DailyStatStatus::OnGoing,
    };
    assert_eq!(poll_on(&mut p, &mut stats, 7, 20000), Polled::Assigned(task(1)));
    assert_eq!(stats.get_daily_stat_of_user(7, 20000), Some(empty(7)));
    assert_eq!(p.state_at(0), Some((TaskStatus::Assigned, Some(7))));
    // delivered again: nothing is created, on whatever day
    assert_eq!(poll_on(&mut p, &mut stats, 7, 20001), Polled::Held(task(1)));
    assert_eq!(stats.len(), 1);
    // no task, no roll-up
    assert_eq!(poll_on(&mut p, &mut stats, 8, 20000), Polled::Nothing);
    assert_eq!(stats.get_daily_stat_of_user(8, 20000), None);
    assert_eq!(stats.len(), 1);
    // a roll-up that exists is kept as it is
    stats.record(9, 20000, 4, 60);
    p.add_pending(task(2));
    assert_eq!(poll_on(&mut p, &mut stats, 9, 20000), Polled::Assigned(task(2)));
    assert_eq!(stats.get_daily_stat_of_user(9, 20000).unwrap().tasks_count, 4);
    assert_eq!(stats.len(), 2);
}
