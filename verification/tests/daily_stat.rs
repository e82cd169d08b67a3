use block_mesh::aggregate::{fetch_latest_cron_settings, stored_or_default, AggregateName, AggregateStore};
use block_mesh::daily_stat::{DailyStat, DailyStatStatus, DailyStats};

fn stat(user: u128, day: u32, tasks: u64, uptime: u64) -> DailyStat {
    DailyStat { user_id: user, day, tasks_count: tasks, uptime, status: DailyStatStatus::OnGoing }
}

#[test]
fn roll_up_is_created_on_first_activity() {
    let mut s = DailyStats::new();
    assert_eq!(s.get_daily_stat_of_user(1, 20000), None);
    assert_eq!(s.get_or_create_daily_stat(1, 20000), stat(1, 20000, 0, 0));
    assert_eq!(s.len(), 1);
    assert_eq!(s.get_or_create_daily_stat(1, 20000), stat(1, 20000, 0, 0));
    assert_eq!(s.len(), 1);
    assert_eq!(s.get_or_create_daily_stat(1, 20001), stat(1, 20001, 0, 0));
    assert_eq!(s.get_or_create_daily_stat(2, 20000), stat(2, 20000, 0, 0));
    assert_eq!(s.len(), 3);
}

#[test]
fn activity_adds_up_within_the_day() {
    let mut s = DailyStats::new();
    s.record(1, 20000, 1, 0);
    s.record(1, 20000, 2, 43200);
    s.record(2, 20000, 0, 60);
    s.record(1, 20001, 1, 1);
    assert_eq!(s.get_daily_stat_of_user(1, 20000), Some(stat(1, 20000, 3, 43200)));
    assert_eq!(s.get_daily_stat_of_user(2, 20000), Some(stat(2, 20000, 0, 60)));
    assert_eq!(s.get_daily_stat_of_user(1, 20001), Some(stat(1, 20001, 1, 1)));
    assert_eq!(s.get_daily_stat_of_user(2, 20001), None);
    s.record(1, 20000, u64::MAX, u64::MAX);
    assert_eq!(s.get_daily_stat_of_user(1, 20000), Some(stat(1, 20000, u64::MAX, u64::MAX)));
    assert_eq!(s.len(), 3);
}

#[test]
fn settings_are_the_default_until_one_is_stored() {
    let mut s = AggregateStore::new();
    assert_eq!(fetch_latest_cron_settings(&mut s, 7, 900, 1, 30000), 30000);
    assert_eq!(s.len(), 1);
    let row = s.get(7, AggregateName::CronReports).unwrap();
    assert_eq!((row.id, row.value), (900, None));
    // a stored zero is a setting, not a missing one
    assert!(s.update(900, 0, 2));
    assert_eq!(fetch_latest_cron_settings(&mut s, 7, 901, 3, 30000), 0);
    assert!(s.update(900, 1500, 4));
    assert_eq!(fetch_latest_cron_settings(&mut s, 7, 902, 5, 30000), 1500);
    assert_eq!(s.len(), 1);
}

#[test]
fn stored_setting_wins_over_the_default() {
    assert_eq!(stored_or_default(None, 30000), 30000);
    assert_eq!(stored_or_default(Some(0), 30000), 0);
    assert_eq!(stored_or_default(Some("a".to_string()), "b".to_string()), "a");
    assert_eq!(stored_or_default(None, "b".to_string()), "b");
}
