use block_mesh::admission::{add_capped, commit, let_through, mul_capped, quota_expiry, reserve, verdict_under};
use block_mesh::admission::{FailurePolicy, Quota, QuotaError, RateWindow};
use block_mesh::error::{ApiError, Lookup};
use block_mesh::get_task::{
    effective_address, next_action, GetTaskAction, GetTaskAnswers, GetTaskConfig, GetTaskRequest,
    QuotaUpdate, UserRecord,
};
use block_mesh::task::Task;
use block_mesh::task_pool::Polled;

fn task(n: u128) -> Task {
    Task { id: n, url: "u".to_string(), method: "POST".to_string(), headers: Some("{}".to_string()), body: None }
}

fn config(task_limit: bool, rate_limit: bool) -> GetTaskConfig {
    GetTaskConfig {
        task_limit,
        rate_limit,
        limiter_failure: FailurePolicy::Closed,
        limit: 10,
        task_bonus: 0,
        expire: 60,
    }
}

fn request() -> GetTaskRequest {
    GetTaskRequest { email: "a@b.c".to_string(), api_token: 42, address: Some("1.2.3.4".to_string()) }
}

fn reply(r: Result<Option<Task>, ApiError>) -> GetTaskAction {
    GetTaskAction::Reply { reply: r, quota: None }
}

const USER: UserRecord = UserRecord { user_id: 9, token: 42 };

#[test]
fn protocol_runs_in_order() {
    let c = config(true, true);
    let r = request();
    let mut a = GetTaskAnswers::new();
    assert_eq!(next_action(&c, &r, &a), GetTaskAction::FetchQuota { api_token: 42 });
    a.quota = Some(Some(3));
    assert_eq!(
        next_action(&c, &r, &a),
        GetTaskAction::CheckRateLimit { api_token: 42, address: "1.2.3.4".to_string() }
    );
    a.rate = Some(Some(true));
    assert_eq!(next_action(&c, &r, &a), GetTaskAction::FindUser { email: "a@b.c".to_string() });
    a.user = Some(Lookup::Found(USER));
    assert_eq!(next_action(&c, &r, &a), GetTaskAction::Poll { user_id: 9 });
    a.polled = Some(Some(Polled::Assigned(task(5))));
    assert_eq!(next_action(&c, &r, &a), GetTaskAction::RefreshQuota { api_token: 42 });
    a.quota_after = Some(Some(3));
    assert_eq!(
        next_action(&c, &r, &a),
        GetTaskAction::Reply {
            reply: Ok(Some(task(5))),
            quota: Some(QuotaUpdate { api_token: 42, tasks: 4, expire: 600 }),
        }
    );
}

#[test]
fn bonus_is_charged_on_top_of_the_task() {
    let c = GetTaskConfig {
        task_limit: true,
        rate_limit: false,
        limiter_failure: FailurePolicy::Closed,
        limit: 10,
        task_bonus: 2,
        expire: 7,
    };
    let r = request();
    let mut a = GetTaskAnswers::new();
    a.quota = Some(Some(0));
    a.user = Some(Lookup::Found(USER));
    a.polled = Some(Some(Polled::Assigned(task(1))));
    a.quota_after = Some(Some(9));
    assert_eq!(
        next_action(&c, &r, &a),
        GetTaskAction::Reply {
            reply: Ok(Some(task(1))),
            quota: Some(QuotaUpdate { api_token: 42, tasks: 12, expire: 70 }),
        }
    );
}

#[test]
fn exhausted_or_unknown_quota_gives_no_task() {
    let c = config(true, false);
    let r = request();
    let mut a = GetTaskAnswers::new();
    a.quota = Some(Some(10));
    assert_eq!(next_action(&c, &r, &a), reply(Ok(None)));
    a.quota = Some(None);
    assert_eq!(next_action(&c, &r, &a), reply(Ok(None)));
    a.quota = Some(Some(9));
    assert_eq!(next_action(&c, &r, &a), GetTaskAction::FindUser { email: "a@b.c".to_string() });
}

#[test]
fn quota_exhaustion_comes_before_the_missing_address() {
    let c = config(true, true);
    let mut r = request();
    r.address = None;
    let mut a = GetTaskAnswers::new();
    a.quota = Some(Some(10));
    assert_eq!(next_action(&c, &r, &a), reply(Ok(None)));
    a.quota = Some(Some(1));
    assert_eq!(next_action(&c, &r, &a), reply(Err(ApiError::MissingAddress)));
}

#[test]
fn rate_limit_denial_gives_no_task() {
    let c = config(false, true);
    let r = request();
    let mut a = GetTaskAnswers::new();
    a.rate = Some(Some(false));
    assert_eq!(next_action(&c, &r, &a), reply(Ok(None)));
    a.rate = Some(Some(true));
    assert_eq!(next_action(&c, &r, &a), GetTaskAction::FindUser { email: "a@b.c".to_string() });
}

#[test]
fn unreachable_limiter_is_judged_by_the_policy() {
    let mut c = config(false, true);
    let r = request();
    let mut a = GetTaskAnswers::new();
    a.rate = Some(None);
    assert_eq!(next_action(&c, &r, &a), reply(Ok(None)));
    c.limiter_failure = FailurePolicy::Open;
    assert_eq!(next_action(&c, &r, &a), GetTaskAction::FindUser { email: "a@b.c".to_string() });
    // a verdict that was given stands under either policy
    a.rate = Some(Some(false));
    assert_eq!(next_action(&c, &r, &a), reply(Ok(None)));
}

#[test]
fn identity_failures_are_hard_errors() {
    let c = config(false, false);
    let r = request();
    let mut a = GetTaskAnswers::new();
    a.user = Some(Lookup::Missing);
    assert_eq!(next_action(&c, &r, &a), reply(Err(ApiError::UserNotFound)));
    a.user = Some(Lookup::Found(UserRecord { user_id: 9, token: 43 }));
    a.polled = Some(Some(Polled::Held(task(1))));
    assert_eq!(next_action(&c, &r, &a), reply(Err(ApiError::ApiTokenNotFound)));
}

#[test]
fn held_task_is_delivered_again_without_charge() {
    let c = config(true, false);
    let r = request();
    let mut a = GetTaskAnswers::new();
    a.quota = Some(Some(2));
    a.user = Some(Lookup::Found(USER));
    a.polled = Some(Some(Polled::Held(task(8))));
    a.quota_after = Some(Some(2));
    assert_eq!(next_action(&c, &r, &a), reply(Ok(Some(task(8)))));
}

#[test]
fn database_failures_give_no_task() {
    let c = config(false, false);
    let r = request();
    let mut a = GetTaskAnswers::new();
    a.user = Some(Lookup::Failed);
    assert_eq!(next_action(&c, &r, &a), reply(Ok(None)));
    a.user = Some(Lookup::Found(USER));
    a.polled = Some(None);
    assert_eq!(next_action(&c, &r, &a), reply(Ok(None)));
    a.polled = Some(Some(Polled::Nothing));
    assert_eq!(next_action(&c, &r, &a), reply(Ok(None)));
    a.polled = Some(Some(Polled::Assigned(task(2))));
    assert_eq!(next_action(&c, &r, &a), reply(Ok(Some(task(2)))));
}

#[test]
fn quota_failure_after_commit_does_not_hide_the_assignment() {
    let c = config(true, false);
    let r = request();
    let mut a = GetTaskAnswers::new();
    a.quota = Some(Some(9));
    a.user = Some(Lookup::Found(USER));
    a.polled = Some(Some(Polled::Assigned(task(2))));
    // the quota cannot be read again: the task is delivered, nothing is stored
    a.quota_after = Some(None);
    assert_eq!(next_action(&c, &r, &a), reply(Ok(Some(task(2)))));
    // the quota was used up in the meantime: delivered and charged all the same
    a.quota_after = Some(Some(10));
    assert_eq!(
        next_action(&c, &r, &a),
        GetTaskAction::Reply {
            reply: Ok(Some(task(2))),
            quota: Some(QuotaUpdate { api_token: 42, tasks: 11, expire: 600 }),
        }
    );
}

#[test]
fn local_deployments_use_the_loopback_address() {
    assert_eq!(effective_address(true, None), Some("127.0.0.1".to_string()));
    assert_eq!(effective_address(true, Some("9.9.9.9".to_string())), Some("127.0.0.1".to_string()));
    assert_eq!(effective_address(false, Some("9.9.9.9".to_string())), Some("9.9.9.9".to_string()));
    assert_eq!(effective_address(false, None), None);
}

#[test]
fn capped_arithmetic() {
    assert_eq!(add_capped(2, 3), 5);
    assert_eq!(add_capped(u64::MAX, 1), u64::MAX);
    assert_eq!(add_capped(u64::MAX - 1, 1), u64::MAX);
    assert_eq!(mul_capped(10, 60), 600);
    assert_eq!(mul_capped(u64::MAX / 2, 3), u64::MAX);
    assert_eq!(mul_capped(0, u64::MAX), 0);
}

#[test]
fn fixed_window_counts_and_denies_above_the_ceiling() {
    // window of 60 s, ceiling 3
    let (w, ok) = let_through(None, 1000, 60, 3);
    assert_eq!(w, RateWindow { count: 1, expires_at: 1060 });
    assert!(ok);
    let (w, ok) = let_through(Some(w), 1010, 60, 3);
    assert_eq!(w, RateWindow { count: 2, expires_at: 1060 });
    assert!(ok);
    let (w, ok) = let_through(Some(w), 1059, 60, 3);
    assert_eq!(w, RateWindow { count: 3, expires_at: 1060 });
    assert!(ok);
    let (w, ok) = let_through(Some(w), 1059, 60, 3);
    assert_eq!(w, RateWindow { count: 4, expires_at: 1060 });
    assert!(!ok);
    // the window has ended: a new one begins
    let (w, ok) = let_through(Some(w), 1060, 60, 3);
    assert_eq!(w, RateWindow { count: 1, expires_at: 1120 });
    assert!(ok);
    let (w, ok) = let_through(Some(w), u64::MAX, 60, 0);
    assert_eq!(w, RateWindow { count: 1, expires_at: u64::MAX });
    assert!(!ok);
}

#[test]
fn failure_policy_decides_when_the_limiter_is_down() {
    assert!(verdict_under(FailurePolicy::Open, None));
    assert!(!verdict_under(FailurePolicy::Closed, None));
    assert!(verdict_under(FailurePolicy::Closed, Some(true)));
    assert!(!verdict_under(FailurePolicy::Open, Some(false)));
}

#[test]
fn quota_reserve_and_commit() {
    assert_eq!(reserve(Some(Quota { tasks: 9 }), 10), Ok(Quota { tasks: 9 }));
    assert_eq!(reserve(Some(Quota { tasks: 10 }), 10), Err(QuotaError::Exhausted));
    assert_eq!(reserve(Some(Quota { tasks: 0 }), 0), Err(QuotaError::Exhausted));
    assert_eq!(reserve(None, 10), Err(QuotaError::Unknown));
    assert_eq!(commit(Quota { tasks: 4 }, 0), Quota { tasks: 5 });
    assert_eq!(commit(Quota { tasks: 4 }, 3), Quota { tasks: 8 });
    assert_eq!(commit(Quota { tasks: u64::MAX }, 3), Quota { tasks: u64::MAX });
    assert_eq!(quota_expiry(60, 10), 600);
    assert_eq!(quota_expiry(60, 0), 60);
    assert_eq!(quota_expiry(u64::MAX, 2), u64::MAX);
}
