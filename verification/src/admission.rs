//! Admission control: the fixed window of the rate limiter and the task
//! quota of a credential. The counters live in a cache; this module holds the
//! rules by which they are read and advanced.

use vstd::prelude::*;

verus! {

/// `a + b`, capped at the largest `u64`.
pub open spec fn capped_sum(a: int, b: int) -> int {
    if a + b > u64::MAX {
        u64::MAX as int
    } else {
        a + b
    }
}

/// `a * b`, capped at the largest `u64`.
pub open spec fn capped_product(a: int, b: int) -> int {
    if a * b > u64::MAX {
        u64::MAX as int
    } else {
        a * b
    }
}

/// `a + b`, capped at the largest `u64`.
pub fn add_capped(a: u64, b: u64) -> (sum: u64)
    ensures
        sum == capped_sum(a as int, b as int),
{
    match a.checked_add(b) {
        Some(sum) => sum,
        None => u64::MAX,
    }
}

/// `a * b`, capped at the largest `u64`.
pub fn mul_capped(a: u64, b: u64) -> (product: u64)
    ensures
        product == capped_product(a as int, b as int),
{
    match a.checked_mul(b) {
        Some(product) => product,
        None => u64::MAX,
    }
}

/// The counter of one rate-limit window.
#[derive(Debug, Clone, Copy, PartialEq, Eq)]
pub struct RateWindow {
    /// Requests counted in the window.
    pub count: u64,
    /// The second at which the window ends.
    pub expires_at: u64,
}

/// The window is still open at `now`.
pub open spec fn open_at(entry: Option<RateWindow>, now: u64) -> bool {
    entry matches Some(window) && now < window.expires_at
}

/// The counter after a request at `now`. In an open window the request is
/// counted and the end of the window stays where it is; else a new window of
/// `length` seconds begins with this request.
pub open spec fn counted(entry: Option<RateWindow>, now: u64, length: u64) -> RateWindow {
    if open_at(entry, now) {
        RateWindow {
            count: capped_sum(entry->0.count as int, 1) as u64,
            expires_at: entry->0.expires_at,
        }
    } else {
        RateWindow { count: 1, expires_at: capped_sum(now as int, length as int) as u64 }
    }
}

/// A request is let through as long as its window counts no more than
/// `ceiling` requests.
pub open spec fn within(window: RateWindow, ceiling: u64) -> bool {
    window.count <= ceiling
}

/// Counts a request at `now` and says whether it is let through. Returns the
/// counter to store.
pub fn let_through(entry: Option<RateWindow>, now: u64, length: u64, ceiling: u64) -> (verdict: (
    RateWindow,
    bool,
))
    ensures
        verdict.0 == counted(entry, now, length),
        verdict.1 == within(counted(entry, now, length), ceiling),
{
    let window = match entry {
        Some(window) => {
            if now < window.expires_at {
                RateWindow { count: add_capped(window.count, 1), expires_at: window.expires_at }
            } else {
                RateWindow { count: 1, expires_at: add_capped(now, length) }
            }
        },
        None => RateWindow { count: 1, expires_at: add_capped(now, length) },
    };
    (window, window.count <= ceiling)
}

/// What becomes of a request when the limiter's cache cannot be reached.
#[derive(Debug, Clone, Copy, PartialEq, Eq, Structural)]
pub enum FailurePolicy {
    /// The request is let through: availability before protection.
    Open,
    /// The request is turned down: protection before availability.
    Closed,
}

/// The verdict on a request, given what the limiter said, if it could be
/// asked: its own verdict where it gave one, else what the policy says.
pub open spec fn verdict(policy: FailurePolicy, answer: Option<bool>) -> bool {
    match answer {
        Some(v) => v,
        None => policy == FailurePolicy::Open,
    }
}

/// The verdict on a request, given what the limiter said, if it could be
/// asked.
pub fn verdict_under(policy: FailurePolicy, answer: Option<bool>) -> (allowed: bool)
    ensures
        allowed == verdict(policy, answer),
{
    match answer {
        Some(v) => v,
        None => match policy {
            FailurePolicy::Open => true,
            FailurePolicy::Closed => false,
        },
    }
}

/// The counter after the requests at `times`, one after the other.
pub open spec fn counted_all(entry: Option<RateWindow>, times: Seq<u64>, length: u64) -> Option<
    RateWindow,
>
    decreases times.len(),
{
    if times.len() == 0 {
        entry
    } else {
        Some(counted(counted_all(entry, times.drop_last(), length), times.last(), length))
    }
}

/// Fixed window. Requests that fall into a window which is open do not move
/// its end, each of them is counted, and the request that makes the count
/// exceed the ceiling is turned down, as is every later one in the window.
pub proof fn lemma_window_is_fixed(window: RateWindow, times: Seq<u64>, length: u64, ceiling: u64)
    requires
        forall|i: int| 0 <= i < times.len() ==> #[trigger] times[i] < window.expires_at,
        window.count + times.len() <= u64::MAX,
    ensures
        counted_all(Some(window), times, length) == Some(
            RateWindow {
                count: (window.count + times.len()) as u64,
                expires_at: window.expires_at,
            },
        ),
        times.len() > 0 ==> (within(counted_all(Some(window), times, length)->0, ceiling)
            <==> window.count + times.len() <= ceiling),
    decreases times.len(),
{
    if times.len() > 0 {
        let earlier = times.drop_last();
        assert forall|i: int| 0 <= i < earlier.len() implies #[trigger] earlier[i]
            < window.expires_at by {
            assert(earlier[i] == times[i]);
        }
        lemma_window_is_fixed(window, earlier, length, ceiling);
        assert(times.last() == times[times.len() - 1]);
    }
}

/// The quota record of a credential: tasks received in the current window.
#[derive(Debug, Clone, Copy, PartialEq, Eq)]
pub struct Quota {
    pub tasks: u64,
}

/// Why no task may be handed out.
#[derive(Debug, Clone, Copy, PartialEq, Eq, Structural)]
pub enum QuotaError {
    /// The credential has used up its quota.
    Exhausted,
    /// The quota record could not be read.
    Unknown,
}

/// The quota record admits one more task.
pub open spec fn admits(quota: Option<u64>, limit: u64) -> bool {
    quota matches Some(tasks) && tasks < limit
}

/// Reserves a task against the quota: granted while the record counts fewer
/// tasks than the ceiling. A record that could not be read grants nothing; it
/// is reported as unknown, for the caller to treat as it sees fit.
pub fn reserve(record: Option<Quota>, ceiling: u64) -> (reserved: Result<Quota, QuotaError>)
    ensures
        reserved == match record {
            Some(quota) => if quota.tasks < ceiling {
                Ok::<Quota, QuotaError>(quota)
            } else {
                Err(QuotaError::Exhausted)
            },
            None => Err(QuotaError::Unknown),
        },
        reserved is Ok <==> admits(tasks_of(record), ceiling),
{
    match record {
        Some(quota) => {
            if quota.tasks < ceiling {
                Ok(quota)
            } else {
                Err(QuotaError::Exhausted)
            }
        },
        None => Err(QuotaError::Unknown),
    }
}

/// The tasks that a quota record counts, where there is a record.
pub open spec fn tasks_of(record: Option<Quota>) -> Option<u64> {
    match record {
        Some(quota) => Some(quota.tasks),
        None => None,
    }
}

/// The quota record after an assignment: one task more, and `bonus` on top.
pub fn commit(quota: Quota, bonus: u64) -> (charged: Quota)
    ensures
        charged.tasks == capped_sum(quota.tasks as int, capped_sum(1, bonus as int)),
{
    Quota { tasks: add_capped(quota.tasks, add_capped(1, bonus)) }
}

/// How long a quota record is kept: `multiple` rate-limit windows, so that
/// quotas reset more slowly than rate limits. A multiple of zero counts as
/// one.
pub fn quota_expiry(window: u64, multiple: u64) -> (expire: u64)
    ensures
        expire == capped_product(if multiple == 0 {
            1
        } else {
            multiple as int
        }, window as int),
        expire >= window,
{
    let factor = if multiple == 0 {
        1
    } else {
        multiple
    };
    assert(capped_product(factor as int, window as int) >= window) by (nonlinear_arith)
        requires
            factor >= 1,
            window >= 0,
            capped_product(factor as int, window as int) == if factor * window > u64::MAX {
                u64::MAX as int
            } else {
                factor * window
            },
            window <= u64::MAX,
    ;
    mul_capped(factor, window)
}

} // verus!
