//! The daily roll-up of a user's activity: one row for each user and calendar
//! day, created on the first activity of the day and added to from then on.

use crate::admission::{add_capped, capped_sum};
use vstd::prelude::*;

verus! {

/// Whether the day of a roll-up is still running.
#[derive(Debug, Clone, Copy, PartialEq, Eq, Structural)]
pub enum DailyStatStatus {
    OnGoing,
    Finalized,
}

/// The roll-up of one user's day.
#[derive(Debug, Clone, Copy, PartialEq, Eq)]
pub struct DailyStat {
    pub user_id: u128,
    /// The calendar day, as a count of days.
    pub day: u32,
    pub tasks_count: u64,
    /// Seconds of uptime.
    pub uptime: u64,
    pub status: DailyStatStatus,
}

/// The row is the one of `user` on `day`.
pub open spec fn is_stat_of(row: DailyStat, user: u128, day: u32) -> bool {
    row.user_id == user && row.day == day
}

/// The index of the first row of `user` on `day` at or after `from`.
pub open spec fn stat_from(rows: Seq<DailyStat>, user: u128, day: u32, from: int) -> Option<int>
    decreases rows.len() - from,
{
    if from < 0 || from >= rows.len() {
        None
    } else if is_stat_of(rows[from], user, day) {
        Some(from)
    } else {
        stat_from(rows, user, day, from + 1)
    }
}

/// The index of the row of `user` on `day`.
pub open spec fn stat_of(rows: Seq<DailyStat>, user: u128, day: u32) -> Option<int> {
    stat_from(rows, user, day, 0)
}

/// The row of a day on which nothing has happened yet.
pub open spec fn empty_day(user: u128, day: u32) -> DailyStat {
    DailyStat { user_id: user, day, tasks_count: 0, uptime: 0, status: DailyStatStatus::OnGoing }
}

/// The roll-ups once the row of `user` on `day` is sure to exist.
pub open spec fn with_day(rows: Seq<DailyStat>, user: u128, day: u32) -> Seq<DailyStat> {
    if stat_of(rows, user, day) is Some {
        rows
    } else {
        rows.push(empty_day(user, day))
    }
}

/// The row after `tasks` tasks and `uptime` seconds were added to it; a count
/// stops at the largest number it can hold.
pub open spec fn added(row: DailyStat, tasks: u64, uptime: u64) -> DailyStat {
    DailyStat {
        tasks_count: capped_sum(row.tasks_count as int, tasks as int) as u64,
        uptime: capped_sum(row.uptime as int, uptime as int) as u64,
        ..row
    }
}

/// The roll-ups after activity of `user` on `day` was recorded: the row of
/// the day exists, has the activity added, and every other row is as before.
pub open spec fn recorded(rows: Seq<DailyStat>, user: u128, day: u32, tasks: u64, uptime: u64)
    -> Seq<DailyStat> {
    let ready = with_day(rows, user, day);
    let at = stat_of(ready, user, day)->0;
    ready.update(at, added(ready[at], tasks, uptime))
}

/// What `stat_from` finds is the first row of the user and day; where it
/// finds nothing, there is no such row at or after `from`.
pub proof fn lemma_stat_from(rows: Seq<DailyStat>, user: u128, day: u32, from: int)
    requires
        0 <= from,
    ensures
        match stat_from(rows, user, day, from) {
            Some(i) => {
                &&& from <= i < rows.len()
                &&& is_stat_of(rows[i], user, day)
                &&& forall|j: int| from <= j < i ==> !is_stat_of(#[trigger] rows[j], user, day)
            },
            None => forall|j: int|
                from <= j < rows.len() ==> !is_stat_of(#[trigger] rows[j], user, day),
        },
    decreases rows.len() - from,
{
    if from < rows.len() && !is_stat_of(rows[from], user, day) {
        lemma_stat_from(rows, user, day, from + 1);
    }
}

/// The row of a day exists once it was asked for, at the place where
/// `with_day` put or found it.
pub proof fn lemma_with_day(rows: Seq<DailyStat>, user: u128, day: u32)
    ensures
        stat_of(with_day(rows, user, day), user, day) == Some(
            match stat_of(rows, user, day) {
                Some(i) => i,
                None => rows.len() as int,
            },
        ),
        with_day(with_day(rows, user, day), user, day) == with_day(rows, user, day),
{
    let ready = with_day(rows, user, day);
    lemma_stat_from(rows, user, day, 0);
    lemma_stat_from(ready, user, day, 0);
    if stat_of(rows, user, day) is None {
        let last = rows.len() as int;
        assert(ready[last] == empty_day(user, day));
        assert forall|j: int| 0 <= j < last implies !is_stat_of(#[trigger] ready[j], user, day) by {
            assert(ready[j] == rows[j]);
        }
    }
}

/// The daily roll-ups of all users.
pub struct DailyStats {
    rows: Vec<DailyStat>,
}

impl View for DailyStats {
    type V = Seq<DailyStat>;

    closed spec fn view(&self) -> Seq<DailyStat> {
        self.rows@
    }
}

impl DailyStats {
    /// No roll-ups.
    pub fn new() -> (stats: DailyStats)
        ensures
            stats@ == Seq::<DailyStat>::empty(),
    {
        DailyStats { rows: Vec::new() }
    }

    /// Number of roll-ups.
    pub fn len(&self) -> (n: usize)
        ensures
            n == self@.len(),
    {
        self.rows.len()
    }

    fn find(&self, user: u128, day: u32) -> (found: Option<usize>)
        ensures
            match found {
                Some(i) => stat_of(self@, user, day) == Some(i as int) && i < self@.len(),
                None => stat_of(self@, user, day) is None,
            },
    {
        let n = self.rows.len();
        let mut i: usize = 0;
        while i < n
            invariant
                i <= n,
                n == self@.len(),
                stat_of(self@, user, day) == stat_from(self@, user, day, i as int),
            decreases n - i,
        {
            if self.rows[i].user_id == user && self.rows[i].day == day {
                return Some(i);
            }
            i += 1;
        }
        None
    }

    /// The roll-up of `user` on `day`, if the user was active that day.
    pub fn get_daily_stat_of_user(&self, user: u128, day: u32) -> (stat: Option<DailyStat>)
        ensures
            stat == match stat_of(self@, user, day) {
                Some(i) => Some(self@[i]),
                None => None,
            },
    {
        match self.find(user, day) {
            Some(i) => Some(self.rows[i]),
            None => None,
        }
    }

    /// The roll-up of `user` on `day`; it is created, empty, where the user
    /// has none for the day yet.
    pub fn get_or_create_daily_stat(&mut self, user: u128, day: u32) -> (stat: DailyStat)
        ensures
            final(self)@ == with_day(old(self)@, user, day),
            stat == match stat_of(old(self)@, user, day) {
                Some(i) => old(self)@[i],
                None => empty_day(user, day),
            },
    {
        match self.find(user, day) {
            Some(i) => self.rows[i],
            None => {
                let stat = DailyStat {
                    user_id: user,
                    day,
                    tasks_count: 0,
                    uptime: 0,
                    status: DailyStatStatus::OnGoing,
                };
                self.rows.push(stat);
                stat
            },
        }
    }

    /// Adds `tasks` tasks and `uptime` seconds to the roll-up of `user` on
    /// `day`, creating the roll-up where there is none yet.
    pub fn record(&mut self, user: u128, day: u32, tasks: u64, uptime: u64)
        ensures
            final(self)@ == recorded(old(self)@, user, day, tasks, uptime),
    {
        let _ = self.get_or_create_daily_stat(user, day);
        proof {
            lemma_with_day(old(self)@, user, day);
        }
        match self.find(user, day) {
            Some(i) => {
                let row = self.rows[i];
                let updated = DailyStat {
                    tasks_count: add_capped(row.tasks_count, tasks),
                    uptime: add_capped(row.uptime, uptime),
                    ..row
                };
                self.rows.set(i, updated);
            },
            None => {},
        }
    }
}

} // verus!
