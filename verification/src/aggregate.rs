//! Running statistics, one row for each user and metric. A value is a count
//! of fixed units (thousandths, say; the caller fixes the unit) or is not set
//! yet. A row that another writer holds locked is skipped by a statement,
//! never waited for.

use vstd::prelude::*;

verus! {

/// The metrics that are kept.
#[derive(Debug, Clone, Copy, PartialEq, Eq, Structural)]
pub enum AggregateName {
    Uptime,
    Download,
    Upload,
    Latency,
    CronReports,
}

/// One row of the store.
#[derive(Debug, Clone, Copy, PartialEq, Eq)]
pub struct Aggregate {
    pub id: u128,
    pub user_id: u128,
    pub name: AggregateName,
    /// The running value; `None` until the first update.
    pub value: Option<i64>,
    /// When the row was last written.
    pub updated_at: u64,
    /// Whether another writer holds the row locked right now.
    pub locked: bool,
}

/// A number as it arrives from outside: a reading may fail to be a number or
/// be infinite.
#[derive(Debug, Clone, Copy, PartialEq, Eq)]
pub enum Number {
    NotANumber,
    Infinite { negative: bool },
    Finite(i64),
}

/// The value that a row counts as: one that is not set counts as zero.
pub open spec fn coalesced(value: Option<i64>) -> int {
    match value {
        Some(v) => v as int,
        None => 0,
    }
}

/// `x`, held to the range of a stored value.
pub open spec fn clamped(x: int) -> i64 {
    if x > i64::MAX {
        i64::MAX
    } else if x < i64::MIN {
        i64::MIN
    } else {
        x as i64
    }
}

/// The row after `delta` was merged into it at time `now`.
pub open spec fn merged(row: Aggregate, delta: i64, now: u64) -> Aggregate {
    Aggregate { value: Some(clamped(coalesced(row.value) + delta)), updated_at: now, ..row }
}

/// The row is the one of `user` and `name`.
pub open spec fn is_row_of(row: Aggregate, user: u128, name: AggregateName) -> bool {
    row.user_id == user && row.name == name
}

/// The index of the first row of `user` and `name` at or after `from`.
pub open spec fn row_from(rows: Seq<Aggregate>, user: u128, name: AggregateName, from: int)
    -> Option<int>
    decreases rows.len() - from,
{
    if from < 0 || from >= rows.len() {
        None
    } else if is_row_of(rows[from], user, name) {
        Some(from)
    } else {
        row_from(rows, user, name, from + 1)
    }
}

/// The index of the row of `user` and `name`.
pub open spec fn row_of(rows: Seq<Aggregate>, user: u128, name: AggregateName) -> Option<int> {
    row_from(rows, user, name, 0)
}

/// A row that was just created: no value yet, nobody holds it.
pub open spec fn fresh_row(id: u128, user: u128, name: AggregateName, now: u64) -> Aggregate {
    Aggregate { id, user_id: user, name, value: None, updated_at: now, locked: false }
}

/// The store after the row of `user` and `name` was asked for: as before
/// where the row exists, else with a fresh row at the end.
pub open spec fn ensured(rows: Seq<Aggregate>, id: u128, user: u128, name: AggregateName, now: u64)
    -> Seq<Aggregate> {
    if row_of(rows, user, name) is Some {
        rows
    } else {
        rows.push(fresh_row(id, user, name, now))
    }
}

/// The store after `delta` was merged into the row `id`: every row of that id
/// that nobody holds is merged, every other row stays.
pub open spec fn updated(rows: Seq<Aggregate>, id: u128, delta: i64, now: u64) -> Seq<Aggregate> {
    Seq::new(
        rows.len(),
        |i: int|
            if rows[i].id == id && !rows[i].locked {
                merged(rows[i], delta, now)
            } else {
                rows[i]
            },
    )
}

/// The store after a writer took hold of the rows `id`, or let go of them.
pub open spec fn held(rows: Seq<Aggregate>, id: u128, locked: bool) -> Seq<Aggregate> {
    Seq::new(
        rows.len(),
        |i: int|
            if rows[i].id == id {
                Aggregate { locked, ..rows[i] }
            } else {
                rows[i]
            },
    )
}

/// The store holds a row `id` that nobody holds locked.
pub open spec fn writable(rows: Seq<Aggregate>, id: u128) -> bool {
    exists|i: int| 0 <= i < rows.len() && (#[trigger] rows[i]).id == id && !rows[i].locked
}

/// A bonus is paid out only where it is a finite number above zero.
pub open spec fn applicable(bonus: Number) -> bool {
    bonus matches Number::Finite(v) && v > 0
}

/// The row takes part in a statement on the metric `name`.
pub open spec fn eligible(row: Aggregate, name: AggregateName) -> bool {
    row.name == name && !row.locked
}

/// The store after a bonus was paid on the metric `name`: nothing changes
/// where the bonus is not applicable; else every eligible row is merged with
/// it and every other row stays.
pub open spec fn with_bonus(rows: Seq<Aggregate>, name: AggregateName, bonus: Number, now: u64)
    -> Seq<Aggregate> {
    match bonus {
        Number::Finite(v) if v > 0 => Seq::new(
            rows.len(),
            |i: int|
                if eligible(rows[i], name) {
                    merged(rows[i], v, now)
                } else {
                    rows[i]
                },
        ),
        _ => rows,
    }
}

/// How many rows take part in a statement on the metric `name`.
pub open spec fn eligible_count(rows: Seq<Aggregate>, name: AggregateName) -> nat
    decreases rows.len(),
{
    if rows.len() == 0 {
        0
    } else {
        eligible_count(rows.drop_last(), name) + if eligible(rows.last(), name) {
            1nat
        } else {
            0nat
        }
    }
}

/// Half of `x`, rounded towards zero.
pub open spec fn half(x: int) -> int {
    if x >= 0 {
        x / 2
    } else {
        -((-x) / 2)
    }
}

/// The value that a report is smoothed to: the mean of the stored value and
/// the reported one.
pub open spec fn smoothed_value(stored: Option<i64>, reported: i64) -> int {
    half(coalesced(stored) + reported)
}

/// The mean of the stored value and a reported one, rounded towards zero. A
/// value that is not set counts as zero.
pub fn smoothed(stored: Option<i64>, reported: i64) -> (value: i64)
    ensures
        value == smoothed_value(stored, reported),
{
    let base: i128 = match stored {
        Some(v) => v as i128,
        None => 0,
    };
    let sum: i128 = base + reported as i128;
    (sum / 2) as i64
}

/// Whether a bonus is paid out: only a finite number above zero is.
pub fn applicable_bonus(bonus: Number) -> (paid: bool)
    ensures
        paid == applicable(bonus),
{
    match bonus {
        Number::Finite(v) => v > 0,
        _ => false,
    }
}

/// `value + delta`, held to the range of a stored value.
pub fn merge_value(value: Option<i64>, delta: i64) -> (sum: i64)
    ensures
        sum == clamped(coalesced(value) + delta),
{
    let base: i128 = match value {
        Some(v) => v as i128,
        None => 0,
    };
    let sum: i128 = base + delta as i128;
    if sum > i64::MAX as i128 {
        i64::MAX
    } else if sum < i64::MIN as i128 {
        i64::MIN
    } else {
        sum as i64
    }
}

/// What `row_from` finds is the first row of the key; where it finds nothing,
/// there is no such row at or after `from`.
pub proof fn lemma_row_from(rows: Seq<Aggregate>, user: u128, name: AggregateName, from: int)
    requires
        0 <= from,
    ensures
        match row_from(rows, user, name, from) {
            Some(i) => {
                &&& from <= i < rows.len()
                &&& is_row_of(rows[i], user, name)
                &&& forall|j: int| from <= j < i ==> !is_row_of(#[trigger] rows[j], user, name)
            },
            None => forall|j: int|
                from <= j < rows.len() ==> !is_row_of(#[trigger] rows[j], user, name),
        },
    decreases rows.len() - from,
{
    if from < rows.len() && !is_row_of(rows[from], user, name) {
        lemma_row_from(rows, user, name, from + 1);
    }
}

/// No two rows belong to the same user and metric.
pub open spec fn one_row_per_key(rows: Seq<Aggregate>) -> bool {
    forall|i: int, j: int|
        0 <= i < j < rows.len() ==> !is_row_of(
            #[trigger] rows[j],
            (#[trigger] rows[i]).user_id,
            rows[i].name,
        )
}

/// One row per key. A store with one row for each user and metric stays so
/// under every operation: asking for a row creates one only where there is
/// none, and locking, merging and paying a bonus leave the keys alone.
pub proof fn lemma_one_row_per_key(
    rows: Seq<Aggregate>,
    id: u128,
    user: u128,
    name: AggregateName,
    delta: i64,
    bonus: Number,
    now: u64,
)
    requires
        one_row_per_key(rows),
    ensures
        one_row_per_key(ensured(rows, id, user, name, now)),
        one_row_per_key(updated(rows, id, delta, now)),
        one_row_per_key(with_bonus(rows, name, bonus, now)),
        forall|locked: bool| one_row_per_key(#[trigger] held(rows, id, locked)),
{
    assert forall|locked: bool| one_row_per_key(#[trigger] held(rows, id, locked)) by {
        let kept = held(rows, id, locked);
        assert forall|i: int, j: int| 0 <= i < j < kept.len() implies !is_row_of(
            #[trigger] kept[j],
            (#[trigger] kept[i]).user_id,
            kept[i].name,
        ) by {
            assert(is_row_of(kept[j], kept[i].user_id, kept[i].name) == is_row_of(
                rows[j],
                rows[i].user_id,
                rows[i].name,
            ));
        }
    }
    lemma_row_from(rows, user, name, 0);
    let created = ensured(rows, id, user, name, now);
    assert forall|i: int, j: int| 0 <= i < j < created.len() implies !is_row_of(
        #[trigger] created[j],
        (#[trigger] created[i]).user_id,
        created[i].name,
    ) by {
        if j < rows.len() {
            assert(created[i] == rows[i] && created[j] == rows[j]);
        } else {
            assert(created[i] == rows[i]);
        }
    }
    let written = updated(rows, id, delta, now);
    assert forall|i: int, j: int| 0 <= i < j < written.len() implies !is_row_of(
        #[trigger] written[j],
        (#[trigger] written[i]).user_id,
        written[i].name,
    ) by {
        assert(is_row_of(written[j], written[i].user_id, written[i].name) == is_row_of(
            rows[j],
            rows[i].user_id,
            rows[i].name,
        ));
    }
    let paid = with_bonus(rows, name, bonus, now);
    assert forall|i: int, j: int| 0 <= i < j < paid.len() implies !is_row_of(
        #[trigger] paid[j],
        (#[trigger] paid[i]).user_id,
        paid[i].name,
    ) by {
        assert(is_row_of(paid[j], paid[i].user_id, paid[i].name) == is_row_of(
            rows[j],
            rows[i].user_id,
            rows[i].name,
        ));
    }
}

/// The store of running statistics.
pub struct AggregateStore {
    rows: Vec<Aggregate>,
}

impl View for AggregateStore {
    type V = Seq<Aggregate>;

    closed spec fn view(&self) -> Seq<Aggregate> {
        self.rows@
    }
}

impl AggregateStore {
    /// A store without rows.
    pub fn new() -> (store: AggregateStore)
        ensures
            store@ == Seq::<Aggregate>::empty(),
    {
        AggregateStore { rows: Vec::new() }
    }

    /// Number of rows.
    pub fn len(&self) -> (n: usize)
        ensures
            n == self@.len(),
    {
        self.rows.len()
    }

    fn find(&self, user: u128, name: AggregateName) -> (found: Option<usize>)
        ensures
            match found {
                Some(i) => row_of(self@, user, name) == Some(i as int) && i < self@.len(),
                None => row_of(self@, user, name) is None,
            },
    {
        let n = self.rows.len();
        let mut i: usize = 0;
        while i < n
            invariant
                i <= n,
                n == self@.len(),
                row_of(self@, user, name) == row_from(self@, user, name, i as int),
            decreases n - i,
        {
            if self.rows[i].user_id == user && self.rows[i].name == name {
                return Some(i);
            }
            i += 1;
        }
        None
    }

    /// The row of `user` and `name`, if there is one.
    pub fn get(&self, user: u128, name: AggregateName) -> (row: Option<Aggregate>)
        ensures
            row == match row_of(self@, user, name) {
                Some(i) => Some(self@[i]),
                None => None,
            },
    {
        match self.find(user, name) {
            Some(i) => Some(self.rows[i]),
            None => None,
        }
    }

    /// The row of `user` and `name`. Where there is none yet, one is created
    /// under the id `fresh_id`, without a value. Asking again changes nothing.
    pub fn get_or_create(&mut self, user: u128, name: AggregateName, fresh_id: u128, now: u64) -> (row:
        Aggregate)
        ensures
            final(self)@ == ensured(old(self)@, fresh_id, user, name, now),
            row == match row_of(old(self)@, user, name) {
                Some(i) => old(self)@[i],
                None => fresh_row(fresh_id, user, name, now),
            },
            one_row_per_key(old(self)@) ==> one_row_per_key(final(self)@),
    {
        proof {
            if one_row_per_key(old(self)@) {
                lemma_one_row_per_key(old(self)@, fresh_id, user, name, 0, Number::NotANumber, now);
            }
        }
        match self.find(user, name) {
            Some(i) => self.rows[i],
            None => {
                let row = Aggregate {
                    id: fresh_id,
                    user_id: user,
                    name,
                    value: None,
                    updated_at: now,
                    locked: false,
                };
                self.rows.push(row);
                row
            },
        }
    }

    /// Marks the rows of id `id` as held, or as released, by another writer.
    pub fn set_locked(&mut self, id: u128, locked: bool)
        ensures
            final(self)@ == held(old(self)@, id, locked),
            one_row_per_key(old(self)@) ==> one_row_per_key(final(self)@),
    {
        let n = self.rows.len();
        let mut k: usize = 0;
        while k < n
            invariant
                k <= n,
                n == old(self)@.len(),
                self@ == Seq::new(
                    n as nat,
                    |i: int|
                        if i < k && old(self)@[i].id == id {
                            Aggregate { locked, ..old(self)@[i] }
                        } else {
                            old(self)@[i]
                        },
                ),
            decreases n - k,
        {
            let row = self.rows[k];
            if row.id == id {
                self.rows.set(k, Aggregate { locked, ..row });
            }
            k += 1;
        }
        proof {
            if one_row_per_key(old(self)@) {
                lemma_one_row_per_key(
                    old(self)@,
                    id,
                    0,
                    AggregateName::Uptime,
                    0,
                    Number::NotANumber,
                    0,
                );
            }
        }
    }

    /// Merges `delta` into the row `id`, unless another writer holds it:
    /// then the row is skipped. Says whether a row was written.
    pub fn update(&mut self, id: u128, delta: i64, now: u64) -> (written: bool)
        ensures
            final(self)@ == updated(old(self)@, id, delta, now),
            written == writable(old(self)@, id),
            one_row_per_key(old(self)@) ==> one_row_per_key(final(self)@),
    {
        proof {
            if one_row_per_key(old(self)@) {
                lemma_one_row_per_key(
                    old(self)@,
                    id,
                    0,
                    AggregateName::Uptime,
                    delta,
                    Number::NotANumber,
                    now,
                );
            }
        }
        let n = self.rows.len();
        let mut written = false;
        let mut k: usize = 0;
        while k < n
            invariant
                k <= n,
                n == old(self)@.len(),
                written == exists|i: int|
                    0 <= i < k && (#[trigger] old(self)@[i]).id == id && !old(self)@[i].locked,
                self@ == Seq::new(
                    n as nat,
                    |i: int|
                        if i < k && old(self)@[i].id == id && !old(self)@[i].locked {
                            merged(old(self)@[i], delta, now)
                        } else {
                            old(self)@[i]
                        },
                ),
            decreases n - k,
        {
            let row = self.rows[k];
            if row.id == id && !row.locked {
                let value = merge_value(row.value, delta);
                self.rows.set(k, Aggregate { value: Some(value), updated_at: now, ..row });
                written = true;
            }
            k += 1;
        }
        written
    }

    /// Pays a bonus on the uptime of every user: each uptime row that nobody
    /// holds is merged with the bonus. A bonus that is not a number, not
    /// finite or not above zero changes nothing. Returns the number of rows
    /// written.
    pub fn bulk_uptime_bonus(&mut self, bonus: Number, now: u64) -> (written: usize)
        ensures
            final(self)@ == with_bonus(old(self)@, AggregateName::Uptime, bonus, now),
            written == if applicable(bonus) {
                eligible_count(old(self)@, AggregateName::Uptime)
            } else {
                0
            },
            one_row_per_key(old(self)@) ==> one_row_per_key(final(self)@),
    {
        proof {
            if one_row_per_key(old(self)@) {
                lemma_one_row_per_key(old(self)@, 0, 0, AggregateName::Uptime, 0, bonus, now);
            }
        }
        let amount = match bonus {
            Number::Finite(v) => {
                if v > 0 {
                    v
                } else {
                    return 0;
                }
            },
            _ => {
                return 0;
            },
        };
        let n = self.rows.len();
        let mut written: usize = 0;
        let mut k: usize = 0;
        assert(old(self)@.subrange(0, 0) == Seq::<Aggregate>::empty());
        while k < n
            invariant
                k <= n,
                n == old(self)@.len(),
                written == eligible_count(old(self)@.subrange(0, k as int), AggregateName::Uptime),
                written <= k,
                self@ == Seq::new(
                    n as nat,
                    |i: int|
                        if i < k && eligible(old(self)@[i], AggregateName::Uptime) {
                            merged(old(self)@[i], amount, now)
                        } else {
                            old(self)@[i]
                        },
                ),
            decreases n - k,
        {
            let row = self.rows[k];
            assert(old(self)@.subrange(0, k + 1).drop_last() == old(self)@.subrange(0, k as int));
            if row.name == AggregateName::Uptime && !row.locked {
                let value = merge_value(row.value, amount);
                self.rows.set(k, Aggregate { value: Some(value), updated_at: now, ..row });
                written += 1;
            }
            k += 1;
        }
        assert(old(self)@.subrange(0, n as int) == old(self)@);
        written
    }
}

/// The setting in force: the stored one, or the default while none is
/// stored. Whether one is stored is a matter of the value being there, not of
/// what it is: a stored zero is a setting like any other.
pub fn stored_or_default<S>(stored: Option<S>, default: S) -> (setting: S)
    ensures
        setting == match stored {
            Some(s) => s,
            None => default,
        },
{
    match stored {
        Some(s) => s,
        None => default,
    }
}

/// The report cadence that is stored for a user, or `default` while none is
/// stored. The row that holds the setting is created, without a value, where
/// the user has none.
pub fn fetch_latest_cron_settings(
    store: &mut AggregateStore,
    user_id: u128,
    fresh_id: u128,
    now: u64,
    default: i64,
) -> (cadence: i64)
    ensures
        final(store)@ == ensured(old(store)@, fresh_id, user_id, AggregateName::CronReports, now),
        cadence == match row_of(old(store)@, user_id, AggregateName::CronReports) {
            Some(i) => match old(store)@[i].value {
                Some(v) => v,
                None => default,
            },
            None => default,
        },
{
    let row = store.get_or_create(user_id, AggregateName::CronReports, fresh_id, now);
    stored_or_default(row.value, default)
}

/// Merge under null. A row that was just created for a user and metric has
/// no value; the first update by `delta` leaves exactly `delta` in it, and
/// touches no other row. Asking for the row again creates nothing.
pub proof fn lemma_first_update_stores_delta(
    rows: Seq<Aggregate>,
    id: u128,
    user: u128,
    name: AggregateName,
    delta: i64,
    now: u64,
    later: u64,
)
    requires
        row_of(rows, user, name) is None,
        forall|i: int| 0 <= i < rows.len() ==> (#[trigger] rows[i]).id != id,
    ensures
        ({
            let created = ensured(rows, id, user, name, now);
            let written = updated(created, id, delta, later);
            &&& row_of(created, user, name) == Some(rows.len() as int)
            &&& created[rows.len() as int].value is None
            &&& row_of(written, user, name) == Some(rows.len() as int)
            &&& written[rows.len() as int].value == Some(delta)
            &&& written.len() == rows.len() + 1
            &&& forall|i: int| 0 <= i < rows.len() ==> #[trigger] written[i] == rows[i]
            &&& forall|other: u128, at: u64| ensured(created, other, user, name, at) == created
        }),
{
    let created = ensured(rows, id, user, name, now);
    let written = updated(created, id, delta, later);
    let last = rows.len() as int;
    lemma_row_from(rows, user, name, 0);
    lemma_row_from(created, user, name, 0);
    lemma_row_from(written, user, name, 0);
    assert(created[last] == fresh_row(id, user, name, now));
    assert(is_row_of(created[last], user, name));
    assert(is_row_of(written[last], user, name));
    assert forall|j: int| 0 <= j < last implies !is_row_of(#[trigger] created[j], user, name) by {
        assert(created[j] == rows[j]);
    }
    assert forall|j: int| 0 <= j < last implies !is_row_of(#[trigger] written[j], user, name) by {
        assert(created[j] == rows[j]);
    }
}

/// Writers do not get in each other's way. Merges into different rows can be
/// carried out in either order with the same result, and so can a merge and
/// the payment of a bonus that touch different rows; two merges into the same
/// row are both kept.
pub proof fn lemma_writers_do_not_interfere(
    rows: Seq<Aggregate>,
    a: u128,
    b: u128,
    da: i64,
    db: i64,
    bonus: Number,
    ta: u64,
    tb: u64,
)
    ensures
        a != b ==> updated(updated(rows, a, da, ta), b, db, tb) == updated(
            updated(rows, b, db, tb),
            a,
            da,
            ta,
        ),
        (forall|i: int|
            0 <= i < rows.len() && (#[trigger] rows[i]).id == a ==> rows[i].name
                != AggregateName::Uptime) ==> with_bonus(
            updated(rows, a, da, ta),
            AggregateName::Uptime,
            bonus,
            tb,
        ) == updated(with_bonus(rows, AggregateName::Uptime, bonus, tb), a, da, ta),
        forall|i: int|
            0 <= i < rows.len() && (#[trigger] rows[i]).id == a && !rows[i].locked ==> updated(
                updated(rows, a, da, ta),
                a,
                db,
                tb,
            )[i].value == Some(clamped(clamped(coalesced(rows[i].value) + da) + db)),
{
    if a != b {
        assert(updated(updated(rows, a, da, ta), b, db, tb) =~= updated(
            updated(rows, b, db, tb),
            a,
            da,
            ta,
        ));
    }
    if forall|i: int|
        0 <= i < rows.len() && (#[trigger] rows[i]).id == a ==> rows[i].name
            != AggregateName::Uptime {
        assert(with_bonus(updated(rows, a, da, ta), AggregateName::Uptime, bonus, tb) =~= updated(
            with_bonus(rows, AggregateName::Uptime, bonus, tb),
            a,
            da,
            ta,
        ));
    }
}

/// Bonus validation. A bonus that is not a number, is infinite, is zero or is
/// below zero changes no row. A bonus above zero is added to every uptime row
/// that nobody holds, exactly, and changes no other row.
pub proof fn lemma_bonus_validation(rows: Seq<Aggregate>, bonus: Number, now: u64)
    ensures
        !applicable(Number::NotANumber),
        !applicable(Number::Infinite { negative: false }),
        !applicable(Number::Infinite { negative: true }),
        !applicable(Number::Finite(0i64)),
        !applicable(Number::Finite(-5i64)),
        !applicable(bonus) ==> with_bonus(rows, AggregateName::Uptime, bonus, now) == rows,
        applicable(bonus) ==> ({
            let paid = with_bonus(rows, AggregateName::Uptime, bonus, now);
            let amount = bonus->Finite_0;
            &&& paid.len() == rows.len()
            &&& forall|i: int|
                0 <= i < rows.len() && !eligible(rows[i], AggregateName::Uptime) ==> #[trigger] paid[i]
                    == rows[i]
            &&& forall|i: int|
                0 <= i < rows.len() && eligible(rows[i], AggregateName::Uptime) ==> (
                #[trigger] paid[i]).value == Some(clamped(coalesced(rows[i].value) + amount))
            &&& forall|i: int|
                0 <= i < rows.len() && eligible(rows[i], AggregateName::Uptime) && coalesced(
                    rows[i].value,
                ) + amount <= i64::MAX ==> coalesced((#[trigger] paid[i]).value) == coalesced(
                    rows[i].value,
                ) + amount
        }),
{
}

} // verus!
