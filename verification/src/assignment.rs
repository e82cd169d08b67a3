//! The assignment transaction, and what the polling rule guarantees: a node
//! that polls again gets its task back, and competing nodes never get the same
//! task.

use crate::daily_stat::{lemma_with_day, stat_of, with_day, DailyStat, DailyStats};
use crate::error::{ApiError, Lookup};
use crate::get_task::{
    admitted, charged, next_step, GetTaskAction, GetTaskAnswers, GetTaskConfig, GetTaskRequest,
    UserRecord,
};
use crate::task::Task;
use crate::task_pool::{
    assigned_row, first_from, first_held, first_pending, is_held_by, is_pending, lemma_first_from,
    pending_count, poll_outcome, polled, task_at, task_of, wanted, Polled, TaskPool, TaskRow,
};
use vstd::prelude::*;

verus! {

/// The roll-ups after a poll by `user` on `day`: a node that was assigned a
/// task has a roll-up for the day from then on; a poll that assigns nothing
/// leaves the roll-ups alone.
pub open spec fn stats_after_poll(
    rows: Seq<TaskRow>,
    stats: Seq<DailyStat>,
    user: u128,
    day: u32,
) -> Seq<DailyStat> {
    if poll_outcome(rows, user) is Assigned {
        with_day(stats, user, day)
    } else {
        stats
    }
}

/// The assignment transaction: one poll of the pool by `user` and, where the
/// poll assigns a task, the creation of the user's roll-up for `day` if there
/// is none yet. Both happen or neither does.
pub fn poll_on(pool: &mut TaskPool, stats: &mut DailyStats, user: u128, day: u32) -> (outcome: Polled)
    ensures
        final(pool)@ == polled(old(pool)@, user).0,
        outcome == poll_outcome(old(pool)@, user),
        final(stats)@ == stats_after_poll(old(pool)@, old(stats)@, user, day),
        outcome is Assigned ==> stat_of(final(stats)@, user, day) is Some,
{
    let outcome = pool.poll(user);
    match &outcome {
        Polled::Assigned(_) => {
            let _ = stats.get_or_create_daily_stat(user, day);
            proof {
                lemma_with_day(old(stats)@, user, day);
            }
        },
        _ => {},
    }
    outcome
}

/// The polls of `nodes`, one after the other: the pool afterwards and, for
/// each node, the row it got.
pub open spec fn polled_all(rows: Seq<TaskRow>, nodes: Seq<u128>) -> (Seq<TaskRow>, Seq<Option<int>>)
    decreases nodes.len(),
{
    if nodes.len() == 0 {
        (rows, Seq::empty())
    } else {
        let (before, got) = polled_all(rows, nodes.drop_last());
        let (after, index) = polled(before, nodes.last());
        (after, got.push(index))
    }
}

/// How many of the first `n` pollers a pool with `m` pending tasks serves.
pub open spec fn served_count(m: nat, n: nat) -> nat {
    if n <= m {
        n
    } else {
        m
    }
}

proof fn lemma_first_is(rows: Seq<TaskRow>, holder: Option<u128>, i: int)
    requires
        0 <= i < rows.len(),
        wanted(rows[i], holder),
        forall|j: int| 0 <= j < i ==> !wanted(#[trigger] rows[j], holder),
    ensures
        first_from(rows, holder, 0) == Some(i),
{
    lemma_first_from(rows, holder, 0);
}

proof fn lemma_pending_count_after_assignment(rows: Seq<TaskRow>, p: int, row: TaskRow)
    requires
        0 <= p < rows.len(),
        is_pending(rows[p]),
        !is_pending(row),
    ensures
        pending_count(rows.update(p, row)) + 1 == pending_count(rows),
    decreases rows.len(),
{
    let updated = rows.update(p, row);
    if p == rows.len() - 1 {
        assert(updated.drop_last() == rows.drop_last());
    } else {
        assert(updated.drop_last() == rows.drop_last().update(p, row));
        lemma_pending_count_after_assignment(rows.drop_last(), p, row);
    }
}

proof fn lemma_pending_count_zero(rows: Seq<TaskRow>)
    ensures
        (pending_count(rows) == 0) <==> (forall|j: int|
            0 <= j < rows.len() ==> !is_pending(#[trigger] rows[j])),
    decreases rows.len(),
{
    if rows.len() > 0 {
        lemma_pending_count_zero(rows.drop_last());
        if pending_count(rows) == 0 {
            assert forall|j: int| 0 <= j < rows.len() implies !is_pending(#[trigger] rows[j]) by {
                if j < rows.len() - 1 {
                    assert(rows.drop_last()[j] == rows[j]);
                }
            }
        } else if !is_pending(rows.last()) {
            let j = choose|j: int|
                0 <= j < rows.drop_last().len() && is_pending(#[trigger] rows.drop_last()[j]);
            assert(rows[j] == rows.drop_last()[j]);
        }
    }
}

/// Resumable re-delivery. A node that holds a task gets that task on every
/// poll and leaves the pool as it is; and whatever a node got on one poll, it
/// gets again on the next, which changes nothing.
pub proof fn lemma_repoll_returns_same_task(rows: Seq<TaskRow>, user: u128)
    ensures
        first_held(rows, user) is Some ==> polled(rows, user) == (rows, first_held(rows, user)),
        polled(rows, user).1 is Some ==> polled(polled(rows, user).0, user) == (
            polled(rows, user).0,
            polled(rows, user).1,
        ),
        task_of(poll_outcome(rows, user)) matches Some(task) ==> poll_outcome(
            polled(rows, user).0,
            user,
        ) == Polled::Held(task),
{
    lemma_first_from(rows, Some(user), 0);
    lemma_first_from(rows, None, 0);
    if first_held(rows, user) is None {
        if let Some(p) = first_pending(rows) {
            let after = rows.update(p, assigned_row(rows[p], user));
            assert forall|j: int| 0 <= j < p implies !wanted(#[trigger] after[j], Some(user)) by {
                assert(after[j] == rows[j]);
            }
            lemma_first_is(after, Some(user), p);
        }
    }
}

/// The state of the pool after the polls of `nodes`, none of whom held a task
/// before. `m` tasks were pending.
spec fn served_fairly(rows: Seq<TaskRow>, nodes: Seq<u128>) -> bool {
    let (after, got) = polled_all(rows, nodes);
    let m = pending_count(rows);
    &&& got.len() == nodes.len()
    &&& after.len() == rows.len()
    &&& pending_count(after) + served_count(m, nodes.len()) == m
    &&& forall|i: int| 0 <= i < nodes.len() ==> (#[trigger] got[i] is Some <==> i < m)
    &&& forall|i: int|
        0 <= i < nodes.len() && got[i] is Some ==> {
            let j = (#[trigger] got[i])->0;
            &&& 0 <= j < rows.len()
            &&& is_pending(rows[j])
            &&& after[j] == assigned_row(rows[j], nodes[i])
        }
    &&& forall|j: int|
        0 <= j < rows.len() && (forall|i: int| 0 <= i < nodes.len() ==> #[trigger] got[i] != Some(j))
            ==> #[trigger] after[j] == rows[j]
}

proof fn lemma_polled_all(rows: Seq<TaskRow>, nodes: Seq<u128>)
    requires
        nodes.no_duplicates(),
        forall|i: int| 0 <= i < nodes.len() ==> first_held(rows, #[trigger] nodes[i]) is None,
    ensures
        served_fairly(rows, nodes),
    decreases nodes.len(),
{
    if nodes.len() > 0 {
        let earlier = nodes.drop_last();
        let user = nodes.last();
        let n = earlier.len() as int;
        assert forall|i: int| 0 <= i < earlier.len() implies first_held(
            rows,
            #[trigger] earlier[i],
        ) is None by {
            assert(earlier[i] == nodes[i]);
        }
        lemma_polled_all(rows, earlier);
        let (before, got) = polled_all(rows, earlier);
        let (after, index) = polled(before, user);
        let m = pending_count(rows);
        assert(polled_all(rows, nodes) == (after, got.push(index)));
        let all = got.push(index);
        // the new poller holds nothing yet
        lemma_first_from(rows, Some(user), 0);
        assert forall|j: int| 0 <= j < before.len() implies !wanted(
            #[trigger] before[j],
            Some(user),
        ) by {
            if forall|i: int| 0 <= i < n ==> #[trigger] got[i] != Some(j) {
                assert(before[j] == rows[j]);
            } else {
                let i = choose|i: int| 0 <= i < n && #[trigger] got[i] == Some(j);
                assert(got[i] is Some);
                assert(before[j] == assigned_row(rows[j], earlier[i]));
                assert(earlier[i] == nodes[i]);
                assert(nodes[i] != nodes[n]);
            }
        }
        lemma_first_from(before, Some(user), 0);
        assert(first_held(before, user) is None);
        lemma_first_from(before, None, 0);
        lemma_pending_count_zero(before);
        match first_pending(before) {
            Some(p) => {
                assert(pending_count(before) > 0);
                assert(n < m);
                // a pending row has not been handed out
                if exists|i: int| 0 <= i < n && #[trigger] got[i] == Some(p) {
                    let i = choose|i: int| 0 <= i < n && #[trigger] got[i] == Some(p);
                    assert(got[i] is Some);
                    assert(before[p] == assigned_row(rows[p], earlier[i]));
                    assert(false);
                }
                assert(before[p] == rows[p]);
                lemma_pending_count_after_assignment(before, p, assigned_row(before[p], user));
            },
            None => {
                assert(pending_count(before) == 0);
                assert(n >= m);
            },
        }
        assert forall|i: int| 0 <= i < nodes.len() implies (#[trigger] all[i] is Some <==> i < m) by {
            if i < n {
                assert(all[i] == got[i]);
            }
        }
        assert forall|i: int| 0 <= i < nodes.len() && all[i] is Some implies {
            let j = (#[trigger] all[i])->0;
            &&& 0 <= j < rows.len()
            &&& is_pending(rows[j])
            &&& after[j] == assigned_row(rows[j], nodes[i])
        } by {
            if i < n {
                assert(all[i] == got[i]);
                assert(earlier[i] == nodes[i]);
                assert(got[i] != index);
            }
        }
        assert forall|j: int|
            0 <= j < rows.len() && (forall|i: int|
                0 <= i < nodes.len() ==> #[trigger] all[i] != Some(j)) implies #[trigger] after[j]
            == rows[j] by {
            assert(all[n] != Some(j));
            assert forall|i: int| 0 <= i < n implies #[trigger] got[i] != Some(j) by {
                assert(all[i] == got[i]);
            }
            assert(before[j] == rows[j]);
        }
    }
}

/// No double assignment. Let `N` distinct nodes, none of which holds a task,
/// poll a pool with `M < N` pending tasks, in any order. Then the first `M`
/// polls get a task each and the other `N - M` get none; the tasks handed out
/// are `M` different ones, each pending before and assigned to its poller
/// afterwards; and no task is left pending.
pub proof fn lemma_no_double_assignment(rows: Seq<TaskRow>, nodes: Seq<u128>)
    requires
        nodes.no_duplicates(),
        forall|i: int| 0 <= i < nodes.len() ==> first_held(rows, #[trigger] nodes[i]) is None,
        pending_count(rows) < nodes.len(),
    ensures
        ({
            let (after, got) = polled_all(rows, nodes);
            let m = pending_count(rows);
            &&& got.len() == nodes.len()
            &&& forall|i: int| 0 <= i < nodes.len() ==> (#[trigger] got[i] is Some <==> i < m)
            &&& forall|i: int|
                0 <= i < m ==> {
                    let j = (#[trigger] got[i])->0;
                    &&& 0 <= j < rows.len()
                    &&& is_pending(rows[j])
                    &&& is_held_by(after[j], nodes[i])
                    &&& after[j].task == rows[j].task
                }
            &&& forall|i: int, k: int| 0 <= i < k < m ==> #[trigger] got[i] != #[trigger] got[k]
            &&& forall|j: int| 0 <= j < after.len() ==> !is_pending(#[trigger] after[j])
        }),
{
    lemma_polled_all(rows, nodes);
    let (after, got) = polled_all(rows, nodes);
    let m = pending_count(rows);
    lemma_pending_count_zero(after);
    assert forall|i: int, k: int| 0 <= i < k < m implies #[trigger] got[i] != #[trigger] got[k] by {
        assert(got[i] is Some && got[k] is Some);
        if got[i] == got[k] {
            let j = got[i]->0;
            assert(after[j] == assigned_row(rows[j], nodes[i]));
            assert(after[j] == assigned_row(rows[j], nodes[k]));
            assert(nodes[i] != nodes[k]);
        }
    }
    assert forall|i: int| 0 <= i < m implies {
        let j = (#[trigger] got[i])->0;
        &&& 0 <= j < rows.len()
        &&& is_pending(rows[j])
        &&& is_held_by(after[j], nodes[i])
        &&& after[j].task == rows[j].task
    } by {
        assert(got[i] is Some);
    }
}

/// The protocol carries out the polling rule. When an admitted and identified
/// node is answered from a pool, it is told exactly the task that a poll of
/// the pool gives it, a held one as well as a newly assigned one; before the
/// reply to an assignment comes at most the second reading of the quota; and
/// the quota is charged only for an assignment, never for a task delivered
/// again.
pub proof fn lemma_protocol_carries_out_poll(
    config: GetTaskConfig,
    request: GetTaskRequest,
    answers: GetTaskAnswers,
    user: UserRecord,
    rows: Seq<TaskRow>,
)
    requires
        admitted(config, request, answers),
        answers.user == Some(Lookup::Found(user)),
        user.token == request.api_token,
        answers.polled == Some(Some(poll_outcome(rows, user.user_id))),
    ensures
        ({
            let step = next_step(config, request, answers);
            let told = Ok::<Option<Task>, ApiError>(task_at(rows, polled(rows, user.user_id).1));
            let assigns = poll_outcome(rows, user.user_id) is Assigned;
            let waits = assigns && config.task_limit && answers.quota_after is None;
            &&& assigns <==> polled(rows, user.user_id).0 != rows
            &&& waits ==> step == (GetTaskAction::RefreshQuota { api_token: request.api_token })
            &&& !waits ==> step is Reply && step->reply == told
            &&& !waits && !assigns ==> step->quota is None
            &&& !waits && assigns ==> step->quota == match answers.quota_after {
                Some(Some(tasks)) if config.task_limit => Some(
                    charged(config, request.api_token, tasks),
                ),
                _ => None,
            }
        }),
{
    lemma_first_from(rows, Some(user.user_id), 0);
    lemma_first_from(rows, None, 0);
    if first_held(rows, user.user_id) is None {
        if let Some(p) = first_pending(rows) {
            let after = rows.update(p, assigned_row(rows[p], user.user_id));
            if after == rows {
                assert(after[p] == rows[p]);
                assert(false);
            }
        }
    }
}

} // verus!
