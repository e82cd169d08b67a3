//! The pool of tasks and the rule by which a polling node gets one: a task it
//! already holds comes back unchanged, else the oldest pending task becomes
//! its own. Every poll is one atomic step, as a transaction makes it.

use crate::task::{Task, TaskStatus};
use vstd::prelude::*;

verus! {

/// A task with its place in the life cycle.
pub struct TaskRow {
    pub task: Task,
    pub status: TaskStatus,
    /// The user the task is assigned to, once it has been assigned.
    pub assignee: Option<u128>,
}

/// The row is assigned to `user` and not yet finished.
pub open spec fn is_held_by(row: TaskRow, user: u128) -> bool {
    row.status == TaskStatus::Assigned && row.assignee == Some(user)
}

/// The row waits for a node.
pub open spec fn is_pending(row: TaskRow) -> bool {
    row.status == TaskStatus::Pending
}

/// What a search looks for: a row held by the given user, or with `None` a
/// pending row.
pub open spec fn wanted(row: TaskRow, holder: Option<u128>) -> bool {
    match holder {
        Some(user) => is_held_by(row, user),
        None => is_pending(row),
    }
}

/// The first wanted row at or after `from`. Rows are kept oldest first, so
/// for pending rows this is the oldest.
pub open spec fn first_from(rows: Seq<TaskRow>, holder: Option<u128>, from: int) -> Option<int>
    decreases rows.len() - from,
{
    if from < 0 || from >= rows.len() {
        None
    } else if wanted(rows[from], holder) {
        Some(from)
    } else {
        first_from(rows, holder, from + 1)
    }
}

/// The first row held by `user`.
pub open spec fn first_held(rows: Seq<TaskRow>, user: u128) -> Option<int> {
    first_from(rows, Some(user), 0)
}

/// The oldest pending row.
pub open spec fn first_pending(rows: Seq<TaskRow>) -> Option<int> {
    first_from(rows, None, 0)
}

/// The row once it is assigned to `user`.
pub open spec fn assigned_row(row: TaskRow, user: u128) -> TaskRow {
    TaskRow { task: row.task, status: TaskStatus::Assigned, assignee: Some(user) }
}

/// One poll by `user`: the pool afterwards and the row that the user gets.
pub open spec fn polled(rows: Seq<TaskRow>, user: u128) -> (Seq<TaskRow>, Option<int>) {
    match first_held(rows, user) {
        Some(i) => (rows, Some(i)),
        None => match first_pending(rows) {
            Some(p) => (rows.update(p, assigned_row(rows[p], user)), Some(p)),
            None => (rows, None),
        },
    }
}

/// What a poll gives a node.
#[derive(Debug, PartialEq, Eq)]
pub enum Polled {
    /// No task: the node holds none and none is pending.
    Nothing,
    /// The task that the node already holds, once more.
    Held(Task),
    /// A task that was pending and is the node's own from now on.
    Assigned(Task),
}

/// What one poll by `user` gives them.
pub open spec fn poll_outcome(rows: Seq<TaskRow>, user: u128) -> Polled {
    match first_held(rows, user) {
        Some(i) => Polled::Held(rows[i].task),
        None => match first_pending(rows) {
            Some(p) => Polled::Assigned(rows[p].task),
            None => Polled::Nothing,
        },
    }
}

/// The task that a poll gave, if it gave one.
pub open spec fn task_of(polled: Polled) -> Option<Task> {
    match polled {
        Polled::Nothing => None,
        Polled::Held(task) => Some(task),
        Polled::Assigned(task) => Some(task),
    }
}

/// The task of a row, where there is a row.
pub open spec fn task_at(rows: Seq<TaskRow>, index: Option<int>) -> Option<Task> {
    match index {
        Some(i) => Some(rows[i].task),
        None => None,
    }
}

/// How many rows are pending.
pub open spec fn pending_count(rows: Seq<TaskRow>) -> nat
    decreases rows.len(),
{
    if rows.len() == 0 {
        0
    } else {
        pending_count(rows.drop_last()) + if is_pending(rows.last()) {
            1nat
        } else {
            0nat
        }
    }
}

/// What `first_from` finds is wanted and is the first such row; where it
/// finds nothing, no row at or after `from` is wanted.
pub proof fn lemma_first_from(rows: Seq<TaskRow>, holder: Option<u128>, from: int)
    requires
        0 <= from,
    ensures
        match first_from(rows, holder, from) {
            Some(i) => {
                &&& from <= i < rows.len()
                &&& wanted(rows[i], holder)
                &&& forall|j: int| from <= j < i ==> !wanted(#[trigger] rows[j], holder)
            },
            None => forall|j: int| from <= j < rows.len() ==> !wanted(#[trigger] rows[j], holder),
        },
    decreases rows.len() - from,
{
    if from < rows.len() && !wanted(rows[from], holder) {
        lemma_first_from(rows, holder, from + 1);
    }
}

/// The tasks of the cluster, oldest first.
pub struct TaskPool {
    rows: Vec<TaskRow>,
}

impl View for TaskPool {
    type V = Seq<TaskRow>;

    closed spec fn view(&self) -> Seq<TaskRow> {
        self.rows@
    }
}

impl TaskPool {
    /// A pool without tasks.
    pub fn new() -> (pool: TaskPool)
        ensures
            pool@ == Seq::<TaskRow>::empty(),
    {
        TaskPool { rows: Vec::new() }
    }

    /// Number of tasks in the pool, whatever their status.
    pub fn len(&self) -> (n: usize)
        ensures
            n == self@.len(),
    {
        self.rows.len()
    }

    /// Adds a task, pending and younger than every task in the pool.
    pub fn add_pending(&mut self, task: Task)
        ensures
            final(self)@ == old(self)@.push(
                TaskRow { task, status: TaskStatus::Pending, assignee: None },
            ),
    {
        self.rows.push(TaskRow { task, status: TaskStatus::Pending, assignee: None });
    }

    /// Status and assignee of the task at `index`, oldest first.
    pub fn state_at(&self, index: usize) -> (state: Option<(TaskStatus, Option<u128>)>)
        ensures
            index < self@.len() ==> state == Some((self@[index as int].status, self@[index as int].assignee)),
            index >= self@.len() ==> state is None,
    {
        if index < self.rows.len() {
            Some((self.rows[index].status, self.rows[index].assignee))
        } else {
            None
        }
    }

    fn find(&self, holder: Option<u128>) -> (found: Option<usize>)
        ensures
            match found {
                Some(i) => first_from(self@, holder, 0) == Some(i as int) && i < self@.len(),
                None => first_from(self@, holder, 0) is None,
            },
    {
        let n = self.rows.len();
        let mut i: usize = 0;
        while i < n
            invariant
                i <= n,
                n == self@.len(),
                first_from(self@, holder, 0) == first_from(self@, holder, i as int),
            decreases n - i,
        {
            let row = &self.rows[i];
            let hit = match holder {
                Some(user) => row.status == TaskStatus::Assigned && match row.assignee {
                    Some(a) => a == user,
                    None => false,
                },
                None => row.status == TaskStatus::Pending,
            };
            if hit {
                return Some(i);
            }
            i += 1;
        }
        None
    }

    /// The task that `user` holds, if any: the oldest if there are several.
    pub fn find_assigned(&self, user: u128) -> (task: Option<Task>)
        ensures
            task == task_at(self@, first_held(self@, user)),
    {
        match self.find(Some(user)) {
            Some(i) => Some(self.rows[i].task.clone()),
            None => None,
        }
    }

    /// The oldest pending task, if any.
    pub fn find_pending(&self) -> (task: Option<Task>)
        ensures
            task == task_at(self@, first_pending(self@)),
    {
        match self.find(None) {
            Some(i) => Some(self.rows[i].task.clone()),
            None => None,
        }
    }

    /// One poll by `user`, in one step. A task that the user already holds is
    /// returned again and nothing changes; else the oldest pending task is
    /// assigned to the user and returned; else there is no task.
    pub fn poll(&mut self, user: u128) -> (outcome: Polled)
        ensures
            final(self)@ == polled(old(self)@, user).0,
            outcome == poll_outcome(old(self)@, user),
            task_of(outcome) == task_at(old(self)@, polled(old(self)@, user).1),
    {
        match self.find(Some(user)) {
            Some(i) => Polled::Held(self.rows[i].task.clone()),
            None => match self.find(None) {
                Some(p) => {
                    let task = self.rows[p].task.clone();
                    let row = TaskRow {
                        task: task.clone(),
                        status: TaskStatus::Assigned,
                        assignee: Some(user),
                    };
                    self.rows.set(p, row);
                    Polled::Assigned(task)
                },
                None => Polled::Nothing,
            },
        }
    }

    /// Ends the task that `user` holds: it becomes completed, or failed where
    /// `succeeded` is false. Says whether the user held a task.
    pub fn finish(&mut self, user: u128, succeeded: bool) -> (held: bool)
        ensures
            held == first_held(old(self)@, user) is Some,
            !held ==> final(self)@ == old(self)@,
            held ==> final(self)@ == old(self)@.update(
                first_held(old(self)@, user)->0,
                TaskRow {
                    task: old(self)@[first_held(old(self)@, user)->0].task,
                    status: if succeeded {
                        TaskStatus::Completed
                    } else {
                        TaskStatus::Failed
                    },
                    assignee: Some(user),
                },
            ),
    {
        match self.find(Some(user)) {
            Some(i) => {
                let row = TaskRow {
                    task: self.rows[i].task.clone(),
                    status: if succeeded {
                        TaskStatus::Completed
                    } else {
                        TaskStatus::Failed
                    },
                    assignee: Some(user),
                };
                self.rows.set(i, row);
                true
            },
            None => false,
        }
    }
}

} // verus!
