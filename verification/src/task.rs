//! Tasks as they are handed to nodes.

use vstd::prelude::*;

verus! {

/// Where a task stands in its life cycle.
#[derive(Debug, Clone, Copy, PartialEq, Eq, Structural)]
pub enum TaskStatus {
    Pending,
    Assigned,
    Completed,
    Failed,
}

/// The part of a task that a node needs to carry it out. Headers and body
/// are JSON documents in text form, where the task has them.
#[derive(Debug, PartialEq, Eq)]
pub struct Task {
    pub id: u128,
    pub url: String,
    pub method: String,
    pub headers: Option<String>,
    pub body: Option<String>,
}

/// A copy of an optional text.
pub fn copy_text(text: &Option<String>) -> (copy: Option<String>)
    ensures
        copy == *text,
{
    match text {
        Some(t) => Some(t.clone()),
        None => None,
    }
}

impl Clone for Task {
    fn clone(&self) -> (copy: Task)
        ensures
            copy == *self,
    {
        Task {
            id: self.id,
            url: self.url.clone(),
            method: self.method.clone(),
            headers: copy_text(&self.headers),
            body: copy_text(&self.body),
        }
    }
}

} // verus!
