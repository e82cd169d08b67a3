//! Handing a task to a polling node. The protocol is a sequence of questions
//! to the cache and the database; this module decides, from the answers
//! received so far, what is asked next or what the node is told. Asking is the
//! caller's part.

use crate::admission::{
    admits, capped_product, capped_sum, commit, quota_expiry, reserve, verdict, verdict_under,
    FailurePolicy, Quota,
};
use crate::error::{ApiError, Lookup};
use crate::task::Task;
use crate::task_pool::Polled;
use vstd::prelude::*;

verus! {

/// Deployment settings that the protocol reads.
#[derive(Debug, Clone, Copy, PartialEq, Eq)]
pub struct GetTaskConfig {
    /// Whether task quotas are enforced.
    pub task_limit: bool,
    /// Whether the rate limiter is consulted.
    pub rate_limit: bool,
    /// What becomes of a request when the rate limiter cannot be reached.
    pub limiter_failure: FailurePolicy,
    /// Tasks that one credential may receive within a quota window.
    pub limit: u64,
    /// Extra tasks charged to the quota for every assignment.
    pub task_bonus: u64,
    /// Length of the rate-limit window in seconds.
    pub expire: u64,
}

/// What the node sent.
pub struct GetTaskRequest {
    pub email: String,
    pub api_token: u128,
    /// The address under which the node is rate-limited, where it is known:
    /// see [`effective_address`].
    pub address: Option<String>,
}

/// A user with the credential on file for them.
#[derive(Debug, Clone, Copy, PartialEq, Eq)]
pub struct UserRecord {
    pub user_id: u128,
    pub token: u128,
}

/// The answers received so far. A field is `None` until its question has been
/// asked and answered.
pub struct GetTaskAnswers {
    /// Tasks charged to the credential in the current quota window; `None`
    /// inside when the quota could not be read.
    pub quota: Option<Option<u64>>,
    /// The rate limiter's verdict; `None` inside when it could not be reached.
    pub rate: Option<Option<bool>>,
    /// The user on file under the request's email.
    pub user: Option<Lookup<UserRecord>>,
    /// What the poll of the task pool gave; `None` inside when its
    /// transaction failed and was rolled back.
    pub polled: Option<Option<Polled>>,
    /// The quota as read again after the assignment was committed; `None`
    /// inside when it could not be read.
    pub quota_after: Option<Option<u64>>,
}

/// The new quota record to store after an assignment.
#[derive(Debug, Clone, Copy, PartialEq, Eq)]
pub struct QuotaUpdate {
    pub api_token: u128,
    pub tasks: u64,
    /// Seconds until the record expires.
    pub expire: u64,
}

/// What to do next.
#[derive(Debug, PartialEq, Eq)]
pub enum GetTaskAction {
    /// Read the quota record of the credential.
    FetchQuota { api_token: u128 },
    /// Ask the rate limiter about this credential and address.
    CheckRateLimit { api_token: u128, address: String },
    /// Look the user up by email.
    FindUser { email: String },
    /// In one transaction: if the user holds an assigned task, read it; else
    /// select the oldest pending task, skipping rows that others hold locked,
    /// mark it as assigned to the user and make sure that the user has a daily
    /// roll-up for today; then commit.
    Poll { user_id: u128 },
    /// Read the quota record again, now that the assignment is committed.
    RefreshQuota { api_token: u128 },
    /// Answer the node, and store the quota record if there is one.
    Reply { reply: Result<Option<Task>, ApiError>, quota: Option<QuotaUpdate> },
}

/// The quota record after one assignment: one task and the bonus more, kept
/// for ten rate-limit windows.
pub open spec fn charged(config: GetTaskConfig, api_token: u128, tasks: u64) -> QuotaUpdate {
    QuotaUpdate {
        api_token,
        tasks: capped_sum(tasks as int, capped_sum(1, config.task_bonus as int)) as u64,
        expire: capped_product(10, config.expire as int) as u64,
    }
}

/// An answer to the node without a quota record to store.
pub open spec fn reply(answer: Result<Option<Task>, ApiError>) -> GetTaskAction {
    GetTaskAction::Reply { reply: answer, quota: None }
}

/// The address under which a request is rate-limited: the loopback address
/// in a local deployment, else the one that the edge proxy reported.
pub open spec fn address_of(local: bool, reported: Option<Seq<char>>) -> Option<Seq<char>> {
    if local {
        Some("127.0.0.1"@)
    } else {
        reported
    }
}

/// The view of an optional text.
pub open spec fn text_view(text: Option<String>) -> Option<Seq<char>> {
    match text {
        Some(t) => Some(t@),
        None => None,
    }
}

/// The part of the protocol that follows a committed assignment of `task`.
/// The node gets the task in any case: charging the quota is a side effect
/// that is carried out where the quota can be read and left out where it
/// cannot.
pub open spec fn after_commit(
    config: GetTaskConfig,
    request: GetTaskRequest,
    answers: GetTaskAnswers,
    task: Task,
) -> GetTaskAction {
    if !config.task_limit {
        reply(Ok(Some(task)))
    } else {
        match answers.quota_after {
            None => GetTaskAction::RefreshQuota { api_token: request.api_token },
            Some(Some(tasks)) => GetTaskAction::Reply {
                reply: Ok(Some(task)),
                quota: Some(charged(config, request.api_token, tasks)),
            },
            Some(None) => reply(Ok(Some(task))),
        }
    }
}

/// The part of the protocol that follows the identification of the user.
pub open spec fn for_user(
    config: GetTaskConfig,
    request: GetTaskRequest,
    answers: GetTaskAnswers,
    user: UserRecord,
) -> GetTaskAction {
    if user.token != request.api_token {
        reply(Err(ApiError::ApiTokenNotFound))
    } else {
        match answers.polled {
            None => GetTaskAction::Poll { user_id: user.user_id },
            Some(None) => reply(Ok(None)),
            Some(Some(Polled::Nothing)) => reply(Ok(None)),
            Some(Some(Polled::Held(task))) => reply(Ok(Some(task))),
            Some(Some(Polled::Assigned(task))) => after_commit(config, request, answers, task),
        }
    }
}

/// The part of the protocol that follows admission.
pub open spec fn once_admitted(
    config: GetTaskConfig,
    request: GetTaskRequest,
    answers: GetTaskAnswers,
) -> GetTaskAction {
    match answers.user {
        None => GetTaskAction::FindUser { email: request.email },
        Some(Lookup::Failed) => reply(Ok(None)),
        Some(Lookup::Missing) => reply(Err(ApiError::UserNotFound)),
        Some(Lookup::Found(user)) => for_user(config, request, answers, user),
    }
}

/// The next step of the protocol. In order: the quota is read and must admit
/// a task, an unreadable quota counting as used up; the node's address must be
/// known; the rate limiter must allow the request, the configured policy
/// deciding where it cannot be reached; the user must exist and the
/// credential must be theirs; then the pool is polled in one transaction. A
/// task that the user already holds is delivered again; a task that was
/// assigned is delivered and, where the quota can be read again, charged to
/// it. A failing database ends the protocol with "no task".
pub open spec fn next_step(
    config: GetTaskConfig,
    request: GetTaskRequest,
    answers: GetTaskAnswers,
) -> GetTaskAction {
    if config.task_limit && answers.quota is None {
        GetTaskAction::FetchQuota { api_token: request.api_token }
    } else if config.task_limit && !admits(answers.quota->0, config.limit) {
        reply(Ok(None))
    } else if request.address is None {
        reply(Err(ApiError::MissingAddress))
    } else if config.rate_limit && answers.rate is None {
        GetTaskAction::CheckRateLimit { api_token: request.api_token, address: request.address->0 }
    } else if config.rate_limit && !verdict(config.limiter_failure, answers.rate->0) {
        reply(Ok(None))
    } else {
        once_admitted(config, request, answers)
    }
}

/// The address under which a request is rate-limited.
pub fn effective_address(local: bool, reported: Option<String>) -> (address: Option<String>)
    ensures
        text_view(address) == address_of(local, text_view(reported)),
{
    if local {
        Some("127.0.0.1".to_owned())
    } else {
        reported
    }
}

impl GetTaskAnswers {
    /// No answer yet.
    pub fn new() -> (answers: GetTaskAnswers)
        ensures
            answers == (GetTaskAnswers {
                quota: None,
                rate: None,
                user: None,
                polled: None,
                quota_after: None,
            }),
    {
        GetTaskAnswers { quota: None, rate: None, user: None, polled: None, quota_after: None }
    }
}

fn answer(result: Result<Option<Task>, ApiError>) -> (action: GetTaskAction)
    ensures
        action == reply(result),
{
    GetTaskAction::Reply { reply: result, quota: None }
}

fn step_after_commit(
    config: &GetTaskConfig,
    request: &GetTaskRequest,
    answers: &GetTaskAnswers,
    task: &Task,
) -> (action: GetTaskAction)
    ensures
        action == after_commit(*config, *request, *answers, *task),
{
    if !config.task_limit {
        return answer(Ok(Some(task.clone())));
    }
    match answers.quota_after {
        None => GetTaskAction::RefreshQuota { api_token: request.api_token },
        Some(Some(tasks)) => {
            let update = QuotaUpdate {
                api_token: request.api_token,
                tasks: commit(Quota { tasks }, config.task_bonus).tasks,
                expire: quota_expiry(config.expire, 10),
            };
            GetTaskAction::Reply { reply: Ok(Some(task.clone())), quota: Some(update) }
        },
        Some(None) => answer(Ok(Some(task.clone()))),
    }
}

fn step_for_user(
    config: &GetTaskConfig,
    request: &GetTaskRequest,
    answers: &GetTaskAnswers,
    user: &UserRecord,
) -> (action: GetTaskAction)
    ensures
        action == for_user(*config, *request, *answers, *user),
{
    if user.token != request.api_token {
        return answer(Err(ApiError::ApiTokenNotFound));
    }
    match &answers.polled {
        None => GetTaskAction::Poll { user_id: user.user_id },
        Some(None) => answer(Ok(None)),
        Some(Some(Polled::Nothing)) => answer(Ok(None)),
        Some(Some(Polled::Held(task))) => answer(Ok(Some(task.clone()))),
        Some(Some(Polled::Assigned(task))) => step_after_commit(config, request, answers, task),
    }
}

/// Decides the next step of the protocol from the answers received so far.
pub fn next_action(config: &GetTaskConfig, request: &GetTaskRequest, answers: &GetTaskAnswers) -> (action:
    GetTaskAction)
    ensures
        action == next_step(*config, *request, *answers),
{
    if config.task_limit {
        let record = match answers.quota {
            None => {
                return GetTaskAction::FetchQuota { api_token: request.api_token };
            },
            Some(Some(tasks)) => Some(Quota { tasks }),
            Some(None) => None,
        };
        if reserve(record, config.limit).is_err() {
            return answer(Ok(None));
        }
    }
    let address = match &request.address {
        None => {
            return answer(Err(ApiError::MissingAddress));
        },
        Some(address) => address,
    };
    if config.rate_limit {
        match answers.rate {
            None => {
                return GetTaskAction::CheckRateLimit {
                    api_token: request.api_token,
                    address: address.clone(),
                };
            },
            Some(said) => {
                if !verdict_under(config.limiter_failure, said) {
                    return answer(Ok(None));
                }
            },
        }
    }
    match &answers.user {
        None => GetTaskAction::FindUser { email: request.email.clone() },
        Some(Lookup::Failed) => answer(Ok(None)),
        Some(Lookup::Missing) => answer(Err(ApiError::UserNotFound)),
        Some(Lookup::Found(user)) => step_for_user(config, request, answers, user),
    }
}

/// The request has passed admission control: the quota admits a task, the
/// node's address is known and the rate limiter, or the policy in its place,
/// has allowed the request.
pub open spec fn admitted(
    config: GetTaskConfig,
    request: GetTaskRequest,
    answers: GetTaskAnswers,
) -> bool {
    &&& config.task_limit ==> answers.quota is Some && admits(answers.quota->0, config.limit)
    &&& request.address is Some
    &&& config.rate_limit ==> answers.rate is Some && verdict(
        config.limiter_failure,
        answers.rate->0,
    )
}

/// The pool is polled only for a node that is admitted and has proved its
/// identity: the poll is asked for only when admission has passed and the user
/// was found with the presented credential, and it is asked for that user.
pub proof fn lemma_poll_only_after_admission_and_identity(
    config: GetTaskConfig,
    request: GetTaskRequest,
    answers: GetTaskAnswers,
)
    requires
        next_step(config, request, answers) is Poll,
    ensures
        admitted(config, request, answers),
        answers.user matches Some(Lookup::Found(user)) && user.token == request.api_token && next_step(
            config,
            request,
            answers,
        ) == (GetTaskAction::Poll { user_id: user.user_id }),
{
}

/// A node that already holds a task gets that task again: once it is admitted
/// and identified, the answer is the task that the poll found for it, and
/// nothing is charged to its quota.
pub proof fn lemma_held_task_is_delivered_again(
    config: GetTaskConfig,
    request: GetTaskRequest,
    answers: GetTaskAnswers,
    user: UserRecord,
    task: Task,
)
    requires
        admitted(config, request, answers),
        answers.user == Some(Lookup::Found(user)),
        user.token == request.api_token,
        answers.polled == Some(Some(Polled::Held(task))),
    ensures
        next_step(config, request, answers) == reply(Ok(Some(task))),
{
}

/// A committed assignment is never hidden. Once the poll has assigned a task,
/// every reply carries that task, whether the quota could be read again or
/// not; the quota is charged exactly where it was read.
pub proof fn lemma_assigned_task_is_always_delivered(
    config: GetTaskConfig,
    request: GetTaskRequest,
    answers: GetTaskAnswers,
    user: UserRecord,
    task: Task,
)
    requires
        admitted(config, request, answers),
        answers.user == Some(Lookup::Found(user)),
        user.token == request.api_token,
        answers.polled == Some(Some(Polled::Assigned(task))),
    ensures
        ({
            let step = next_step(config, request, answers);
            &&& step is Reply ==> step->reply == Ok::<Option<Task>, ApiError>(Some(task))
            &&& step is Reply || step == (GetTaskAction::RefreshQuota { api_token: request.api_token })
            &&& step is Reply <==> !config.task_limit || answers.quota_after is Some
            &&& step is Reply ==> (step->quota matches Some(update) <==> config.task_limit
                && answers.quota_after->0 is Some)
            &&& step is Reply && step->quota is Some ==> step->quota->0 == charged(
                config,
                request.api_token,
                answers.quota_after->0->0,
            )
        }),
{
}

/// A request that fails on identity gets no task, whatever the pool holds.
pub proof fn lemma_identity_failure_is_final(
    config: GetTaskConfig,
    request: GetTaskRequest,
    answers: GetTaskAnswers,
)
    requires
        admitted(config, request, answers),
    ensures
        answers.user == Some(Lookup::<UserRecord>::Missing) ==> next_step(config, request, answers)
            == reply(Err(ApiError::UserNotFound)),
        answers.user matches Some(Lookup::Found(user)) && user.token != request.api_token
            ==> next_step(config, request, answers) == reply(Err(ApiError::ApiTokenNotFound)),
{
}

} // verus!
