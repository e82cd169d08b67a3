//! Taking in a bandwidth report. The report is admitted, its sender is
//! identified, and each of its three readings is smoothed against the stored
//! statistic and queued for merging. This module decides, from the answers
//! received so far, what is asked next or what the node is told.

use crate::aggregate::{smoothed, smoothed_value, Number};
use crate::error::{ApiError, Lookup};
use crate::text::{ascii_lower, emails_match};
use vstd::prelude::*;

verus! {

/// What the node sent.
pub struct BandwidthRequest {
    pub email: String,
    pub api_token: u128,
    /// The node's address as the edge proxy reported it, if it did.
    pub address: Option<String>,
    pub download_speed: Number,
    pub upload_speed: Number,
    pub latency: Number,
}

/// A user as the database holds them.
pub struct UserRow {
    pub id: u128,
    pub email: String,
}

/// A stored statistic as far as a report needs it.
#[derive(Debug, Clone, Copy, PartialEq, Eq)]
pub struct StoredAggregate {
    pub id: Option<u128>,
    pub value: Option<i64>,
}

/// The three statistics that a report feeds.
#[derive(Debug, Clone, Copy, PartialEq, Eq)]
pub struct StoredAggregates {
    pub download: StoredAggregate,
    pub upload: StoredAggregate,
    pub latency: StoredAggregate,
}

/// A smoothed reading on its way to the store.
#[derive(Debug, Clone, Copy, PartialEq, Eq)]
pub struct AggregateMessage {
    pub id: u128,
    pub value: i64,
}

/// Old bandwidth reports of a user that are to be deleted in the background.
#[derive(Debug, Clone, Copy, PartialEq, Eq)]
pub struct Cleanup {
    pub user_id: u128,
    /// Reports older than this many seconds go.
    pub older_than: u64,
}

/// The answer to an accepted report, with the work it leaves behind: three
/// merges to queue, best effort, and a cleanup where that is switched on.
#[derive(Debug, Clone, Copy, PartialEq, Eq)]
pub struct Accepted {
    pub status_code: u16,
    pub download: AggregateMessage,
    pub upload: AggregateMessage,
    pub latency: AggregateMessage,
    pub cleanup: Option<Cleanup>,
}

/// The answers received so far. A field is `None` until its question has been
/// asked and answered.
pub struct BandwidthAnswers {
    /// The rate limiter's verdict; `None` inside when it could not be reached.
    pub rate: Option<Option<bool>>,
    /// The user that the presented credential belongs to.
    pub token: Option<Lookup<u128>>,
    /// That user.
    pub user: Option<Lookup<UserRow>>,
    /// The user's three statistics, created where they were missing.
    pub aggregates: Option<Lookup<StoredAggregates>>,
}

/// What to do next.
pub enum BandwidthAction {
    /// Ask the rate limiter about this credential and address.
    CheckRateLimit { api_token: u128, address: String },
    /// Look up the user that the credential belongs to.
    FindToken { api_token: u128 },
    /// Look the user up by id.
    FindUser { user_id: u128 },
    /// In one transaction: read the download, upload and latency statistics
    /// of the user, creating those that are missing.
    EnsureAggregates { user_id: u128 },
    /// Answer the node.
    Reply { reply: Result<Accepted, ApiError> },
}

/// The value of a reading: a reading that is not a finite number counts as
/// zero.
pub open spec fn reading(number: Number) -> i64 {
    match number {
        Number::Finite(v) => v,
        _ => 0,
    }
}

/// The id under which a merge is queued: the zero id where the row has none.
pub open spec fn id_or_zero(id: Option<u128>) -> u128 {
    match id {
        Some(id) => id,
        None => 0,
    }
}

/// The merge that a reading leads to.
pub open spec fn merge_for(stored: StoredAggregate, number: Number) -> AggregateMessage {
    AggregateMessage {
        id: id_or_zero(stored.id),
        value: smoothed_value(stored.value, reading(number)) as i64,
    }
}

/// The answer to a report whose sender is identified.
pub open spec fn accepted(
    request: BandwidthRequest,
    run_background: bool,
    user_id: u128,
    stored: StoredAggregates,
) -> Accepted {
    Accepted {
        status_code: 200,
        download: merge_for(stored.download, request.download_speed),
        upload: merge_for(stored.upload, request.upload_speed),
        latency: merge_for(stored.latency, request.latency),
        cleanup: if run_background {
            Some(Cleanup { user_id, older_than: 3600 })
        } else {
            None
        },
    }
}

/// An answer to the node.
pub open spec fn reply(answer: Result<Accepted, ApiError>) -> BandwidthAction {
    BandwidthAction::Reply { reply: answer }
}

/// The next step. In order: the node's address must be known; the rate
/// limiter must be reachable and must allow the report; the credential must
/// belong to a user; that user must exist and carry the reported email, ASCII
/// case apart; then the three statistics are read and the report is accepted.
/// A failing database is reported as such.
pub open spec fn next_step(
    request: BandwidthRequest,
    run_background: bool,
    answers: BandwidthAnswers,
) -> BandwidthAction {
    if request.address is None {
        reply(Err(ApiError::MissingAddress))
    } else {
        match answers.rate {
            None => BandwidthAction::CheckRateLimit {
                api_token: request.api_token,
                address: request.address->0,
            },
            Some(None) => reply(Err(ApiError::RateLimitUnavailable)),
            Some(Some(false)) => reply(Err(ApiError::NotAllowedRateLimit)),
            Some(Some(true)) => match answers.token {
                None => BandwidthAction::FindToken { api_token: request.api_token },
                Some(Lookup::Failed) => reply(Err(ApiError::Database)),
                Some(Lookup::Missing) => reply(Err(ApiError::ApiTokenNotFound)),
                Some(Lookup::Found(user_id)) => match answers.user {
                    None => BandwidthAction::FindUser { user_id },
                    Some(Lookup::Failed) => reply(Err(ApiError::Database)),
                    Some(Lookup::Missing) => reply(Err(ApiError::UserNotFound)),
                    Some(Lookup::Found(user)) => if ascii_lower(user.email@) != ascii_lower(
                        request.email@,
                    ) {
                        reply(Err(ApiError::UserNotFound))
                    } else {
                        match answers.aggregates {
                            None => BandwidthAction::EnsureAggregates { user_id: user.id },
                            Some(Lookup::Failed) => reply(Err(ApiError::Database)),
                            Some(Lookup::Missing) => reply(Err(ApiError::Database)),
                            Some(Lookup::Found(stored)) => reply(
                                Ok(accepted(request, run_background, user.id, stored)),
                            ),
                        }
                    },
                },
            },
        }
    }
}

/// The value of a reading.
pub fn reading_of(number: Number) -> (value: i64)
    ensures
        value == reading(number),
{
    match number {
        Number::Finite(v) => v,
        _ => 0,
    }
}

/// The merge that a reading leads to: under the id of the stored row, the mean
/// of the stored value and the reading.
pub fn merge_message(stored: &StoredAggregate, number: Number) -> (message: AggregateMessage)
    ensures
        message == merge_for(*stored, number),
{
    let id = match stored.id {
        Some(id) => id,
        None => 0,
    };
    AggregateMessage { id, value: smoothed(stored.value, reading_of(number)) }
}

impl BandwidthAnswers {
    /// No answer yet.
    pub fn new() -> (answers: BandwidthAnswers)
        ensures
            answers == (BandwidthAnswers { rate: None, token: None, user: None, aggregates: None }),
    {
        BandwidthAnswers { rate: None, token: None, user: None, aggregates: None }
    }
}

fn answer(result: Result<Accepted, ApiError>) -> (action: BandwidthAction)
    ensures
        action == reply(result),
{
    BandwidthAction::Reply { reply: result }
}

fn step_for_user(
    request: &BandwidthRequest,
    run_background: bool,
    answers: &BandwidthAnswers,
    user: &UserRow,
) -> (action: BandwidthAction)
    requires
        request.address is Some,
        answers.rate == Some(Some(true)),
        answers.token is Some,
        answers.token->0 is Found,
        answers.user == Some(Lookup::Found(*user)),
    ensures
        action == next_step(*request, run_background, *answers),
{
    if !emails_match(user.email.as_str(), request.email.as_str()) {
        return answer(Err(ApiError::UserNotFound));
    }
    match answers.aggregates {
        None => BandwidthAction::EnsureAggregates { user_id: user.id },
        Some(Lookup::Failed) => answer(Err(ApiError::Database)),
        Some(Lookup::Missing) => answer(Err(ApiError::Database)),
        Some(Lookup::Found(stored)) => {
            let cleanup = if run_background {
                Some(Cleanup { user_id: user.id, older_than: 3600 })
            } else {
                None
            };
            answer(
                Ok(
                    Accepted {
                        status_code: 200,
                        download: merge_message(&stored.download, request.download_speed),
                        upload: merge_message(&stored.upload, request.upload_speed),
                        latency: merge_message(&stored.latency, request.latency),
                        cleanup,
                    },
                ),
            )
        },
    }
}

/// Decides the next step from the answers received so far.
pub fn next_action(request: &BandwidthRequest, run_background: bool, answers: &BandwidthAnswers) -> (action:
    BandwidthAction)
    ensures
        action == next_step(*request, run_background, *answers),
{
    let address = match &request.address {
        None => {
            return answer(Err(ApiError::MissingAddress));
        },
        Some(address) => address,
    };
    match answers.rate {
        None => {
            return BandwidthAction::CheckRateLimit {
                api_token: request.api_token,
                address: address.clone(),
            };
        },
        Some(None) => {
            return answer(Err(ApiError::RateLimitUnavailable));
        },
        Some(Some(false)) => {
            return answer(Err(ApiError::NotAllowedRateLimit));
        },
        Some(Some(true)) => {},
    }
    let user_id = match answers.token {
        None => {
            return BandwidthAction::FindToken { api_token: request.api_token };
        },
        Some(Lookup::Failed) => {
            return answer(Err(ApiError::Database));
        },
        Some(Lookup::Missing) => {
            return answer(Err(ApiError::ApiTokenNotFound));
        },
        Some(Lookup::Found(user_id)) => user_id,
    };
    match &answers.user {
        None => BandwidthAction::FindUser { user_id },
        Some(Lookup::Failed) => answer(Err(ApiError::Database)),
        Some(Lookup::Missing) => answer(Err(ApiError::UserNotFound)),
        Some(Lookup::Found(user)) => step_for_user(request, run_background, answers, user),
    }
}

/// An admitted and identified sender is always answered with success: once
/// the statistics are read, the answer is the status 200 with the three
/// merges, whatever becomes of them afterwards.
pub proof fn lemma_identified_report_is_accepted(
    request: BandwidthRequest,
    run_background: bool,
    answers: BandwidthAnswers,
    user: UserRow,
    stored: StoredAggregates,
)
    requires
        request.address is Some,
        answers.rate == Some(Some(true)),
        answers.token is Some,
        answers.token->0 is Found,
        answers.user == Some(Lookup::Found(user)),
        ascii_lower(user.email@) == ascii_lower(request.email@),
        answers.aggregates == Some(Lookup::Found(stored)),
    ensures
        next_step(request, run_background, answers) == reply(
            Ok(accepted(request, run_background, user.id, stored)),
        ),
        accepted(request, run_background, user.id, stored).status_code == 200,
{
}

} // verus!
