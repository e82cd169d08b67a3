//! Checking a presented credential. A credential that was verified against
//! the database is remembered in the cache, and a remembered one is accepted
//! without asking the database again. This module decides, from the answers
//! received so far, what is asked next or what the caller is told.

use crate::error::{ApiError, Lookup};
use crate::text::{ascii_lower, normalize_email};
use vstd::prelude::*;

verus! {

/// What the caller presented. The email is kept in its normalised form.
pub struct CheckTokenRequest {
    pub email: String,
    pub api_token: u128,
}

/// Under which entry of the credential cache a request is remembered: the
/// normalised email together with the credential.
#[derive(Debug, PartialEq, Eq)]
pub struct CacheKey {
    pub email: String,
    pub api_token: u128,
}

/// The answers received so far. A field is `None` until its question has been
/// asked and answered.
pub struct CheckTokenAnswers {
    /// The credential that the cache holds under the request's key; `None`
    /// inside when it holds none or could not be read.
    pub cached: Option<Option<u128>>,
    /// The id of the user on file under the request's email.
    pub user: Option<Lookup<u128>>,
    /// The active credential of that user.
    pub token: Option<Lookup<u128>>,
    /// Whether the cache took the verified credential.
    pub stored: Option<bool>,
    /// Whether the transaction was committed.
    pub committed: Option<bool>,
}

/// What to do next.
#[derive(Debug, PartialEq, Eq)]
pub enum CheckTokenAction {
    /// Read the cache entry of the request.
    CacheGet { key: CacheKey },
    /// Look the user up by normalised email.
    FindUser { email: String },
    /// Look up the active credential of the user.
    FindActiveToken { user_id: u128 },
    /// Remember the credential under the request's key for `expire` seconds.
    CacheSet { key: CacheKey, api_token: u128, expire: u64 },
    /// Commit the transaction in which user and credential were read.
    Commit,
    /// Tell the caller: the accepted credential, or why it was not accepted.
    Reply { reply: Result<u128, ApiError> },
}

/// The cache key of a request.
pub open spec fn key_of(request: CheckTokenRequest) -> CacheKey {
    CacheKey { email: request.email, api_token: request.api_token }
}

/// The next step. A remembered credential is accepted at once. Otherwise the
/// user must exist, must have an active credential, and it must be the
/// presented one; then the credential is remembered, the transaction is
/// committed and the credential accepted. A failing database or cache write
/// is reported as such.
pub open spec fn next_step(request: CheckTokenRequest, expire: u64, answers: CheckTokenAnswers)
    -> CheckTokenAction {
    match answers.cached {
        None => CheckTokenAction::CacheGet { key: key_of(request) },
        Some(Some(token)) => CheckTokenAction::Reply { reply: Ok(token) },
        Some(None) => match answers.user {
            None => CheckTokenAction::FindUser { email: request.email },
            Some(Lookup::Failed) => CheckTokenAction::Reply { reply: Err(ApiError::Database) },
            Some(Lookup::Missing) => CheckTokenAction::Reply { reply: Err(ApiError::UserNotFound) },
            Some(Lookup::Found(user_id)) => match answers.token {
                None => CheckTokenAction::FindActiveToken { user_id },
                Some(Lookup::Failed) => CheckTokenAction::Reply { reply: Err(ApiError::Database) },
                Some(Lookup::Missing) => CheckTokenAction::Reply {
                    reply: Err(ApiError::ApiTokenNotFound),
                },
                Some(Lookup::Found(token)) => if token != request.api_token {
                    CheckTokenAction::Reply { reply: Err(ApiError::ApiTokenMismatch) }
                } else {
                    match answers.stored {
                        None => CheckTokenAction::CacheSet {
                            key: key_of(request),
                            api_token: request.api_token,
                            expire,
                        },
                        Some(false) => CheckTokenAction::Reply { reply: Err(ApiError::Cache) },
                        Some(true) => match answers.committed {
                            None => CheckTokenAction::Commit,
                            Some(false) => CheckTokenAction::Reply { reply: Err(ApiError::Database) },
                            Some(true) => CheckTokenAction::Reply { reply: Ok(token) },
                        },
                    }
                },
            },
        },
    }
}

impl CheckTokenRequest {
    /// The request for an email as presented and a credential.
    pub fn new(email: &str, api_token: u128) -> (request: CheckTokenRequest)
        ensures
            request.email@ == ascii_lower(email@),
            request.api_token == api_token,
    {
        CheckTokenRequest { email: normalize_email(email), api_token }
    }

    /// The cache key of the request.
    pub fn key(&self) -> (key: CacheKey)
        ensures
            key == key_of(*self),
    {
        CacheKey { email: self.email.clone(), api_token: self.api_token }
    }
}

impl CheckTokenAnswers {
    /// No answer yet.
    pub fn new() -> (answers: CheckTokenAnswers)
        ensures
            answers == (CheckTokenAnswers {
                cached: None,
                user: None,
                token: None,
                stored: None,
                committed: None,
            }),
    {
        CheckTokenAnswers { cached: None, user: None, token: None, stored: None, committed: None }
    }
}

fn step_verified(request: &CheckTokenRequest, expire: u64, answers: &CheckTokenAnswers) -> (action:
    CheckTokenAction)
    requires
        answers.cached == Some(None::<u128>),
        answers.user is Some,
        answers.user->0 is Found,
        answers.token == Some(Lookup::Found(request.api_token)),
    ensures
        action == next_step(*request, expire, *answers),
{
    match answers.stored {
        None => CheckTokenAction::CacheSet {
            key: request.key(),
            api_token: request.api_token,
            expire,
        },
        Some(false) => CheckTokenAction::Reply { reply: Err(ApiError::Cache) },
        Some(true) => match answers.committed {
            None => CheckTokenAction::Commit,
            Some(false) => CheckTokenAction::Reply { reply: Err(ApiError::Database) },
            Some(true) => CheckTokenAction::Reply { reply: Ok(request.api_token) },
        },
    }
}

/// Decides the next step from the answers received so far.
pub fn next_action(request: &CheckTokenRequest, expire: u64, answers: &CheckTokenAnswers) -> (action:
    CheckTokenAction)
    ensures
        action == next_step(*request, expire, *answers),
{
    match answers.cached {
        None => {
            return CheckTokenAction::CacheGet { key: request.key() };
        },
        Some(Some(token)) => {
            return CheckTokenAction::Reply { reply: Ok(token) };
        },
        Some(None) => {},
    }
    let user_id = match answers.user {
        None => {
            return CheckTokenAction::FindUser { email: request.email.clone() };
        },
        Some(Lookup::Failed) => {
            return CheckTokenAction::Reply { reply: Err(ApiError::Database) };
        },
        Some(Lookup::Missing) => {
            return CheckTokenAction::Reply { reply: Err(ApiError::UserNotFound) };
        },
        Some(Lookup::Found(user_id)) => user_id,
    };
    match answers.token {
        None => CheckTokenAction::FindActiveToken { user_id },
        Some(Lookup::Failed) => CheckTokenAction::Reply { reply: Err(ApiError::Database) },
        Some(Lookup::Missing) => CheckTokenAction::Reply { reply: Err(ApiError::ApiTokenNotFound) },
        Some(Lookup::Found(token)) => {
            if token != request.api_token {
                CheckTokenAction::Reply { reply: Err(ApiError::ApiTokenMismatch) }
            } else {
                step_verified(request, expire, answers)
            }
        },
    }
}

/// What the protocol talks to: the credential cache, and the database with
/// its users by normalised email and their active credentials.
pub struct World {
    pub cache: Map<CacheKey, u128>,
    pub users: Map<String, u128>,
    pub tokens: Map<u128, u128>,
}

/// How a check ended: the reply, the cache afterwards and the number of
/// questions that were put to the database.
pub struct Outcome {
    pub reply: Option<Result<u128, ApiError>>,
    pub cache: Map<CacheKey, u128>,
    pub database_questions: nat,
}

/// The entry of a map, where it has one.
pub open spec fn entry<K, V>(map: Map<K, V>, key: K) -> Option<V> {
    if map.dom().contains(key) {
        Some(map[key])
    } else {
        None
    }
}

/// What a database lookup in a working database comes back with.
pub open spec fn found<K, V>(map: Map<K, V>, key: K) -> Lookup<V> {
    if map.dom().contains(key) {
        Lookup::Found(map[key])
    } else {
        Lookup::Missing
    }
}

/// Runs the protocol against a world in which cache and database work: every
/// question is answered from the world, every cache write is carried out.
/// `steps` bounds the number of steps; seven are enough for every request.
pub open spec fn run(
    world: World,
    request: CheckTokenRequest,
    expire: u64,
    answers: CheckTokenAnswers,
    cache: Map<CacheKey, u128>,
    asked: nat,
    steps: nat,
) -> Outcome
    decreases steps,
{
    if steps == 0 {
        Outcome { reply: None, cache, database_questions: asked }
    } else {
        let rest = (steps - 1) as nat;
        match next_step(request, expire, answers) {
            CheckTokenAction::CacheGet { key } => run(
                world,
                request,
                expire,
                CheckTokenAnswers { cached: Some(entry(cache, key)), ..answers },
                cache,
                asked,
                rest,
            ),
            CheckTokenAction::FindUser { email } => run(
                world,
                request,
                expire,
                CheckTokenAnswers { user: Some(found(world.users, email)), ..answers },
                cache,
                asked + 1,
                rest,
            ),
            CheckTokenAction::FindActiveToken { user_id } => run(
                world,
                request,
                expire,
                CheckTokenAnswers { token: Some(found(world.tokens, user_id)), ..answers },
                cache,
                asked + 1,
                rest,
            ),
            CheckTokenAction::CacheSet { key, api_token, expire: _ } => run(
                world,
                request,
                expire,
                CheckTokenAnswers { stored: Some(true), ..answers },
                cache.insert(key, api_token),
                asked,
                rest,
            ),
            CheckTokenAction::Commit => run(
                world,
                request,
                expire,
                CheckTokenAnswers { committed: Some(true), ..answers },
                cache,
                asked,
                rest,
            ),
            CheckTokenAction::Reply { reply } => Outcome {
                reply: Some(reply),
                cache,
                database_questions: asked,
            },
        }
    }
}

/// One check of a request against a world, from the first step to the reply.
pub open spec fn checked(world: World, request: CheckTokenRequest, expire: u64) -> Outcome {
    run(
        world,
        request,
        expire,
        CheckTokenAnswers { cached: None, user: None, token: None, stored: None, committed: None },
        world.cache,
        0,
        7,
    )
}

/// Cache short-circuit. A valid credential that is checked twice is verified
/// against the database once: the first check asks the database and leaves
/// the credential in the cache, the second is answered from the cache without
/// a question to the database, and both accept the same credential.
pub proof fn lemma_second_check_is_served_from_cache(
    world: World,
    request: CheckTokenRequest,
    expire: u64,
    user_id: u128,
)
    requires
        !world.cache.dom().contains(key_of(request)),
        world.users.dom().contains(request.email),
        world.users[request.email] == user_id,
        world.tokens.dom().contains(user_id),
        world.tokens[user_id] == request.api_token,
    ensures
        ({
            let first = checked(world, request, expire);
            let second = checked(World { cache: first.cache, ..world }, request, expire);
            &&& first.reply == Some(Ok::<u128, ApiError>(request.api_token))
            &&& first.database_questions == 2
            &&& first.cache == world.cache.insert(key_of(request), request.api_token)
            &&& second.reply == first.reply
            &&& second.database_questions == 0
            &&& second.cache == first.cache
        }),
{
    reveal_with_fuel(run, 8);
}

} // verus!
