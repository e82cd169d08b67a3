use block_mesh::check_token::{next_action, CacheKey, CheckTokenAction, CheckTokenAnswers, CheckTokenRequest};
use block_mesh::error::{ApiError, Lookup};
use std::collections::HashMap;

fn key() -> CacheKey {
    CacheKey { email: "node@example.org".to_string(), api_token: 77 }
}

fn reply(r: Result<u128, ApiError>) -> CheckTokenAction {
    CheckTokenAction::Reply { reply: r }
}

struct World {
    cache: HashMap<(String, u128), u128>,
    users: HashMap<String, u128>,
    tokens: HashMap<u128, u128>,
    database_questions: u32,
}

fn check(world: &mut World, email: &str, token: u128) -> Result<u128, ApiError> {
    let request = CheckTokenRequest::new(email, token);
    let mut answers = CheckTokenAnswers::new();
    for _ in 0..7 {
        match next_action(&request, 30, &answers) {
            CheckTokenAction::CacheGet { key } => {
                answers.cached = Some(world.cache.get(&(key.email, key.api_token)).copied());
            }
            CheckTokenAction::FindUser { email } => {
                world.database_questions += 1;
                answers.user = Some(match world.users.get(&email) {
                    Some(id) => Lookup::Found(*id),
                    None => Lookup::Missing,
                });
            }
            CheckTokenAction::FindActiveToken { user_id } => {
                world.database_questions += 1;
                answers.token = Some(match world.tokens.get(&user_id) {
                    Some(t) => Lookup::Found(*t),
                    None => Lookup::Missing,
                });
            }
            CheckTokenAction::CacheSet { key, api_token, expire } => {
                assert_eq!(expire, 30);
                world.cache.insert((key.email, key.api_token), api_token);
                answers.stored = Some(true);
            }
            CheckTokenAction::Commit => answers.committed = Some(true),
            CheckTokenAction::Reply { reply } => return reply,
        }
    }
    unreachable!()
}

fn world() -> World {
    let mut w = World {
        cache: HashMap::new(),
        users: HashMap::new(),
        tokens: HashMap::new(),
        database_questions: 0,
    };
    w.users.insert("node@example.org".to_string(), 5);
    w.tokens.insert(5, 77);
    w.users.insert("bare@example.org".to_string(), 6);
    w
}

#[test]
fn second_check_is_served_from_the_cache() {
    let mut w = world();
    assert_eq!(check(&mut w, "Node@Example.org", 77), Ok(77));
    assert_eq!(w.database_questions, 2);
    assert_eq!(check(&mut w, "node@example.ORG", 77), Ok(77));
    assert_eq!(w.database_questions, 2);
    assert_eq!(w.cache.len(), 1);
}

#[test]
fn rejected_credentials_are_not_cached() {
    let mut w = world();
    assert_eq!(check(&mut w, "node@example.org", 78), Err(ApiError::ApiTokenMismatch));
    assert_eq!(check(&mut w, "nobody@example.org", 77), Err(ApiError::UserNotFound));
    assert_eq!(check(&mut w, "bare@example.org", 77), Err(ApiError::ApiTokenNotFound));
    assert!(w.cache.is_empty());
    assert_eq!(check(&mut w, "node@example.org", 78), Err(ApiError::ApiTokenMismatch));
    assert_eq!(w.database_questions, 7);
}

#[test]
fn request_is_normalised_and_keyed() {
    let request = CheckTokenRequest::new("Node@Example.ORG", 77);
    assert_eq!(request.email, "node@example.org");
    assert_eq!(request.api_token, 77);
    assert_eq!(request.key(), key());
    let answers = CheckTokenAnswers::new();
    assert_eq!(next_action(&request, 30, &answers), CheckTokenAction::CacheGet { key: key() });
}

#[test]
fn cached_credential_is_accepted_at_once() {
    let request = CheckTokenRequest::new("node@example.org", 77);
    let mut a = CheckTokenAnswers::new();
    a.cached = Some(Some(77));
    a.user = Some(Lookup::Missing);
    assert_eq!(next_action(&request, 30, &a), reply(Ok(77)));
}

#[test]
fn verification_steps_in_order() {
    let request = CheckTokenRequest::new("node@example.org", 77);
    let mut a = CheckTokenAnswers::new();
    a.cached = Some(None);
    assert_eq!(
        next_action(&request, 30, &a),
        CheckTokenAction::FindUser { email: "node@example.org".to_string() }
    );
    a.user = Some(Lookup::Found(5));
    assert_eq!(next_action(&request, 30, &a), CheckTokenAction::FindActiveToken { user_id: 5 });
    a.token = Some(Lookup::Found(77));
    assert_eq!(
        next_action(&request, 45, &a),
        CheckTokenAction::CacheSet { key: key(), api_token: 77, expire: 45 }
    );
    a.stored = Some(true);
    assert_eq!(next_action(&request, 30, &a), CheckTokenAction::Commit);
    a.committed = Some(true);
    assert_eq!(next_action(&request, 30, &a), reply(Ok(77)));
}

#[test]
fn failures_of_database_and_cache_are_reported() {
    let request = CheckTokenRequest::new("node@example.org", 77);
    let mut a = CheckTokenAnswers::new();
    a.cached = Some(None);
    a.user = Some(Lookup::Failed);
    assert_eq!(next_action(&request, 30, &a), reply(Err(ApiError::Database)));
    a.user = Some(Lookup::Found(5));
    a.token = Some(Lookup::Failed);
    assert_eq!(next_action(&request, 30, &a), reply(Err(ApiError::Database)));
    a.token = Some(Lookup::Found(77));
    a.stored = Some(false);
    assert_eq!(next_action(&request, 30, &a), reply(Err(ApiError::Cache)));
    a.stored = Some(true);
    a.committed = Some(false);
    assert_eq!(next_action(&request, 30, &a), reply(Err(ApiError::Database)));
}
