//! The background job that creates the periodic tasks: how its settings are
//! read and how its loop goes on. Talking to the database and sleeping are
//! the caller's part.

use crate::text::{decimal_value, number_or};
use uuid::Uuid;
use vstd::prelude::*;
use vstd::string::StringSliceAdditionalSpecFns;

verus! {

#[verifier::external_type_specification]
#[verifier::external_body]
pub struct ExUuidError(uuid::Error);

/// The 128-bit value of the UUID that a text denotes, where it denotes one.
pub uninterp spec fn uuid_value(text: Seq<char>) -> Option<u128>;

/// `Uuid::parse_str`, with the UUID handed out as its 128-bit value
/// (`Uuid::as_u128`): the value that the text denotes, or the parser's error
/// where it denotes none.
#[verifier::external_body]
fn parse_uuid(text: &str) -> (parsed: Result<u128, uuid::Error>)
    ensures
        match parsed {
            Ok(value) => uuid_value(text@) == Some(value),
            Err(_) => uuid_value(text@) is None,
        },
{
    Uuid::parse_str(text).map(|uuid| uuid.as_u128())
}

/// Why the job cannot run.
#[derive(Debug, Clone, Copy, PartialEq, Eq, Structural)]
pub enum ConfigError {
    /// The identity of the server is not configured.
    MissingServerUuid,
    /// The configured identity of the server is no UUID.
    InvalidServerUuid,
}

/// The identity under which the server creates tasks, from the setting that
/// holds it and the value that the setting parses to.
pub open spec fn identity(setting: Option<Seq<char>>, parsed: Option<u128>) -> Result<
    u128,
    ConfigError,
> {
    match setting {
        None => Err(ConfigError::MissingServerUuid),
        Some(_) => match parsed {
            Some(value) => Ok(value),
            None => Err(ConfigError::InvalidServerUuid),
        },
    }
}

/// The identity that a parsed setting gives.
pub fn identity_from(parsed: Option<u128>) -> (id: Result<u128, ConfigError>)
    ensures
        id == identity(Some(Seq::<char>::empty()), parsed),
{
    match parsed {
        Some(value) => Ok(value),
        None => Err(ConfigError::InvalidServerUuid),
    }
}

/// The view of an optional text.
pub open spec fn setting_view(setting: Option<&str>) -> Option<Seq<char>> {
    match setting {
        Some(text) => Some(text@),
        None => None,
    }
}

/// The UUID value of an optional text.
pub open spec fn setting_uuid(setting: Option<&str>) -> Option<u128> {
    match setting {
        Some(text) => uuid_value(text@),
        None => None,
    }
}

/// The identity under which the server creates tasks. The setting must be
/// present and must hold a UUID.
pub fn server_identity(setting: Option<&str>) -> (id: Result<u128, ConfigError>)
    ensures
        id == identity(setting_view(setting), setting_uuid(setting)),
{
    match setting {
        None => Err(ConfigError::MissingServerUuid),
        Some(text) => match parse_uuid(text) {
            Ok(value) => identity_from(Some(value)),
            Err(_) => identity_from(None),
        },
    }
}

/// The pause between two runs in milliseconds: the setting where it is a
/// decimal numeral, else 30000.
pub fn interval_millis(setting: Option<&str>) -> (millis: u64)
    ensures
        millis == match setting {
            Some(text) => match decimal_value(text.spec_bytes()) {
                Some(v) => v,
                None => 30000,
            },
            None => 30000,
        },
{
    number_or(setting, 30000)
}

/// Where the job stands.
#[derive(Debug, Clone, Copy, PartialEq, Eq, Structural)]
pub enum CronPhase {
    /// The server's own user is being created.
    Starting,
    /// A run is under way.
    Working,
    /// The job pauses between two runs.
    Sleeping,
    /// The job has given up.
    Stopped,
}

/// What happened.
#[derive(Debug, Clone, Copy, PartialEq, Eq, Structural)]
pub enum CronEvent {
    /// The server's user was created, or could not be.
    ServerUserReady { ok: bool },
    /// A run has ended, well or not.
    RunEnded { ok: bool },
    /// The pause is over.
    Woke,
}

/// What to do next.
#[derive(Debug, Clone, Copy, PartialEq, Eq, Structural)]
pub enum CronAction {
    /// Create the tasks of this run.
    Run,
    /// Pause; report the failed run first where `failed` is set.
    Sleep { millis: u64, failed: bool },
    /// Give up and report the failure.
    Abort,
    /// Nothing: the event does not belong to this phase.
    Ignore,
}

/// One step of the loop. The job starts by creating the server's user and
/// gives up if it cannot. From then on it runs, pauses for the interval and
/// runs again for ever; a failed run is reported and changes nothing else.
pub open spec fn next(phase: CronPhase, event: CronEvent, millis: u64) -> (CronPhase, CronAction) {
    match (phase, event) {
        (CronPhase::Starting, CronEvent::ServerUserReady { ok }) => if ok {
            (CronPhase::Working, CronAction::Run)
        } else {
            (CronPhase::Stopped, CronAction::Abort)
        },
        (CronPhase::Working, CronEvent::RunEnded { ok }) => (
            CronPhase::Sleeping,
            CronAction::Sleep { millis, failed: !ok },
        ),
        (CronPhase::Sleeping, CronEvent::Woke) => (CronPhase::Working, CronAction::Run),
        _ => (phase, CronAction::Ignore),
    }
}

/// Takes one step of the loop.
pub fn step(phase: CronPhase, event: CronEvent, millis: u64) -> (result: (CronPhase, CronAction))
    ensures
        result == next(phase, event, millis),
{
    match phase {
        CronPhase::Starting => match event {
            CronEvent::ServerUserReady { ok } => {
                if ok {
                    (CronPhase::Working, CronAction::Run)
                } else {
                    (CronPhase::Stopped, CronAction::Abort)
                }
            },
            _ => (phase, CronAction::Ignore),
        },
        CronPhase::Working => match event {
            CronEvent::RunEnded { ok } => (
                CronPhase::Sleeping,
                CronAction::Sleep { millis, failed: !ok },
            ),
            _ => (phase, CronAction::Ignore),
        },
        CronPhase::Sleeping => match event {
            CronEvent::Woke => (CronPhase::Working, CronAction::Run),
            _ => (phase, CronAction::Ignore),
        },
        CronPhase::Stopped => (phase, CronAction::Ignore),
    }
}

/// A failed run never ends the job: once the job is running, no event stops
/// it, and a run that ended, however it ended, is followed by a pause of the
/// configured length.
pub proof fn lemma_loop_survives_failures(phase: CronPhase, event: CronEvent, millis: u64)
    requires
        phase == CronPhase::Working || phase == CronPhase::Sleeping,
    ensures
        next(phase, event, millis).0 != CronPhase::Stopped,
        next(phase, event, millis).0 != CronPhase::Starting,
        next(phase, event, millis).1 != CronAction::Abort,
        phase == CronPhase::Working && event is RunEnded ==> next(phase, event, millis).1 == (
        CronAction::Sleep { millis, failed: !event->RunEnded_ok }),
{
}

} // verus!
