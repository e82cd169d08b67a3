use block_mesh::cron::{identity_from, interval_millis, server_identity, step};
use block_mesh::cron::{ConfigError, CronAction, CronEvent, CronPhase};
use block_mesh::text::{emails_match, normalize_email, number_or, parse_u64};

#[test]
fn server_identity_is_parsed_from_the_setting() {
    assert_eq!(
        server_identity(Some("a1a2a3a4-b1b2-c1c2-d1d2-d3d4d5d6d7d8")),
        Ok(0xa1a2a3a4b1b2c1c2d1d2d3d4d5d6d7d8)
    );
    assert_eq!(
        server_identity(Some("A1A2A3A4B1B2C1C2D1D2D3D4D5D6D7D8")),
        Ok(0xa1a2a3a4b1b2c1c2d1d2d3d4d5d6d7d8)
    );
    assert_eq!(server_identity(Some("00000000-0000-0000-0000-000000000000")), Ok(0));
    assert_eq!(server_identity(None), Err(ConfigError::MissingServerUuid));
    assert_eq!(server_identity(Some("")), Err(ConfigError::InvalidServerUuid));
    assert_eq!(server_identity(Some("not-a-uuid")), Err(ConfigError::InvalidServerUuid));
    assert_eq!(identity_from(Some(5)), Ok(5));
    assert_eq!(identity_from(None), Err(ConfigError::InvalidServerUuid));
}

#[test]
fn interval_defaults_to_thirty_seconds() {
    assert_eq!(interval_millis(None), 30000);
    assert_eq!(interval_millis(Some("1500")), 1500);
    assert_eq!(interval_millis(Some("0")), 0);
    assert_eq!(interval_millis(Some("fast")), 30000);
    assert_eq!(interval_millis(Some("")), 30000);
    assert_eq!(interval_millis(Some(" 15")), 30000);
    assert_eq!(interval_millis(Some("-1")), 30000);
}

#[test]
fn numerals_are_read_as_the_standard_library_reads_them() {
    for text in [
        "0", "7", "007", "+12", "+", "", "-0", "1_000", "12a", " 1", "1 ", "٣", "18446744073709551615",
        "18446744073709551616", "99999999999999999999999", "+18446744073709551615", "++1", "1+",
    ] {
        assert_eq!(parse_u64(text), text.parse::<u64>().ok(), "{:?}", text);
    }
    assert_eq!(parse_u64("18446744073709551615"), Some(u64::MAX));
    assert_eq!(parse_u64("18446744073709551616"), None);
    assert_eq!(number_or(Some("10"), 3), 10);
    assert_eq!(number_or(Some("ten"), 3), 3);
    assert_eq!(number_or(None, 3), 3);
}

#[test]
fn emails_are_compared_without_ascii_case() {
    assert_eq!(normalize_email("Node@Example.ORG"), "node@example.org");
    assert_eq!(normalize_email("ÄB@x.y"), "Äb@x.y");
    assert_eq!(normalize_email("[Z]@{a}"), "[z]@{a}");
    assert!(emails_match("Node@Example.org", "nODE@eXAMPLE.ORG"));
    assert!(!emails_match("node@example.org", "node@example.com"));
    assert!(!emails_match("Äb@x.y", "äb@x.y"));
    assert!(emails_match("", ""));
}

#[test]
fn loop_runs_sleeps_and_runs_again() {
    let (p, a) = step(CronPhase::Starting, CronEvent::ServerUserReady { ok: true }, 250);
    assert_eq!((p, a), (CronPhase::Working, CronAction::Run));
    let (p, a) = step(p, CronEvent::RunEnded { ok: true }, 250);
    assert_eq!((p, a), (CronPhase::Sleeping, CronAction::Sleep { millis: 250, failed: false }));
    let (p, a) = step(p, CronEvent::Woke, 250);
    assert_eq!((p, a), (CronPhase::Working, CronAction::Run));
    // a failed run is reported and the loop goes on
    let (p, a) = step(p, CronEvent::RunEnded { ok: false }, 250);
    assert_eq!((p, a), (CronPhase::Sleeping, CronAction::Sleep { millis: 250, failed: true }));
    let (p, a) = step(p, CronEvent::Woke, 250);
    assert_eq!((p, a), (CronPhase::Working, CronAction::Run));
}

#[test]
fn loop_gives_up_only_at_the_start() {
    assert_eq!(
        step(CronPhase::Starting, CronEvent::ServerUserReady { ok: false }, 1),
        (CronPhase::Stopped, CronAction::Abort)
    );
    assert_eq!(step(CronPhase::Stopped, CronEvent::Woke, 1), (CronPhase::Stopped, CronAction::Ignore));
    assert_eq!(step(CronPhase::Starting, CronEvent::Woke, 1), (CronPhase::Starting, CronAction::Ignore));
    assert_eq!(
        step(CronPhase::Working, CronEvent::ServerUserReady { ok: false }, 1),
        (CronPhase::Working, CronAction::Ignore)
    );
    assert_eq!(
        step(CronPhase::Sleeping, CronEvent::RunEnded { ok: false }, 1),
        (CronPhase::Sleeping, CronAction::Ignore)
    );
}
