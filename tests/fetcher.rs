use steam_analyzer::document::{identity_from_fields, is_document, profile_identity};
use steam_analyzer::retry::{is_throttled_status, FetchError, RetryState, RetryStep, UpstreamReply};

#[test]
fn three_throttles_then_success_sleeps_one_two_four_seconds() {
    let mut s = RetryState::start();
    let mut sleeps: Vec<u64> = Vec::new();
    let replies = vec![
        UpstreamReply::Throttled,
        UpstreamReply::Throttled,
        UpstreamReply::Throttled,
        UpstreamReply::Body("{\"response\":{}}".to_string()),
    ];
    let mut outcome = None;
    for r in replies {
        match s.on_reply(r) {
            RetryStep::Wait(ms) => sleeps.push(ms),
            RetryStep::Finished(res) => outcome = Some(res),
        }
    }
    assert_eq!(sleeps, vec![1_000, 2_000, 4_000]);
    assert_eq!(outcome, Some(Ok("{\"response\":{}}".to_string())));
}

#[test]
fn throttled_on_every_attempt_is_a_throttled_error() {
    let mut s = RetryState::start();
    assert_eq!(s.on_reply(UpstreamReply::Throttled), RetryStep::Wait(1_000));
    assert_eq!(s.on_reply(UpstreamReply::Throttled), RetryStep::Wait(2_000));
    assert_eq!(s.on_reply(UpstreamReply::Throttled), RetryStep::Wait(4_000));
    assert_eq!(
        s.on_reply(UpstreamReply::Throttled),
        RetryStep::Finished(Err(FetchError::Throttled))
    );
}

#[test]
fn transport_failure_is_not_retried() {
    let mut s = RetryState::start();
    assert_eq!(
        s.on_reply(UpstreamReply::TransportFailed("connection refused".to_string())),
        RetryStep::Finished(Err(FetchError::Transport("connection refused".to_string())))
    );
}

#[test]
fn unparsable_body_is_a_parse_error() {
    let mut s = RetryState::start();
    assert_eq!(
        s.on_reply(UpstreamReply::Body("<html>busy</html>".to_string())),
        RetryStep::Finished(Err(FetchError::Parse))
    );
}

#[test]
fn throttling_status_is_429_only() {
    assert!(is_throttled_status(429));
    assert!(!is_throttled_status(200));
    assert!(!is_throttled_status(500));
}

#[test]
fn documents_are_told_from_other_text() {
    assert!(is_document("{\"a\":[1,2]}"));
    assert!(is_document("  []  "));
    assert!(!is_document("{"));
    assert!(!is_document(""));
    assert!(!is_document("{} {}"));
}

#[test]
fn identity_is_read_from_first_player() {
    let text = "{\"response\":{\"players\":[{\"personaname\":\"Gabe\",\"avatarfull\":\"http://a/b.jpg\"},{\"personaname\":\"Other\"}]}}";
    let id = profile_identity(text).unwrap();
    assert_eq!(id.display_name, "Gabe");
    assert_eq!(id.avatar_url, "http://a/b.jpg");
}

#[test]
fn identity_fields_fall_back() {
    let text = "{\"response\":{\"players\":[{\"steamid\":\"1\"}]}}";
    let id = profile_identity(text).unwrap();
    assert_eq!(id.display_name, "Unknown");
    assert_eq!(id.avatar_url, "");
    let id = identity_from_fields(Some("N"), None);
    assert_eq!(id.display_name, "N");
    assert_eq!(id.avatar_url, "");
}

#[test]
fn no_identity_without_players() {
    assert!(profile_identity("{\"response\":{\"players\":[]}}").is_none());
    assert!(profile_identity("{\"response\":{}}").is_none());
    assert!(profile_identity("not json").is_none());
}

#[test]
fn identity_ignores_non_string_fields_and_non_array_players() {
    let text = "{\"response\":{\"players\":[{\"personaname\":7,\"avatarfull\":null}]}}";
    let id = profile_identity(text).unwrap();
    assert_eq!(id.display_name, "Unknown");
    assert_eq!(id.avatar_url, "");
    assert!(profile_identity("{\"response\":{\"players\":{\"0\":{\"personaname\":\"X\"}}}}").is_none());
}
