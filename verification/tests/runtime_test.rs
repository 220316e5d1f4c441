use stellr::provider::{ProviderError, ProviderSnapshot};
use stellr::runtime::{
    cockpit_url, hex_string, session_token, session_token_for, ProviderGenerations, SessionAuth,
};

#[test]
fn session_token_is_32_lowercase_hex_characters() {
    let token = session_token().unwrap();

    assert_eq!(token.len(), 32);
    assert!(
        token
            .bytes()
            .all(|byte| byte.is_ascii_digit() || (b'a'..=b'f').contains(&byte))
    );
}

#[test]
fn hex_writes_each_byte_high_digit_first() {
    assert_eq!(hex_string(&[0x00, 0x0f, 0xa5, 0xff]), "000fa5ff");
    assert_eq!(hex_string(&[]), "");
}

#[test]
fn session_tokens_follow_the_configured_auth() {
    assert_eq!(session_token_for(&SessionAuth::Disabled), Ok(None));
    assert_eq!(
        session_token_for(&SessionAuth::Fixed("abc".to_owned())),
        Ok(Some("abc".to_owned()))
    );
    assert_eq!(session_token_for(&SessionAuth::Required).unwrap().unwrap().len(), 32);
}

#[test]
fn cockpit_url_carries_the_token_then_the_issue() {
    assert_eq!(cockpit_url("127.0.0.1:8787", None, None), "http://127.0.0.1:8787/");
    assert_eq!(
        cockpit_url("127.0.0.1:49152", Some("session-token"), None),
        "http://127.0.0.1:49152/?token=session-token"
    );
    assert_eq!(
        cockpit_url("127.0.0.1:1", None, Some(14)),
        "http://127.0.0.1:1/?issue=14"
    );
    assert_eq!(
        cockpit_url("127.0.0.1:1", Some("t"), Some(70)),
        "http://127.0.0.1:1/?token=t&issue=70"
    );
}

#[test]
fn a_fetch_across_a_replacement_is_superseded() {
    let mut generations = ProviderGenerations::new();
    let started = generations.generation();
    generations.replace();
    let result = generations.finish_fetch(started, Ok(ProviderSnapshot::without_viewer(vec![])));
    assert_eq!(result.unwrap_err(), ProviderError::Superseded);
    assert!(!generations.allows_cached_viewer_identity());
    assert!(!generations.commit_if_current(&[started]));
}

#[test]
fn a_current_success_confirms_and_marks_its_generation() {
    let mut generations = ProviderGenerations::new();
    generations.replace();
    assert!(!generations.allows_cached_viewer_identity());
    let started = generations.generation();
    let snapshot = generations
        .finish_fetch(started, Ok(ProviderSnapshot::without_viewer(vec![])))
        .unwrap();
    assert_eq!(snapshot.publication_generation(), Some(1));
    assert!(generations.allows_cached_viewer_identity());
    assert!(generations.commit_if_current(&[1, 1]));
    assert!(generations.commit_if_current(&[]));
    assert!(!generations.commit_if_current(&[1, 0]));
}

#[test]
fn a_current_failure_is_passed_through_without_confirming() {
    let mut generations = ProviderGenerations::new();
    generations.replace();
    let started = generations.generation();
    let result = generations.finish_fetch(started, Err(ProviderError::Http("down".to_owned())));
    assert_eq!(result.unwrap_err(), ProviderError::Http("down".to_owned()));
    assert!(!generations.allows_cached_viewer_identity());
}
