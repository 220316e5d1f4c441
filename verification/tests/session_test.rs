use stellr::session::{
    admission, bearer_token_is_valid, cookie_token_is_valid, is_server_path,
    query_token_is_valid, requested_asset, session_cookie, token_matches, Admission,
};

fn headers(values: &[&str]) -> Vec<String> {
    values.iter().map(|v| v.to_string()).collect()
}

#[test]
fn token_query_exchanges_for_a_strict_http_only_session_cookie() {
    assert_eq!(admission(Some("sekrit"), None, &vec![], &vec![]), Admission::Unauthorized);
    assert_eq!(
        admission(Some("sekrit"), Some("token=sekrit"), &vec![], &vec![]),
        Admission::SetCookie
    );
    assert_eq!(
        session_cookie("sekrit"),
        "stellr_token=sekrit; HttpOnly; SameSite=Strict; Path=/"
    );
    assert_eq!(
        admission(Some("sekrit"), None, &headers(&["stellr_token=sekrit"]), &vec![]),
        Admission::Accepted
    );
}

#[test]
fn exact_cookie_and_bearer_tokens_are_accepted_without_setting_a_cookie() {
    assert_eq!(
        admission(Some("sekrit"), None, &headers(&["other=value; stellr_token=sekrit"]), &vec![]),
        Admission::Accepted
    );
    assert_eq!(
        admission(Some("sekrit"), None, &vec![], &headers(&["Bearer sekrit"])),
        Admission::Accepted
    );
}

#[test]
fn token_auth_rejects_partial_or_wrong_values() {
    assert_eq!(
        admission(Some("sekrit"), Some("token=sekrit-extra"), &vec![], &vec![]),
        Admission::Unauthorized
    );
    assert_eq!(
        admission(Some("sekrit"), None, &headers(&["stellr_token=sekrit-extra"]), &vec![]),
        Admission::Unauthorized
    );
    assert_eq!(
        admission(Some("sekrit"), None, &vec![], &headers(&["Bearer sekrit-extra"])),
        Admission::Unauthorized
    );
}

#[test]
fn protected_control_socket_rejects_missing_or_inexact_tokens() {
    assert!(!query_token_is_valid(None, "session-token"));
    assert!(!query_token_is_valid(Some("token=session-token-extra"), "session-token"));
    assert!(query_token_is_valid(Some("token=session-token"), "session-token"));
}

#[test]
fn open_sessions_admit_everything() {
    assert_eq!(admission(None, None, &vec![], &vec![]), Admission::Open);
}

#[test]
fn a_token_must_come_exactly_once() {
    assert!(!query_token_is_valid(Some("token=t&token=t"), "t"));
    assert!(query_token_is_valid(Some("a=1&token=t&b=2"), "t"));
    assert!(query_token_is_valid(Some("token=a%20b"), "a b"));
    assert!(!cookie_token_is_valid(&headers(&["stellr_token=t", "stellr_token=t"]), "t"));
    assert!(!cookie_token_is_valid(&headers(&["stellr_token=t; stellr_token=u"]), "t"));
    assert!(cookie_token_is_valid(&headers(&["a=b", " stellr_token=t ;c=d"]), "t"));
    assert!(!cookie_token_is_valid(&headers(&["stellr_token"]), "t"));
    assert!(!bearer_token_is_valid(&headers(&["Bearer t", "Bearer t"]), "t"));
    assert!(bearer_token_is_valid(&headers(&["  bEaReR\tt  "]), "t"));
    assert!(!bearer_token_is_valid(&headers(&["Bearer t extra"]), "t"));
    assert!(!bearer_token_is_valid(&headers(&["Basic t"]), "t"));
    assert!(!bearer_token_is_valid(&headers(&["Bearer"]), "t"));
}

#[test]
fn tokens_match_only_exactly() {
    assert!(token_matches("sekrit", "sekrit"));
    assert!(!token_matches("sekrit", "sekri"));
    assert!(!token_matches("sekrit", "Sekrit"));
    assert!(token_matches("", ""));
}

#[test]
fn embedded_ui_does_not_mask_unknown_api_paths() {
    assert!(is_server_path("api"));
    assert!(is_server_path("api/unknown"));
    assert!(is_server_path("ws/control"));
    assert!(!is_server_path("apis"));
    assert!(!is_server_path("assets/app.js"));
    assert_eq!(requested_asset("/api/unknown"), None);
    assert_eq!(requested_asset("/"), Some("index.html".to_owned()));
    assert_eq!(requested_asset(""), Some("index.html".to_owned()));
    assert_eq!(requested_asset("//assets/app.js"), Some("assets/app.js".to_owned()));
    assert_eq!(requested_asset("/spaces/abc"), Some("spaces/abc".to_owned()));
}
