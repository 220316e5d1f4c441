use stellr::device_flow::{
    interpret_token_response, DeviceAuthorization, DeviceFlowError, DeviceFlowState,
    DeviceFlowStatus, PollOutcome, PollStep,
};

fn authorization(interval: u64) -> DeviceAuthorization {
    DeviceAuthorization::from_response(
        "device-secret".into(),
        "ABCD-EFGH".into(),
        "https://github.com/login/device".into(),
        900,
        interval,
    )
}

#[test]
fn begins_with_only_safe_operator_fields() {
    let mut state = DeviceFlowState::new();
    let generation = state.begin();
    let status = state.record_authorization(generation, &authorization(5));
    assert_eq!(
        status,
        DeviceFlowStatus::Pending {
            user_code: "ABCD-EFGH".into(),
            verification_uri: "https://github.com/login/device".into(),
            expires_in_seconds: 900,
            interval_seconds: 5,
        }
    );
    assert_eq!(state.status(), status);
    assert!(!format!("{status:?}").contains("device-secret"));
}

#[test]
fn maps_terminal_github_responses_without_exposing_an_access_token() {
    assert!(matches!(
        interpret_token_response(Some("gho_token".into()), None, None),
        Ok(PollOutcome::Authorized(_))
    ));
    assert!(matches!(
        interpret_token_response(None, Some("access_denied".into()), None),
        Ok(PollOutcome::Denied)
    ));
    assert!(matches!(
        interpret_token_response(None, Some("expired_token".into()), None),
        Ok(PollOutcome::Expired)
    ));
    assert!(matches!(
        interpret_token_response(None, Some("authorization_pending".into()), None),
        Ok(PollOutcome::Pending)
    ));
    assert!(matches!(
        interpret_token_response(None, Some("slow_down".into()), None),
        Ok(PollOutcome::SlowDown)
    ));
    assert!(matches!(
        interpret_token_response(None, Some("incorrect_client_credentials".into()), Some("bad client".into())),
        Err(DeviceFlowError::Api(message)) if message == "bad client"
    ));
    assert!(matches!(
        interpret_token_response(None, None, None),
        Err(DeviceFlowError::Api(message)) if message == "response contained neither a token nor an error"
    ));

    let mut state = DeviceFlowState::new();
    let generation = state.begin();
    let token = match interpret_token_response(Some("gho_token".into()), None, None) {
        Ok(outcome) => outcome,
        Err(_) => unreachable!(),
    };
    assert_eq!(state.record_outcome(generation, &authorization(5), 5, Ok(token)), PollStep::Stop);
    assert_eq!(state.status(), DeviceFlowStatus::Authorized { storage_warning: None });
    assert!(!format!("{:?}", state.status()).contains("gho_token"));
    assert_eq!(state.take_token().map(|t| t.expose().to_owned()), Some("gho_token".to_owned()));
    assert!(state.take_token().is_none());
}

#[test]
fn pending_and_slow_down_respect_the_server_interval_and_add_five_seconds() {
    let mut state = DeviceFlowState::new();
    let generation = state.begin();
    assert_eq!(
        state.record_outcome(generation, &authorization(5), 5, Ok(PollOutcome::Pending)),
        PollStep::Continue { interval_seconds: 5 }
    );
    assert_eq!(
        state.record_outcome(generation, &authorization(5), 5, Ok(PollOutcome::SlowDown)),
        PollStep::Continue { interval_seconds: 10 }
    );
    assert!(matches!(
        state.status(),
        DeviceFlowStatus::SlowDown { interval_seconds: 10, .. }
    ));
    assert_eq!(
        state.record_outcome(generation, &authorization(5), u64::MAX - 1, Ok(PollOutcome::SlowDown)),
        PollStep::Continue { interval_seconds: u64::MAX }
    );
}

#[test]
fn cancel_stops_polling_and_retry_starts_with_a_fresh_code() {
    let mut state = DeviceFlowState::new();
    let first = state.begin();
    state.record_authorization(first, &authorization(5));
    state.cancel();
    assert_eq!(state.status(), DeviceFlowStatus::Cancelled);
    assert!(!state.is_current(first));

    state.record_outcome(first, &authorization(5), 5, Ok(PollOutcome::Denied));
    assert_eq!(state.status(), DeviceFlowStatus::Cancelled);

    let second = state.begin();
    assert_ne!(first, second);
    assert_eq!(state.status(), DeviceFlowStatus::Idle);
    state.record_deadline(second);
    assert_eq!(state.status(), DeviceFlowStatus::Expired);
}

#[test]
fn polling_stops_with_expiry_once_the_deadline_has_passed() {
    let mut state = DeviceFlowState::new();
    let generation = state.begin();
    let issued = authorization(1);
    state.record_authorization(generation, &issued);
    assert!(state.wake(generation, &issued, 1));
    assert_eq!(
        state.record_outcome(generation, &issued, 1, Ok(PollOutcome::Pending)),
        PollStep::Continue { interval_seconds: 1 }
    );
    assert_eq!(
        state.record_outcome(generation, &issued, 1, Ok(PollOutcome::SlowDown)),
        PollStep::Continue { interval_seconds: 6 }
    );
    assert!(state.wake(generation, &issued, 899));
    assert!(!state.wake(generation, &issued, 900));
    assert_eq!(state.status(), DeviceFlowStatus::Expired);
}
