use keycloak_oauth::device_poll::{
    DeviceAuthorizationSession, DevicePollState, PollDeviceCodeEvent, PollFailure, PollResponse,
    poll_response_from_code, run_poll,
};
use keycloak_oauth::token_cache::TokenResult;

fn token(access: &str) -> TokenResult {
    TokenResult {
        access_token: access.to_string(),
        refresh_token: Some("refresh".to_string()),
        expires_in: Some(300),
    }
}

fn pending() -> PollResponse {
    PollResponse::ServerSignal(PollDeviceCodeEvent::AuthorizationPending)
}

/// Fills the response list up to the attempt budget so the loop never runs
/// out of scripted answers.
fn pad(mut responses: Vec<PollResponse>, budget: usize) -> Vec<PollResponse> {
    while responses.len() < budget {
        responses.push(pending());
    }
    responses
}

#[test]
fn pending_then_success_counts_calls() {
    // expires_in 600, interval 5: budget is 120 attempts.
    let responses = pad(
        vec![pending(), pending(), pending(), PollResponse::Token(token("tok-1"))],
        120,
    );
    let (calls, outcome) = run_poll(600, 5, responses);
    assert_eq!(calls, 4);
    match outcome {
        Ok(t) => assert_eq!(t.access_token, "tok-1"),
        Err(_) => panic!("expected the success token"),
    }
}

#[test]
fn immediate_success_is_one_call() {
    let responses = pad(vec![PollResponse::Token(token("tok-2"))], 120);
    let (calls, outcome) = run_poll(600, 5, responses);
    assert_eq!(calls, 1);
    assert!(outcome.is_ok());
}

#[test]
fn slow_down_adds_five_seconds() {
    let mut state = DevicePollState::new(600, 5);
    assert_eq!(state.next_delay(), 5);
    let r = state.on_response(PollResponse::ServerSignal(PollDeviceCodeEvent::SlowDown));
    assert!(r.is_none());
    assert_eq!(state.next_delay(), 10);
    let r = state.on_response(pending());
    assert!(r.is_none());
    assert_eq!(state.next_delay(), 10);
    let r = state.on_response(PollResponse::ServerSignal(PollDeviceCodeEvent::SlowDown));
    assert!(r.is_none());
    assert_eq!(state.next_delay(), 15);
}

#[test]
fn declined_stops_at_once() {
    let responses = pad(
        vec![pending(), PollResponse::ServerSignal(PollDeviceCodeEvent::AuthorizationDeclined)],
        120,
    );
    let (calls, outcome) = run_poll(600, 5, responses);
    assert_eq!(calls, 2);
    assert!(matches!(outcome, Err(PollFailure::Declined)));
}

#[test]
fn expired_stops_at_once() {
    let responses = pad(
        vec![PollResponse::ServerSignal(PollDeviceCodeEvent::ExpiredToken)],
        120,
    );
    let (calls, outcome) = run_poll(600, 5, responses);
    assert_eq!(calls, 1);
    assert!(matches!(outcome, Err(PollFailure::Expired)));
}

#[test]
fn denied_stops_at_once() {
    let responses = pad(
        vec![pending(), pending(), PollResponse::ServerSignal(PollDeviceCodeEvent::AccessDenied)],
        120,
    );
    let (calls, outcome) = run_poll(600, 5, responses);
    assert_eq!(calls, 3);
    assert!(matches!(outcome, Err(PollFailure::Denied)));
}

#[test]
fn transport_error_stops_without_retry() {
    let responses = pad(vec![PollResponse::TransportError], 120);
    let (calls, outcome) = run_poll(600, 5, responses);
    assert_eq!(calls, 1);
    assert!(matches!(outcome, Err(PollFailure::Transport)));
}

#[test]
fn exhausted_budget_times_out() {
    // expires_in 10, interval 5: exactly two attempts.
    let responses = vec![pending(), pending()];
    let (calls, outcome) = run_poll(10, 5, responses);
    assert_eq!(calls, 2);
    assert!(matches!(outcome, Err(PollFailure::Timeout)));
}

#[test]
fn bad_verification_code_keeps_polling() {
    let responses = pad(
        vec![
            PollResponse::ServerSignal(PollDeviceCodeEvent::BadVerificationCode),
            PollResponse::Token(token("tok-3")),
        ],
        120,
    );
    let (calls, outcome) = run_poll(600, 5, responses);
    assert_eq!(calls, 2);
    assert!(outcome.is_ok());
}

#[test]
fn zero_interval_is_read_as_one_second() {
    let state = DevicePollState::new(10, 0);
    assert_eq!(state.next_delay(), 1);
    // The budget divides by the effective one-second interval.
    let responses = vec![pending(); 10];
    let (calls, outcome) = run_poll(10, 0, responses);
    assert_eq!(calls, 10);
    assert!(matches!(outcome, Err(PollFailure::Timeout)));
}

#[test]
fn session_fixes_the_budget() {
    let session = DeviceAuthorizationSession {
        device_code: "dev".to_string(),
        user_code: "ABCD-EFGH".to_string(),
        verification_uri: "https://idp.example/device".to_string(),
        expires_in: 600,
        poll_interval: 5,
    };
    let state = DevicePollState::for_session(&session);
    assert_eq!(state.next_delay(), 5);
    assert!(state.can_poll());
}

#[test]
fn event_codes_round_trip() {
    let events = [
        PollDeviceCodeEvent::AuthorizationPending,
        PollDeviceCodeEvent::AuthorizationDeclined,
        PollDeviceCodeEvent::BadVerificationCode,
        PollDeviceCodeEvent::ExpiredToken,
        PollDeviceCodeEvent::AccessDenied,
        PollDeviceCodeEvent::SlowDown,
    ];
    for e in events.iter() {
        let code = e.as_str();
        let back = PollDeviceCodeEvent::from_code(code);
        assert_eq!(back.map(|b| b.as_str()), Some(code));
    }
    assert_eq!(PollDeviceCodeEvent::as_str(&PollDeviceCodeEvent::SlowDown), "slow_down");
    assert!(PollDeviceCodeEvent::from_code("no_such_code").is_none());
}

#[test]
fn unknown_codes_classify_as_transport() {
    assert!(matches!(
        poll_response_from_code("slow_down"),
        PollResponse::ServerSignal(PollDeviceCodeEvent::SlowDown)
    ));
    assert!(matches!(poll_response_from_code("server_error"), PollResponse::TransportError));
}

#[test]
fn oauth2_error_code_classifies() {
    // The code string oauth2 carries for a device-flow error classifies
    // into the matching signal.
    let resp: oauth2::StandardErrorResponse<oauth2::DeviceCodeErrorResponseType> =
        oauth2::StandardErrorResponse::new(
            oauth2::DeviceCodeErrorResponseType::SlowDown,
            None,
            None,
        );
    let code = resp.error().as_ref();
    assert!(matches!(
        poll_response_from_code(code),
        PollResponse::ServerSignal(PollDeviceCodeEvent::SlowDown)
    ));
    let resp: oauth2::StandardErrorResponse<oauth2::DeviceCodeErrorResponseType> =
        oauth2::StandardErrorResponse::new(
            oauth2::DeviceCodeErrorResponseType::AuthorizationPending,
            None,
            None,
        );
    assert!(matches!(
        poll_response_from_code(resp.error().as_ref()),
        PollResponse::ServerSignal(PollDeviceCodeEvent::AuthorizationPending)
    ));
}
