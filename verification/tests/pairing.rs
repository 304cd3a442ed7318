use wolfpack::daemon::pairing::generate_pairing_code;
use wolfpack::daemon::{
    PairingCommand, PairingRequest, PairingResponse, PairingResult, PairingState,
};

fn request(name: &str) -> PairingRequest {
    PairingRequest {
        device_id: format!("id-{name}"),
        device_name: name.to_string(),
        public_key: format!("key-{name}"),
    }
}

fn response() -> PairingResponse {
    PairingResponse {
        device_id: "id-initiator".to_string(),
        device_name: "initiator".to_string(),
        public_key: "key-initiator".to_string(),
    }
}

fn join(code: &str, name: &str) -> PairingCommand {
    PairingCommand::JoinSession { code: code.to_string(), request: request(name) }
}

#[test]
fn test_pairing_code_format() {
    for _ in 0..200 {
        let code = generate_pairing_code();
        assert_eq!(code.len(), 6);
        assert!(code.chars().all(|c| c.is_ascii_digit()));
        let n: u32 = code.parse().unwrap();
        assert!((100_000..=999_999).contains(&n));
    }
}

#[test]
fn test_pairing_state_create_session() {
    let mut state = PairingState::new();

    let effect = state.handle_command(PairingCommand::CreateSession, 0);

    let code = effect.code.unwrap();
    assert_eq!(code.len(), 6);
    assert!(state.has_active_session(0));
    assert_eq!(state.current_code(0), Some(code.as_str()));
}

#[test]
fn pairing_accept() {
    let mut state = PairingState::new();
    let created = state.step(PairingCommand::CreateSession, 1_000, "482913".to_string());
    assert_eq!(created.code.as_deref(), Some("482913"));
    assert!(created.joiner_reply.is_none() && created.held_reply.is_none() && !created.hold);

    let joined = state.step(join("482913", "joiner"), 2_000, "000000".to_string());
    assert!(joined.hold);
    assert!(joined.joiner_reply.is_none() && joined.held_reply.is_none());

    let pending = state.step(PairingCommand::GetPendingRequest, 3_000, "000000".to_string());
    let seen = pending.pending_request.unwrap();
    assert_eq!(seen.device_id, "id-joiner");
    assert_eq!(seen.device_name, "joiner");
    assert_eq!(seen.public_key, "key-joiner");

    let answered = state.step(
        PairingCommand::RespondToRequest { accepted: true, response: Some(response()) },
        4_000,
        "000000".to_string(),
    );
    match answered.held_reply {
        Some(PairingResult::Accepted(r)) => {
            assert_eq!(r.device_id, "id-initiator");
            assert_eq!(r.device_name, "initiator");
            assert_eq!(r.public_key, "key-initiator");
        }
        other => panic!("expected Accepted, got {other:?}"),
    }
    assert!(!answered.hold);
    // back to idle
    assert!(!state.has_active_session(4_000));
    assert_eq!(state.current_code(4_000), None);
    let after = state.step(PairingCommand::GetPendingRequest, 5_000, "000000".to_string());
    assert!(after.pending_request.is_none());
}

#[test]
fn pairing_expiry() {
    let mut state = PairingState::new();
    state.step(PairingCommand::CreateSession, 0, "482913".to_string());
    assert!(state.has_active_session(300_000));
    assert!(!state.has_active_session(300_001));

    let late = state.step(join("482913", "joiner"), 301_000, "000000".to_string());
    assert!(matches!(late.joiner_reply, Some(PairingResult::Expired)));
    assert!(!late.hold);
    assert!(!state.has_active_session(0));
    // idle now: the same code is unknown
    let again = state.step(join("482913", "joiner"), 1, "000000".to_string());
    assert!(matches!(again.joiner_reply, Some(PairingResult::InvalidCode)));
}

#[test]
fn the_code_is_valid_through_the_last_millisecond() {
    let mut state = PairingState::new();
    state.step(PairingCommand::CreateSession, 10, "482913".to_string());
    let on_time = state.step(join("482913", "joiner"), 300_010, "000000".to_string());
    assert!(on_time.hold);
}

#[test]
fn a_wrong_code_keeps_the_session() {
    let mut state = PairingState::new();
    state.step(PairingCommand::CreateSession, 0, "482913".to_string());
    let wrong = state.step(join("482914", "joiner"), 10, "000000".to_string());
    assert!(matches!(wrong.joiner_reply, Some(PairingResult::InvalidCode)));
    assert!(!wrong.hold);
    assert_eq!(state.current_code(10), Some("482913"));
    let right = state.step(join("482913", "joiner"), 20, "000000".to_string());
    assert!(right.hold);
}

#[test]
fn joining_without_a_session_is_an_invalid_code() {
    let mut state = PairingState::new();
    let effect = state.step(join("482913", "joiner"), 0, "000000".to_string());
    assert!(matches!(effect.joiner_reply, Some(PairingResult::InvalidCode)));
    assert!(!state.has_active_session(0));
}

#[test]
fn declining_and_cancelling_reject_the_joiner() {
    for command in [
        PairingCommand::RespondToRequest { accepted: false, response: None },
        PairingCommand::RespondToRequest { accepted: false, response: Some(response()) },
        PairingCommand::RespondToRequest { accepted: true, response: None },
        PairingCommand::CancelSession,
    ] {
        let mut state = PairingState::new();
        state.step(PairingCommand::CreateSession, 0, "482913".to_string());
        state.step(join("482913", "joiner"), 1, "000000".to_string());
        let effect = state.step(command, 2, "000000".to_string());
        assert!(matches!(effect.held_reply, Some(PairingResult::Rejected)));
        assert!(!state.has_active_session(2));
    }
    // without a held joiner nobody is answered
    let mut state = PairingState::new();
    state.step(PairingCommand::CreateSession, 0, "482913".to_string());
    let effect = state.step(PairingCommand::CancelSession, 1, "000000".to_string());
    assert!(effect.held_reply.is_none());
    assert!(!state.has_active_session(1));
}

#[test]
fn a_new_session_overwrites_and_rejects_the_held_joiner() {
    let mut state = PairingState::new();
    state.step(PairingCommand::CreateSession, 0, "111111".to_string());
    state.step(join("111111", "joiner"), 1, "000000".to_string());
    let effect = state.step(PairingCommand::CreateSession, 2, "222222".to_string());
    assert_eq!(effect.code.as_deref(), Some("222222"));
    assert!(matches!(effect.held_reply, Some(PairingResult::Rejected)));
    assert_eq!(state.current_code(2), Some("222222"));
    let pending = state.step(PairingCommand::GetPendingRequest, 3, "000000".to_string());
    assert!(pending.pending_request.is_none());
    let old = state.step(join("111111", "joiner"), 4, "000000".to_string());
    assert!(matches!(old.joiner_reply, Some(PairingResult::InvalidCode)));
}

#[test]
fn a_second_joiner_displaces_the_first() {
    let mut state = PairingState::new();
    state.step(PairingCommand::CreateSession, 0, "111111".to_string());
    state.step(join("111111", "first"), 1, "000000".to_string());
    let effect = state.step(join("111111", "second"), 2, "000000".to_string());
    assert!(effect.hold);
    assert!(matches!(effect.held_reply, Some(PairingResult::Rejected)));
    let pending = state.step(PairingCommand::GetPendingRequest, 3, "000000".to_string());
    assert_eq!(pending.pending_request.unwrap().device_name, "second");
}

#[test]
fn default_state_is_idle() {
    let state = PairingState::default();
    assert!(!state.has_active_session(0));
    assert_eq!(state.current_code(0), None);
}
