use easytier_gateway::credential::hash_agent_token;
use easytier_gateway::web_credential::{
    confirm_refusal, credential_status_response, machine_auth_headers_match, enroll_agent, find_valid_bootstrap_token,
    hash_token, machine_auth_outcome, read_machine_auth_headers, rotate_refusal, BootstrapToken,
    EnrollDecision, MachineCredential, RotationStatus, TokenMatch,
};

const HOUR: i128 = 3_600 * 1_000_000_000;
const NOW: i128 = 1_779_000_000 * 1_000_000_000;

fn bootstrap_token(id: i64, user_id: i32, expires_at: Option<i128>) -> BootstrapToken {
    BootstrapToken {
        id,
        user_id,
        token_hash: hash_token("bootstrap-token"),
        name: "test-bootstrap".to_string(),
        expires_at,
        revoked_at: None,
    }
}

#[test]
fn agent_bootstrap_token_lookup_requires_valid_non_revoked_token() {
    let mut tokens = vec![bootstrap_token(1, 7, Some(NOW + HOUR))];

    let matched = find_valid_bootstrap_token(&tokens, "bootstrap-token", NOW).unwrap();
    assert_eq!(tokens[matched].id, 1);
    assert_eq!(tokens[matched].user_id, 7);
    assert!(find_valid_bootstrap_token(&tokens, "wrong-token", NOW).is_none());

    tokens[0].revoked_at = Some(NOW);
    assert!(find_valid_bootstrap_token(&tokens, "bootstrap-token", NOW).is_none());
}

#[test]
fn enroll_agent_requires_bootstrap_token() {
    let tokens = vec![bootstrap_token(1, 7, None)];
    let decision = enroll_agent(
        None,
        &tokens,
        NOW,
        7,
        0x1234,
        "plain-sha256:unused".to_string(),
        true,
        None,
    );
    match decision {
        EnrollDecision::Refused(refusal) => assert_eq!(refusal.status, 401),
        other => panic!("unexpected decision {other:?}"),
    }
}

#[test]
fn enroll_agent_rejects_machine_before_easytier_heartbeat() {
    let tokens = vec![bootstrap_token(1, 7, None)];
    let decision = enroll_agent(
        Some("Bearer bootstrap-token"),
        &tokens,
        NOW,
        7,
        0x1234,
        "plain-sha256:unused".to_string(),
        false,
        None,
    );
    match decision {
        EnrollDecision::Refused(refusal) => {
            assert_eq!(refusal.status, 409);
            assert_eq!(refusal.message, "machine_not_connected");
        },
        other => panic!("unexpected decision {other:?}"),
    }
}

#[test]
fn enroll_agent_stores_agent_generated_machine_token_hash() {
    let tokens = vec![bootstrap_token(1, 7, None)];
    let first = enroll_agent(
        Some("Bearer bootstrap-token"),
        &tokens,
        NOW,
        7,
        0x1234,
        hash_agent_token("current-token"),
        true,
        None,
    );
    let stored = match first {
        EnrollDecision::Create(c) => c,
        other => panic!("unexpected decision {other:?}"),
    };
    assert_eq!(stored.credential_version, 1);
    assert_eq!(stored.verify_machine_token("current-token", NOW), TokenMatch::Current);

    let second = enroll_agent(
        Some("Bearer bootstrap-token"),
        &tokens,
        NOW,
        7,
        0x1234,
        hash_agent_token("other-token"),
        true,
        Some(&stored),
    );
    assert_eq!(second, EnrollDecision::AlreadyEnrolled(1));
    assert_eq!(stored.verify_machine_token("current-token", NOW), TokenMatch::Current);
}

#[test]
fn credential_rotation_returns_next_token_once_and_confirm_promotes_it() {
    let machine_id: u128 = 0x0123_4567_89ab_cdef_0123_4567_89ab_cdef;
    let machine_text = "01234567-89ab-cdef-0123-456789abcdef";
    let credential = MachineCredential::active(7, machine_id, 1, hash_token("current-token"))
        .mark_rotating(NOW + HOUR);

    let headers = read_machine_auth_headers(
        Some(machine_text),
        Some("7"),
        Some("2"),
        Some("Bearer current-token"),
    )
    .unwrap();
    assert_eq!(machine_auth_outcome(Some(&credential), &headers, NOW), Ok(TokenMatch::Current));
    let status = credential_status_response(&credential, None);
    assert_eq!(status.status, "rotating");
    assert!(status.rotate_required);

    assert!(rotate_refusal(&credential, 7, machine_id).is_none());
    let credential = credential.with_next_token_hash(hash_agent_token("next-token"));
    assert_eq!(credential.credential_version, 2);

    let second_rotate = rotate_refusal(&credential, 7, machine_id).unwrap();
    assert_eq!(second_rotate.status, 409);

    let confirm_headers = read_machine_auth_headers(
        Some(machine_text),
        Some("7"),
        Some("2"),
        Some("Bearer next-token"),
    )
    .unwrap();
    assert_eq!(
        machine_auth_outcome(Some(&credential), &confirm_headers, NOW),
        Ok(TokenMatch::Next)
    );
    assert!(confirm_refusal(&credential, 7, machine_id, Some("next-token"), 2, NOW).is_none());
    let credential = credential.confirm_rotation().unwrap();
    assert_eq!(credential.rotation_status, RotationStatus::Confirmed);
    assert_eq!(credential.rotation_status.as_str(), "confirmed");
    assert_eq!(credential.credential_version, 2);

    assert_eq!(credential.verify_machine_token("next-token", NOW), TokenMatch::Current);
    assert_eq!(credential.verify_machine_token("current-token", NOW), TokenMatch::Previous);
}

#[test]
fn enrolled_agent_is_let_in_with_its_token_at_version_one() {
    let tokens = vec![bootstrap_token(1, 7, None)];
    let decision = enroll_agent(
        Some("Bearer bootstrap-token"),
        &tokens,
        NOW,
        7,
        0x1234,
        hash_agent_token("agent-token"),
        true,
        None,
    );
    let stored = match decision {
        EnrollDecision::Create(c) => c,
        other => panic!("unexpected decision {other:?}"),
    };
    assert_eq!(
        machine_auth_headers_match(&stored, "agent-token", 0x1234, 1, NOW + HOUR),
        Ok(TokenMatch::Current)
    );
    assert!(machine_auth_headers_match(&stored, "other-token", 0x1234, 1, NOW).is_err());
    assert!(machine_auth_headers_match(&stored, "agent-token", 0x1234, 2, NOW).is_err());
}
