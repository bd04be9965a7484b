use easytier_gateway::credential::hash_agent_token;
use easytier_gateway::web_credential::{
    bearer_token, confirm_refusal, credential_status_response, enroll_refusal, hash_token,
    instant_nanos, machine_auth_headers_match, machine_id_from_internal_path, rotate_refusal,
    user_id_from_internal_path, verify_token, AuthFailure, MachineCredential, RotationStatus,
    TokenMatch,
};
use uuid::Uuid;

const HOUR: i128 = 3_600 * 1_000_000_000;

fn now() -> i128 {
    let t = chrono::Utc::now();
    instant_nanos(t.timestamp(), t.timestamp_subsec_nanos())
}

#[test]
fn token_hash_verifies_only_matching_token() {
    let hash = hash_token("machine-token");

    assert!(verify_token("machine-token", &hash));
    assert!(!verify_token("other-token", &hash));
}

#[test]
fn agent_token_hash_is_accepted_by_the_web_service() {
    let hash = hash_agent_token("machine-token");
    assert!(hash.starts_with("plain-sha256:"));
    assert!(verify_token("machine-token", &hash));
    assert!(!verify_token("machine-token2", &hash));
}

#[test]
fn active_credential_accepts_current_token_only() {
    let credential =
        MachineCredential::active(2, Uuid::new_v4().as_u128(), 1, hash_token("current-token"));

    assert_eq!(
        credential.verify_machine_token("current-token", now()),
        TokenMatch::Current
    );
    assert_eq!(
        credential.verify_machine_token("next-token", now()),
        TokenMatch::Unmatched
    );
}

#[test]
fn rotating_credential_accepts_current_and_next_token() {
    let credential = MachineCredential::rotating(
        2,
        Uuid::new_v4().as_u128(),
        2,
        hash_token("current-token"),
        hash_token("next-token"),
        now() + HOUR,
    );

    assert_eq!(
        credential.verify_machine_token("current-token", now()),
        TokenMatch::Current
    );
    assert_eq!(
        credential.verify_machine_token("next-token", now()),
        TokenMatch::Next
    );
}

#[test]
fn confirmed_credential_accepts_previous_token_only_during_grace_period() {
    let now = now();
    let credential = MachineCredential::confirmed(
        2,
        Uuid::new_v4().as_u128(),
        3,
        hash_token("new-current-token"),
        hash_token("previous-token"),
        now + HOUR,
    );

    assert_eq!(
        credential.verify_machine_token("new-current-token", now),
        TokenMatch::Current
    );
    assert_eq!(
        credential.verify_machine_token("previous-token", now),
        TokenMatch::Previous
    );
    assert_eq!(
        credential.verify_machine_token("previous-token", now + 2 * HOUR),
        TokenMatch::Unmatched
    );
}

#[test]
fn machine_auth_path_extracts_user_and_machine() {
    let machine_id = Uuid::new_v4();
    let path = format!("/api/internal/users/7/machines/{machine_id}/gateway-policies");

    assert_eq!(user_id_from_internal_path(&path), Some(7));
    assert_eq!(
        machine_id_from_internal_path(&path),
        Some(machine_id.as_u128())
    );
}

#[test]
fn internal_path_without_ids_yields_nothing() {
    assert_eq!(user_id_from_internal_path("/api/internal/agent/enroll"), None);
    assert_eq!(machine_id_from_internal_path("/api/internal/users/7/machines/x"), None);
    assert_eq!(user_id_from_internal_path("/api/internal/users/seven/machines"), None);
}

#[test]
fn rotating_machine_auth_accepts_current_token_with_previous_version() {
    let machine_id = Uuid::new_v4().as_u128();
    let credential = MachineCredential::rotating(
        7,
        machine_id,
        2,
        hash_token("current-token"),
        hash_token("next-token"),
        now() + HOUR,
    );

    assert_eq!(
        machine_auth_headers_match(&credential, "current-token", machine_id, 1, now()),
        Ok(TokenMatch::Current)
    );
}

#[test]
fn machine_auth_refusals() {
    let machine_id = 77u128;
    let credential = MachineCredential::active(7, machine_id, 2, hash_token("current-token"));
    assert_eq!(
        machine_auth_headers_match(&credential, "current-token", 78, 2, now()),
        Err(AuthFailure::Forbidden)
    );
    assert_eq!(
        machine_auth_headers_match(&credential, "current-token", machine_id, 1, now()),
        Err(AuthFailure::Unauthorized)
    );
    assert_eq!(
        machine_auth_headers_match(&credential, "other", machine_id, 2, now()),
        Err(AuthFailure::Unauthorized)
    );
    assert_eq!(AuthFailure::Forbidden.status(), 403);
    assert_eq!(AuthFailure::Unauthorized.status(), 401);
}

#[test]
fn bearer_token_reads_only_nonempty_bearer_values() {
    assert_eq!(bearer_token(Some("Bearer abc")), Some("abc".to_string()));
    assert_eq!(bearer_token(Some("Bearer ")), None);
    assert_eq!(bearer_token(Some("Basic abc")), None);
    assert_eq!(bearer_token(None), None);
}

#[test]
fn enrolment_refusals_in_order() {
    assert_eq!(enroll_refusal(false, None, 1, false).unwrap().status, 401);
    assert_eq!(
        enroll_refusal(true, None, 1, true).unwrap().message,
        "invalid bootstrap token"
    );
    assert_eq!(enroll_refusal(true, Some(2), 1, true).unwrap().status, 403);
    assert_eq!(
        enroll_refusal(true, Some(1), 1, false).unwrap().message,
        "machine_not_connected"
    );
    assert!(enroll_refusal(true, Some(1), 1, true).is_none());
}

#[test]
fn rotation_and_confirmation_decisions() {
    let machine_id = 5u128;
    let mut credential = MachineCredential::active(7, machine_id, 2, hash_token("current-token"));
    assert_eq!(
        rotate_refusal(&credential, 7, machine_id).unwrap().message,
        "credential rotation is not required"
    );
    credential.rotation_status = RotationStatus::Rotating;
    let status = credential_status_response(&credential, None);
    assert!(status.rotate_required);
    assert_eq!(status.status, "rotating");
    assert!(rotate_refusal(&credential, 7, machine_id).is_none());
    assert_eq!(rotate_refusal(&credential, 8, machine_id).unwrap().status, 403);

    let rotating = MachineCredential::rotating(
        7,
        machine_id,
        3,
        hash_token("current-token"),
        hash_token("next-token"),
        now() + HOUR,
    );
    assert!(confirm_refusal(&rotating, 7, machine_id, Some("next-token"), 3, now()).is_none());
    assert_eq!(
        confirm_refusal(&rotating, 7, machine_id, Some("current-token"), 3, now())
            .unwrap()
            .message,
        "credential confirm requires next token"
    );
    assert_eq!(
        confirm_refusal(&rotating, 7, machine_id, Some("next-token"), 2, now())
            .unwrap()
            .message,
        "credential version mismatch"
    );
    assert_eq!(
        confirm_refusal(&rotating, 7, machine_id, None, 3, now())
            .unwrap()
            .status,
        401
    );
}
