use easytier_gateway::policy::{
    DevicePolicy, DevicePolicyRole, ExitEgress, PolicyError, PolicyStatus,
};
use easytier_gateway::reconciler::{PolicyReconciler, ReconcileEvent};

const SECOND: u64 = 1_000;

fn policy(device_policy_id: &str, version: u64) -> DevicePolicy {
    DevicePolicy {
        policy_id: "p1".to_string(),
        device_policy_id: device_policy_id.to_string(),
        enabled: true,
        version,
        role: DevicePolicyRole::ClientGatewayViaPeer,
        network_instance_id: 0,
        source_machine_id: "node-a".to_string(),
        managed_cidrs: vec!["192.168.10.0/24".to_string()],
        ingress_ifaces: vec!["br-lan".to_string()],
        include_device_traffic: true,
        exit_machine_id: "node-b".to_string(),
        exit_peer_ipv4: Some("10.126.126.3".to_string()),
        source_peer_ipv4: None,
        easytier_iface: "easytier0".to_string(),
        exit_egress: ExitEgress::default(),
        protect_control_plane: true,
        rollback_enabled: true,
    }
}

#[test]
fn reconcile_applies_new_policy_once() {
    let mut reconciler = PolicyReconciler::default();

    let first = reconciler.reconcile(&[policy("p1/source", 1)]).unwrap();
    let second = reconciler.reconcile(&[policy("p1/source", 1)]).unwrap();

    assert_eq!(first, vec![ReconcileEvent::Apply("p1/source".to_string(), 1)]);
    assert!(second.is_empty());
    assert_eq!(reconciler.observed_version("p1/source"), Some(1));
}

#[test]
fn reconcile_reapplies_newer_version() {
    let mut reconciler = PolicyReconciler::default();
    reconciler.reconcile(&[policy("p1/source", 1)]).unwrap();

    let events = reconciler.reconcile(&[policy("p1/source", 2)]).unwrap();

    assert_eq!(events, vec![ReconcileEvent::Apply("p1/source".to_string(), 2)]);
    assert_eq!(reconciler.observed_version("p1/source"), Some(2));
}

#[test]
fn reconcile_reapplies_when_enabled_changes() {
    let mut reconciler = PolicyReconciler::default();
    let enabled = policy("p1/source", 1);
    let mut disabled = enabled.clone();
    disabled.enabled = false;

    assert_eq!(
        reconciler.reconcile(&[enabled.clone()]).unwrap(),
        vec![ReconcileEvent::Apply("p1/source".to_string(), 1)]
    );
    assert_eq!(
        reconciler.reconcile(&[disabled.clone()]).unwrap(),
        vec![ReconcileEvent::Apply("p1/source".to_string(), 1)]
    );
    assert!(reconciler.reconcile(&[disabled]).unwrap().is_empty());
}

#[test]
fn policies_to_apply_returns_only_new_versions() {
    let mut reconciler = PolicyReconciler::default();
    let first = policy("p1/source", 1);
    let second = policy("p1/source", 2);

    assert_eq!(
        reconciler.policies_to_apply(&[first.clone()]).unwrap(),
        vec![first.clone()]
    );
    assert!(reconciler.policies_to_apply(&[first]).unwrap().is_empty());
    assert_eq!(
        reconciler.policies_to_apply(&[second.clone()]).unwrap(),
        vec![second]
    );
}

#[test]
fn policies_to_apply_reapplies_after_interval() {
    let mut reconciler = PolicyReconciler::default();
    let policy = policy("p1/source", 1);
    let started_at = 5_000_000u64;

    assert_eq!(
        reconciler
            .policies_to_apply_at(&[policy.clone()], started_at, Some(60 * SECOND))
            .unwrap(),
        vec![policy.clone()]
    );
    assert!(reconciler
        .policies_to_apply_at(&[policy.clone()], started_at + 59 * SECOND, Some(60 * SECOND))
        .unwrap()
        .is_empty());
    assert_eq!(
        reconciler
            .policies_to_apply_at(&[policy.clone()], started_at + 60 * SECOND, Some(60 * SECOND))
            .unwrap(),
        vec![policy]
    );
}

#[test]
fn policies_to_apply_retries_degraded_policy_immediately() {
    let mut reconciler = PolicyReconciler::default();
    let policy = policy("p1/source", 1);
    let started_at = 5_000_000u64;

    assert_eq!(
        reconciler
            .policies_to_apply_at(&[policy.clone()], started_at, Some(60 * SECOND))
            .unwrap(),
        vec![policy.clone()]
    );
    reconciler.record_policy_status("p1/source", PolicyStatus::Degraded, started_at + SECOND);

    assert_eq!(
        reconciler
            .policies_to_apply_at(&[policy.clone()], started_at + 2 * SECOND, Some(60 * SECOND))
            .unwrap(),
        vec![policy]
    );
}

#[test]
fn reconcile_retries_degraded_policy_without_waiting_for_interval() {
    let mut reconciler = PolicyReconciler::default();
    let policy = policy("p1/source", 1);
    let started_at = 5_000_000u64;

    let first = reconciler
        .policies_to_apply_at(&[policy.clone()], started_at, Some(60 * SECOND))
        .unwrap();
    assert_eq!(first, vec![policy.clone()]);

    reconciler.record_policy_status("p1/source", PolicyStatus::Degraded, started_at + SECOND);

    let second = reconciler
        .policies_to_apply_at(&[policy.clone()], started_at + 2 * SECOND, Some(60 * SECOND))
        .unwrap();
    assert_eq!(second, vec![policy]);
}

#[test]
fn active_status_does_not_force_reapply() {
    let mut reconciler = PolicyReconciler::default();
    let policy = policy("p1/source", 1);
    reconciler.policies_to_apply_at(&[policy.clone()], 10, None).unwrap();
    reconciler.record_policy_status("p1/source", PolicyStatus::Active, 20);
    assert!(reconciler
        .policies_to_apply_at(&[policy], 30, None)
        .unwrap()
        .is_empty());
}

#[test]
fn invalid_policy_stops_the_run_after_earlier_ones_are_remembered() {
    let mut reconciler = PolicyReconciler::default();
    let good = policy("p1/source", 1);
    let mut bad = policy("p2/source", 1);
    bad.exit_peer_ipv4 = None;
    let err = reconciler
        .policies_to_apply_at(&[good, bad], 10, None)
        .unwrap_err();
    assert_eq!(err, PolicyError::MissingField("exit_peer_ipv4"));
    assert_eq!(reconciler.observed_version("p1/source"), Some(1));
    assert_eq!(reconciler.observed_version("p2/source"), None);
}

#[test]
fn recording_status_of_unknown_policy_is_ignored() {
    let mut reconciler = PolicyReconciler::default();
    reconciler.record_policy_status("missing", PolicyStatus::Degraded, 1);
    assert_eq!(reconciler.observed_version("missing"), None);
}

#[test]
fn recorded_rollback_is_retried_in_a_run_of_several_policies() {
    let mut reconciler = PolicyReconciler::default();
    let run = [policy("p1/source", 1), policy("p2/source", 3)];
    assert_eq!(reconciler.policies_to_apply_at(&run, 10, None).unwrap().len(), 2);
    reconciler.record_policy_status("p2/source", PolicyStatus::Rollbacked, 20);
    reconciler.record_policy_status("p1/source", PolicyStatus::Active, 20);

    let again = reconciler.policies_to_apply_at(&run, 30, None).unwrap();
    assert_eq!(again.len(), 1);
    assert_eq!(again[0].device_policy_id, "p2/source");
}

#[test]
fn applied_policies_are_remembered_with_their_versions() {
    let mut reconciler = PolicyReconciler::default();
    let run = [policy("p1/source", 4), policy("p2/source", 7)];
    let applied = reconciler.policies_to_apply_at(&run, 5, Some(1_000)).unwrap();
    for p in &applied {
        assert_eq!(reconciler.observed_version(&p.device_policy_id), Some(p.version));
    }
    assert!(reconciler.clock_millis() < 60_000);
}
