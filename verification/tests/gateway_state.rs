use easytier_gateway::gateway::{
    easytier_iface, removed_policy_status, GatewayPolicy, GatewayRole, GatewayState, Monitor,
    ReconcileAction, StateMachine,
};

#[test]
fn state_machine_initial_state_is_idle() {
    let sm = StateMachine::new();
    assert_eq!(sm.state(), GatewayState::Idle);
    assert!(sm.current_policy().is_none());
}

#[test]
fn state_machine_transitions() {
    let mut sm = StateMachine::new();

    let policy = GatewayPolicy {
        policy_id: "test-001".to_string(),
        enabled: true,
        ..Default::default()
    };

    sm.transition_to_applied(policy.clone());
    assert_eq!(sm.state(), GatewayState::Applied);
    assert_eq!(sm.current_policy().unwrap().policy_id, "test-001");

    sm.transition_to_degraded();
    assert_eq!(sm.state(), GatewayState::Degraded);

    sm.transition_to_idle();
    assert_eq!(sm.state(), GatewayState::Idle);
    assert!(sm.current_policy().is_none());
}

#[test]
fn guarded_degraded_state_keeps_policy_for_recovery() {
    let mut sm = StateMachine::new();
    sm.transition_to_applied(GatewayPolicy {
        policy_id: "gw-guard".to_string(),
        ..Default::default()
    });

    sm.transition_to_degraded_guarded();

    assert_eq!(sm.state(), GatewayState::DegradedGuarded);
    assert_eq!(sm.current_policy().unwrap().policy_id, "gw-guard");
    assert_eq!(sm.status().message, "隧道异常，已阻断受管流量防止泄漏");
}

#[test]
fn status_reflects_current_state() {
    let mut sm = StateMachine::new();

    let status = sm.status();
    assert_eq!(status.state(), GatewayState::Idle);

    sm.transition_to_applied(GatewayPolicy {
        policy_id: "gw-001".to_string(),
        ..Default::default()
    });
    let status = sm.status();
    assert_eq!(status.state(), GatewayState::Applied);
    assert_eq!(status.policy_id, "gw-001");
}


fn role_policy(role: GatewayRole, peer: &str) -> GatewayPolicy {
    GatewayPolicy {
        policy_id: "gw-1".to_string(),
        enabled: true,
        role: role.code(),
        exit_peer_tun_ip: peer.to_string(),
        ..Default::default()
    }
}

#[test]
fn monitor_needs_interface_and_for_a_source_a_reachable_peer() {
    let monitor = Monitor::new();
    let source = role_policy(GatewayRole::Source, "10.126.126.3");
    let exit = role_policy(GatewayRole::Exit, "");
    assert_eq!(monitor.peer_to_probe(&source).as_deref(), Some("10.126.126.3"));
    assert_eq!(monitor.peer_to_probe(&exit), None);
    assert!(monitor.tunnel_verdict(&source, true, true));
    assert!(!monitor.tunnel_verdict(&source, true, false));
    assert!(!monitor.tunnel_verdict(&source, false, true));
    assert!(monitor.tunnel_verdict(&exit, true, false));
    assert!(!monitor.tunnel_verdict(&role_policy(GatewayRole::Source, ""), true, true));
}

#[test]
fn tunnel_interface_defaults_to_tun0() {
    assert_eq!(easytier_iface(&GatewayPolicy::default()), "tun0");
    let mut p = GatewayPolicy::default();
    p.easytier_iface = " et0 ".to_string();
    assert_eq!(easytier_iface(&p), "et0");
}

#[test]
fn reconcile_round_guards_source_and_rolls_back_exit() {
    let mut sm = StateMachine::new();
    assert_eq!(sm.reconcile_action(false), ReconcileAction::Keep);

    sm.transition_to_applied(role_policy(GatewayRole::Source, "10.126.126.3"));
    assert!(sm.policy_to_check().is_some());
    assert_eq!(sm.reconcile_action(true), ReconcileAction::Keep);
    let action = sm.reconcile_action(false);
    assert_eq!(action, ReconcileAction::GuardSource);
    sm.finish_reconcile(action, true);
    assert_eq!(sm.state(), GatewayState::DegradedGuarded);
    let action = sm.reconcile_action(true);
    assert_eq!(action, ReconcileAction::Reapply);
    sm.finish_reconcile(action, true);
    assert_eq!(sm.state(), GatewayState::Applied);

    let mut exit = StateMachine::new();
    exit.transition_to_applied(role_policy(GatewayRole::Exit, ""));
    let action = exit.reconcile_action(false);
    assert_eq!(action, ReconcileAction::RollbackExit);
    exit.finish_reconcile(action, true);
    assert_eq!(exit.state(), GatewayState::Idle);
    assert!(exit.current_policy().is_none());
}

#[test]
fn apply_outcome_sets_state_and_status() {
    let mut sm = StateMachine::new();
    let status = sm
        .finish_apply(role_policy(GatewayRole::Exit, ""), true)
        .unwrap();
    assert_eq!(status.policy_id, "gw-1");
    assert_eq!(status.state, GatewayState::Applied.code());
    assert_eq!(status.message, "策略已应用");
    assert!(sm.finish_apply(role_policy(GatewayRole::Exit, ""), false).is_none());
    assert_eq!(sm.state(), GatewayState::Idle);

    let removed = removed_policy_status("gw-1".to_string());
    assert_eq!(removed.state, GatewayState::Idle.code());
    assert_eq!(removed.message, "策略已移除");
}
