use std::cell::Cell;
use std::collections::HashSet;

use easytier_gateway::command::CommandPlan;
use easytier_gateway::control_plane::{ControlPlaneEndpoint, ControlPlaneGuard, ControlPlaneProbe};
use easytier_gateway::executor::{
    apply_command_plan, execution_result, CommandExecutionFailure, CommandExecutionMode,
    CommandExecutionReport, CommandExecutor,
};
use easytier_gateway::linux::LinuxBackend;
use easytier_gateway::planner::{dry_run_plan, PlanActionKind};
use easytier_gateway::policy::{DevicePolicy, DevicePolicyRole, ExitEgress, PolicyStatus};
use easytier_gateway::report::{
    build_idle_runtime_report, build_runtime_report, build_runtime_report_from_failure,
    derive_policy_status_for_policy, AgentRuntimeObservation,
};
use easytier_gateway::control_plane::ControlPlaneError;
use easytier_gateway::rollback::{apply_with_control_plane_guard, finish_guarded_apply, ApplyError};
use easytier_gateway::state::{MemoryStateStore, StateStore};

struct NoopExecutor;

impl CommandExecutor for NoopExecutor {
    fn execute(&mut self, _command: &CommandPlan) -> Result<(), String> {
        Ok(())
    }
}

fn policy() -> DevicePolicy {
    DevicePolicy {
        policy_id: "p1".to_string(),
        device_policy_id: "p1/source".to_string(),
        enabled: true,
        version: 2,
        role: DevicePolicyRole::ClientGatewayViaPeer,
        network_instance_id: 0,
        source_machine_id: "node-a".to_string(),
        managed_cidrs: vec!["192.168.10.0/24".to_string()],
        ingress_ifaces: vec!["br-lan".to_string()],
        include_device_traffic: true,
        exit_machine_id: "node-b".to_string(),
        exit_peer_ipv4: Some("10.126.126.3".to_string()),
        source_peer_ipv4: None,
        easytier_iface: "easytier0".to_string(),
        exit_egress: ExitEgress::default(),
        protect_control_plane: true,
        rollback_enabled: true,
    }
}

fn route_show(mode: CommandExecutionMode) -> CommandExecutionReport {
    let commands = vec![CommandPlan::new("ip", &["route", "show", "default"])];
    let mut executor = NoopExecutor;
    apply_command_plan(commands, mode, &mut executor).unwrap()
}

#[test]
fn builds_runtime_report_from_command_result() {
    let policy = policy();
    let command_report = route_show(CommandExecutionMode::DryRun);

    let report = build_runtime_report(
        "node-a",
        Some("10.126.126.2".to_string()),
        &policy,
        PolicyStatus::Active,
        &command_report,
        None,
    );

    assert_eq!(report.machine_id, "node-a");
    assert_eq!(report.policy_id, "p1");
    assert_eq!(report.device_policy_id, "p1/source");
    assert_eq!(report.version, 2);
    assert_eq!(report.role, "client_gateway_via_peer");
    assert_eq!(report.easytier_ipv4.as_deref(), Some("10.126.126.2"));
    assert!(report.dry_run);
    assert_eq!(report.executed_count, 0);
    assert_eq!(report.status, PolicyStatus::Active);
}

#[test]
fn serializes_web_observed_state_fields() {
    let policy = policy();
    let command_report = route_show(CommandExecutionMode::Execute);

    let report = build_runtime_report(
        "00000000-0000-0000-0000-000000000001",
        Some("10.126.126.2".to_string()),
        &policy,
        PolicyStatus::Active,
        &command_report,
        None,
    );

    assert_eq!(report.observed_policy_id, "p1");
    assert_eq!(report.observed_policy_version, 2);
    assert_eq!(report.observed_policy_status.name(), "active");
    assert_eq!(report.easytier_ipv4.as_deref(), Some("10.126.126.2"));
    assert_eq!(report.easytier_iface.as_deref(), Some("easytier0"));
    assert_eq!(report.lan_cidrs, vec!["192.168.10.0/24".to_string()]);
    assert_eq!(report.ingress_ifaces, vec!["br-lan".to_string()]);
    assert_eq!(report.firewall_backend, None);
    assert!(report.protected_routes.is_empty());
}

#[test]
fn builds_idle_runtime_report_for_node_discovery_without_policy() {
    let report = build_idle_runtime_report("node-a", Some("10.126.126.2".to_string()));

    assert_eq!(report.machine_id, "node-a");
    assert_eq!(report.easytier_ipv4.as_deref(), Some("10.126.126.2"));
    assert_eq!(report.policy_id, "");
    assert_eq!(report.device_policy_id, "");
    assert_eq!(report.role, "");
    assert_eq!(report.status, PolicyStatus::Prepared);
    assert!(report.lan_cidrs.is_empty());
    assert!(report.ingress_ifaces.is_empty());
    assert!(report.protected_routes.is_empty());
}

#[test]
fn derives_prepared_for_successful_exit_provider() {
    let mut policy = policy();
    policy.role = DevicePolicyRole::ProvideExitForGateway;
    policy.source_peer_ipv4 = Some("10.126.126.2".to_string());
    policy.exit_peer_ipv4 = None;
    let commands = vec![CommandPlan::new("sysctl", &["-w", "net.ipv4.ip_forward=1"])];
    let mut executor = NoopExecutor;
    let command_report =
        apply_command_plan(commands, CommandExecutionMode::Execute, &mut executor).unwrap();

    assert_eq!(
        derive_policy_status_for_policy(&policy, &command_report, None, false),
        PolicyStatus::Prepared
    );
}

#[test]
fn disabled_policy_reports_disabled_after_cleanup() {
    let mut policy = policy();
    policy.enabled = false;
    let commands = vec![CommandPlan::new("ip", &["rule", "del", "from", "192.168.10.0/24"])];
    let mut executor = NoopExecutor;
    let command_report =
        apply_command_plan(commands, CommandExecutionMode::Execute, &mut executor).unwrap();

    assert_eq!(
        derive_policy_status_for_policy(&policy, &command_report, None, false),
        PolicyStatus::Disabled
    );
}

#[test]
fn builds_runtime_report_from_failure() {
    let policy = policy();
    let failure = CommandExecutionFailure {
        report: CommandExecutionReport {
            dry_run: false,
            commands: vec![CommandPlan::new("ip", &["route", "show", "default"])],
            executed_count: 1,
        },
        error: "synthetic command failure".to_string(),
    };

    let report = build_runtime_report_from_failure(
        "node-a",
        Some("10.126.126.2".to_string()),
        &policy,
        &failure,
    );

    assert_eq!(report.status, PolicyStatus::Degraded);
    assert_eq!(report.easytier_ipv4.as_deref(), Some("10.126.126.2"));
    assert_eq!(report.executed_count, 1);
    assert_eq!(report.last_error.as_deref(), Some("synthetic command failure"));
}

#[test]
fn observation_overrides_only_what_was_observed() {
    let policy = policy();
    let command_report = route_show(CommandExecutionMode::Execute);
    let report = build_runtime_report("node-a", None, &policy, PolicyStatus::Active, &command_report, None);
    let observed = report.with_observation(AgentRuntimeObservation {
        easytier_iface: None,
        lan_cidrs: vec!["10.0.0.0/8".to_string()],
        ingress_ifaces: Vec::new(),
        default_route: Some("192.168.1.1".to_string()),
        firewall_backend: None,
        protected_routes: Vec::new(),
    });
    assert_eq!(observed.easytier_iface.as_deref(), Some("easytier0"));
    assert_eq!(observed.lan_cidrs, vec!["10.0.0.0/8".to_string()]);
    assert_eq!(observed.ingress_ifaces, vec!["br-lan".to_string()]);
    assert_eq!(observed.default_route.as_deref(), Some("192.168.1.1"));
    assert_eq!(observed.firewall_backend, None);
}

struct StaticProbe {
    reachable: HashSet<String>,
}

impl ControlPlaneProbe for StaticProbe {
    fn is_reachable(&self, endpoint: &ControlPlaneEndpoint) -> bool {
        self.reachable.contains(&endpoint.name)
    }
}

struct FlakyProbe {
    first: Cell<bool>,
}

impl ControlPlaneProbe for FlakyProbe {
    fn is_reachable(&self, _endpoint: &ControlPlaneEndpoint) -> bool {
        self.first.replace(false)
    }
}

fn guard() -> ControlPlaneGuard {
    ControlPlaneGuard::new(vec![ControlPlaneEndpoint::new("web", "192.168.64.4/32")])
}

#[test]
fn refuses_to_apply_when_preflight_fails() {
    let backend = LinuxBackend::default();
    let probe = StaticProbe {
        reachable: HashSet::new(),
    };
    let mut state = MemoryStateStore::default();
    let err = apply_with_control_plane_guard(&backend, &probe, &mut state, &guard(), &policy())
        .unwrap_err();
    assert!(matches!(err, ApplyError::Preflight(_)));
    assert!(state.last_known_good().is_none());
}

#[test]
fn returns_active_when_control_plane_stays_reachable() {
    let backend = LinuxBackend::default();
    let probe = StaticProbe {
        reachable: ["web".to_string()].into_iter().collect(),
    };
    let mut state = MemoryStateStore::default();
    let outcome =
        apply_with_control_plane_guard(&backend, &probe, &mut state, &guard(), &policy()).unwrap();
    assert_eq!(outcome.status, PolicyStatus::Active);
    assert!(state.last_known_good().is_some());
    assert!(outcome.rollback_plan.is_empty());
}

#[test]
fn returns_rollbacked_when_post_apply_check_fails() {
    let backend = LinuxBackend::default();
    let probe = FlakyProbe {
        first: Cell::new(true),
    };
    let mut state = MemoryStateStore::default();
    let outcome =
        apply_with_control_plane_guard(&backend, &probe, &mut state, &guard(), &policy()).unwrap();
    assert_eq!(outcome.status, PolicyStatus::Rollbacked);
    assert!(!outcome.rollback_plan.is_empty());
}

fn planner_policy(role: DevicePolicyRole) -> DevicePolicy {
    DevicePolicy {
        policy_id: "p1".to_string(),
        device_policy_id: "p1/device".to_string(),
        enabled: true,
        version: 1,
        role,
        network_instance_id: 0,
        source_machine_id: "node-a".to_string(),
        managed_cidrs: vec!["192.168.10.0/24".to_string()],
        ingress_ifaces: vec!["br-lan".to_string()],
        include_device_traffic: true,
        exit_machine_id: "node-b".to_string(),
        exit_peer_ipv4: Some("10.126.126.3".to_string()),
        source_peer_ipv4: Some("10.126.126.2".to_string()),
        easytier_iface: "easytier0".to_string(),
        exit_egress: ExitEgress::default(),
        protect_control_plane: true,
        rollback_enabled: true,
    }
}

#[test]
fn source_plan_routes_managed_traffic_after_control_plane_protection() {
    let actions = dry_run_plan(&planner_policy(DevicePolicyRole::ClientGatewayViaPeer)).unwrap();
    assert_eq!(actions[0].kind, PlanActionKind::ProtectControlPlane);
    assert_eq!(actions[1].kind, PlanActionKind::RouteManagedTraffic);
    assert!(actions[1].description.contains("10.126.126.3"));
}

#[test]
fn exit_plan_prepares_forwarding_and_nat() {
    let actions = dry_run_plan(&planner_policy(DevicePolicyRole::ProvideExitForGateway)).unwrap();
    assert_eq!(actions[0].kind, PlanActionKind::PrepareForwarding);
    assert_eq!(actions[1].kind, PlanActionKind::PrepareNat);
    assert!(actions[0].description.contains("10.126.126.2"));
}

#[test]
fn a_run_ends_at_the_first_failing_answer() {
    let commands = vec![
        CommandPlan::new("ip", &["route", "show", "default"]),
        CommandPlan::new("sysctl", &["-w", "net.ipv4.ip_forward=1"]),
        CommandPlan::new("ip", &["rule", "show"]),
    ];
    let failed = execution_result(
        commands.clone(),
        &vec![Ok(()), Err("synthetic command failure".to_string())],
    )
    .unwrap_err();
    assert_eq!(failed.report.executed_count, 1);
    assert!(!failed.report.dry_run);
    assert_eq!(failed.report.commands, commands);
    assert_eq!(failed.message(), "synthetic command failure");

    let done = execution_result(commands.clone(), &vec![Ok(()), Ok(()), Ok(())]).unwrap();
    assert_eq!(done.executed_count, 3);
    assert_eq!(execution_result(commands.clone(), &vec![]).unwrap().executed_count, 0);
}

#[test]
fn a_failed_second_check_rolls_back_with_the_cleanup_plan() {
    let backend = LinuxBackend::default();
    let applied = vec![CommandPlan::new("ip", &["route", "show", "default"])];
    let active = finish_guarded_apply(&backend, &policy(), applied.clone(), Ok(())).unwrap();
    assert_eq!(active.status, PolicyStatus::Active);
    assert_eq!(active.apply_plan, applied);
    assert!(active.rollback_plan.is_empty());

    let rolled = finish_guarded_apply(
        &backend,
        &policy(),
        applied.clone(),
        Err(ControlPlaneError::Unreachable("web".to_string())),
    )
    .unwrap();
    assert_eq!(rolled.status, PolicyStatus::Rollbacked);
    assert_eq!(rolled.rollback_plan, backend.plan_cleanup(&policy()).unwrap());
}
