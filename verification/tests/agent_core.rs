use std::collections::HashSet;

use easytier_gateway::command::CommandPlan;
use easytier_gateway::control_plane::{
    ControlPlaneEndpoint, ControlPlaneError, ControlPlaneGuard, ControlPlaneProbe,
};
use easytier_gateway::executor::{apply_command_plan, CommandExecutionMode, CommandExecutor};
use easytier_gateway::policy::PolicyStatus;
use easytier_gateway::report::derive_policy_status;
use easytier_gateway::reporter::{AgentApiAuth, ReportTarget};
use easytier_gateway::state::{MemoryStateStore, RouteSnapshot, StateStore};

struct Probe {
    reachable: HashSet<String>,
}

impl ControlPlaneProbe for Probe {
    fn is_reachable(&self, endpoint: &ControlPlaneEndpoint) -> bool {
        self.reachable.contains(&endpoint.name)
    }
}

#[test]
fn verifies_all_control_plane_endpoints() {
    let guard = ControlPlaneGuard::new(vec![
        ControlPlaneEndpoint::new("web", "192.168.64.4/32"),
        ControlPlaneEndpoint::new("relay", "192.168.64.4/32"),
    ]);
    let probe = Probe {
        reachable: ["web".to_string(), "relay".to_string()].into_iter().collect(),
    };
    guard.verify(&probe).unwrap();
}

#[test]
fn fails_when_endpoint_unreachable() {
    let guard = ControlPlaneGuard::new(vec![ControlPlaneEndpoint::new("web", "192.168.64.4/32")]);
    let probe = Probe {
        reachable: HashSet::new(),
    };
    assert_eq!(
        guard.verify(&probe),
        Err(ControlPlaneError::Unreachable("web".to_string()))
    );
}

#[derive(Default)]
struct RecordingExecutor {
    commands: Vec<CommandPlan>,
    fail_after: Option<usize>,
}

impl CommandExecutor for RecordingExecutor {
    fn execute(&mut self, command: &CommandPlan) -> Result<(), String> {
        if self.fail_after == Some(self.commands.len()) {
            return Err("synthetic command failure".to_string());
        }
        self.commands.push(command.clone());
        Ok(())
    }
}

struct NoopExecutor;

impl CommandExecutor for NoopExecutor {
    fn execute(&mut self, _command: &CommandPlan) -> Result<(), String> {
        Ok(())
    }
}

#[test]
fn dry_run_returns_commands_without_executing_them() {
    let commands = vec![CommandPlan::new("ip", &["route", "show", "default"])];
    let mut executor = RecordingExecutor::default();

    let report =
        apply_command_plan(commands.clone(), CommandExecutionMode::DryRun, &mut executor).unwrap();

    assert!(report.dry_run);
    assert_eq!(report.commands, commands);
    assert_eq!(report.executed_count, 0);
    assert!(executor.commands.is_empty());
}

#[test]
fn execute_mode_runs_commands_in_order() {
    let commands = vec![
        CommandPlan::new("ip", &["route", "show", "default"]),
        CommandPlan::new("sysctl", &["-w", "net.ipv4.ip_forward=1"]),
    ];
    let mut executor = RecordingExecutor::default();

    let report =
        apply_command_plan(commands.clone(), CommandExecutionMode::Execute, &mut executor).unwrap();

    assert!(!report.dry_run);
    assert_eq!(report.executed_count, 2);
    assert_eq!(executor.commands, commands);
}

#[test]
fn execute_mode_stops_on_first_command_failure() {
    let commands = vec![
        CommandPlan::new("ip", &["route", "show", "default"]),
        CommandPlan::new("sysctl", &["-w", "net.ipv4.ip_forward=1"]),
    ];
    let mut executor = RecordingExecutor {
        fail_after: Some(1),
        ..RecordingExecutor::default()
    };

    let err = apply_command_plan(commands, CommandExecutionMode::Execute, &mut executor).unwrap_err();

    assert!(err.message().contains("synthetic command failure"));
    assert_eq!(executor.commands.len(), 1);
    assert_eq!(err.report.executed_count, 1);
}

#[test]
fn derives_planned_for_dry_run() {
    let commands = vec![CommandPlan::new("ip", &["route", "show", "default"])];
    let mut executor = NoopExecutor;
    let command_report =
        apply_command_plan(commands, CommandExecutionMode::DryRun, &mut executor).unwrap();

    assert_eq!(
        derive_policy_status(&command_report, None, false),
        PolicyStatus::Planned
    );
}

#[test]
fn derives_active_for_executed_commands() {
    let commands = vec![CommandPlan::new("ip", &["route", "show", "default"])];
    let mut executor = NoopExecutor;
    let command_report =
        apply_command_plan(commands, CommandExecutionMode::Execute, &mut executor).unwrap();

    assert_eq!(
        derive_policy_status(&command_report, None, false),
        PolicyStatus::Active
    );
}

#[test]
fn derives_degraded_when_last_error_exists() {
    let commands = vec![CommandPlan::new("ip", &["route", "show", "default"])];
    let mut executor = NoopExecutor;
    let command_report =
        apply_command_plan(commands, CommandExecutionMode::DryRun, &mut executor).unwrap();

    assert_eq!(
        derive_policy_status(&command_report, Some("control plane failed"), false),
        PolicyStatus::Degraded
    );
}

#[test]
fn derives_rollbacked_when_rollback_flag_is_set() {
    let commands = vec![CommandPlan::new("ip", &["route", "show", "default"])];
    let mut executor = NoopExecutor;
    let command_report =
        apply_command_plan(commands, CommandExecutionMode::DryRun, &mut executor).unwrap();

    assert_eq!(
        derive_policy_status(&command_report, None, true),
        PolicyStatus::Rollbacked
    );
}

#[test]
fn report_target_builds_internal_gateway_report_endpoint() {
    let target = ReportTarget {
        web_base_url: "http://127.0.0.1:11211/".to_string(),
        user_id: 7,
        machine_id: "00000000-0000-0000-0000-000000000001".to_string(),
        auth: AgentApiAuth::LegacyInternalToken("secret".to_string()),
    };

    assert_eq!(
        target.endpoint(),
        "http://127.0.0.1:11211/api/internal/users/7/machines/00000000-0000-0000-0000-000000000001/gateway-report"
    );
}

#[test]
fn report_target_builds_internal_device_policy_endpoint() {
    let target = ReportTarget {
        web_base_url: "http://127.0.0.1:11211/".to_string(),
        user_id: 7,
        machine_id: "00000000-0000-0000-0000-000000000001".to_string(),
        auth: AgentApiAuth::LegacyInternalToken("secret".to_string()),
    };

    assert_eq!(
        target.device_policies_endpoint(),
        "http://127.0.0.1:11211/api/internal/users/7/machines/00000000-0000-0000-0000-000000000001/gateway-policies"
    );
}

#[test]
fn stores_last_known_good_snapshot() {
    let mut store = MemoryStateStore::default();
    store.save_last_known_good(RouteSnapshot::new(
        "p1",
        1,
        vec!["ip route show default".to_string()],
    ));
    assert_eq!(store.last_known_good().unwrap().policy_id, "p1");
}
