//! The runtime report an agent sends: what it applied, how that went, and what it observed.
use vstd::prelude::*;

use crate::command::clone_strings;
use crate::executor::{CommandExecutionFailure, CommandExecutionReport};
use crate::policy::{DevicePolicy, DevicePolicyRole, PolicyStatus};
use crate::text::owned;

verus! {

/// A node's report of its gateway policy.
#[derive(Debug, Clone, PartialEq, Eq)]
pub struct AgentRuntimeReport {
    pub machine_id: String,
    pub agent_version: String,
    pub easytier_ipv4: Option<String>,
    pub easytier_iface: Option<String>,
    pub lan_cidrs: Vec<String>,
    pub ingress_ifaces: Vec<String>,
    pub default_route: Option<String>,
    pub firewall_backend: Option<String>,
    pub protected_routes: Vec<String>,
    pub policy_id: String,
    pub device_policy_id: String,
    pub version: u64,
    pub role: String,
    pub status: PolicyStatus,
    pub observed_policy_id: String,
    pub observed_policy_version: u64,
    pub observed_policy_status: PolicyStatus,
    pub dry_run: bool,
    pub executed_count: usize,
    pub last_error: Option<String>,
}

/// What a node observed of its own network; an absent or empty field observed nothing.
#[derive(Debug, Clone, PartialEq, Eq)]
pub struct AgentRuntimeObservation {
    pub easytier_iface: Option<String>,
    pub lan_cidrs: Vec<String>,
    pub ingress_ifaces: Vec<String>,
    pub default_route: Option<String>,
    pub firewall_backend: Option<String>,
    pub protected_routes: Vec<String>,
}

impl Default for AgentRuntimeObservation {
    fn default() -> (r: AgentRuntimeObservation)
        ensures
            r.easytier_iface is None,
            r.lan_cidrs@.len() == 0,
            r.ingress_ifaces@.len() == 0,
            r.default_route is None,
            r.firewall_backend is None,
            r.protected_routes@.len() == 0,
    {
        AgentRuntimeObservation {
            easytier_iface: None,
            lan_cidrs: Vec::new(),
            ingress_ifaces: Vec::new(),
            default_route: None,
            firewall_backend: None,
            protected_routes: Vec::new(),
        }
    }
}

/// The version this agent reports.
pub open spec fn spec_agent_version() -> Seq<char> {
    "0.1.0"@
}

pub fn agent_version() -> (r: String)
    ensures
        r@ == spec_agent_version(),
{
    owned("0.1.0")
}

/// An optional observation overrides only when present.
pub open spec fn observed<T>(old: Option<T>, new: Option<T>) -> Option<T> {
    if new is Some {
        new
    } else {
        old
    }
}

/// A list observation overrides only when not empty.
pub open spec fn observed_list(old: Seq<String>, new: Seq<String>) -> Seq<String> {
    if new.len() > 0 {
        new
    } else {
        old
    }
}

impl AgentRuntimeReport {
    /// The report with each field that the observation saw replaced by what it saw.
    pub fn with_observation(self, observation: AgentRuntimeObservation) -> (r: AgentRuntimeReport)
        ensures
            r.easytier_iface == observed(self.easytier_iface, observation.easytier_iface),
            r.lan_cidrs@ == observed_list(self.lan_cidrs@, observation.lan_cidrs@),
            r.ingress_ifaces@ == observed_list(self.ingress_ifaces@, observation.ingress_ifaces@),
            r.default_route == observed(self.default_route, observation.default_route),
            r.firewall_backend == observed(self.firewall_backend, observation.firewall_backend),
            r.protected_routes@ == observed_list(
                self.protected_routes@,
                observation.protected_routes@,
            ),
            r.machine_id == self.machine_id,
            r.agent_version == self.agent_version,
            r.easytier_ipv4 == self.easytier_ipv4,
            r.policy_id == self.policy_id,
            r.device_policy_id == self.device_policy_id,
            r.version == self.version,
            r.role == self.role,
            r.status == self.status,
            r.observed_policy_id == self.observed_policy_id,
            r.observed_policy_version == self.observed_policy_version,
            r.observed_policy_status == self.observed_policy_status,
            r.dry_run == self.dry_run,
            r.executed_count == self.executed_count,
            r.last_error == self.last_error,
    {
        let mut report = self;
        if observation.easytier_iface.is_some() {
            report.easytier_iface = observation.easytier_iface;
        }
        if observation.lan_cidrs.len() > 0 {
            report.lan_cidrs = observation.lan_cidrs;
        }
        if observation.ingress_ifaces.len() > 0 {
            report.ingress_ifaces = observation.ingress_ifaces;
        }
        if observation.default_route.is_some() {
            report.default_route = observation.default_route;
        }
        if observation.firewall_backend.is_some() {
            report.firewall_backend = observation.firewall_backend;
        }
        if observation.protected_routes.len() > 0 {
            report.protected_routes = observation.protected_routes;
        }
        report
    }
}

/// The report of a policy's application: the policy's identity and traffic, the given status,
/// and how the command plan went.
pub fn build_runtime_report(
    machine_id: &str,
    easytier_ipv4: Option<String>,
    policy: &DevicePolicy,
    status: PolicyStatus,
    command_report: &CommandExecutionReport,
    last_error: Option<String>,
) -> (r: AgentRuntimeReport)
    ensures
        r.machine_id@ == machine_id@,
        r.agent_version@ == spec_agent_version(),
        r.easytier_ipv4 == easytier_ipv4,
        r.easytier_iface == Some(policy.easytier_iface),
        r.lan_cidrs@ == policy.managed_cidrs@,
        r.ingress_ifaces@ == policy.ingress_ifaces@,
        r.default_route is None,
        r.firewall_backend is None,
        r.protected_routes@.len() == 0,
        r.policy_id == policy.policy_id,
        r.device_policy_id == policy.device_policy_id,
        r.version == policy.version,
        r.role@ == policy.role.spec_name(),
        r.status == status,
        r.observed_policy_id == policy.policy_id,
        r.observed_policy_version == policy.version,
        r.observed_policy_status == status,
        r.dry_run == command_report.dry_run,
        r.executed_count == command_report.executed_count,
        r.last_error == last_error,
{
    AgentRuntimeReport {
        machine_id: owned(machine_id),
        agent_version: agent_version(),
        easytier_ipv4,
        easytier_iface: Some(policy.easytier_iface.clone()),
        lan_cidrs: clone_strings(&policy.managed_cidrs),
        ingress_ifaces: clone_strings(&policy.ingress_ifaces),
        default_route: None,
        firewall_backend: None,
        protected_routes: Vec::new(),
        policy_id: policy.policy_id.clone(),
        device_policy_id: policy.device_policy_id.clone(),
        version: policy.version,
        role: policy.role.name(),
        status,
        observed_policy_id: policy.policy_id.clone(),
        observed_policy_version: policy.version,
        observed_policy_status: status,
        dry_run: command_report.dry_run,
        executed_count: command_report.executed_count,
        last_error,
    }
}

/// The status a command report stands for: rolled back, degraded by an error, planned by a
/// dry run, active once a command ran, and otherwise prepared.
pub open spec fn policy_status_of(dry_run: bool, executed_count: usize, has_error: bool, rollbacked: bool) -> PolicyStatus {
    if rollbacked {
        PolicyStatus::Rollbacked
    } else if has_error {
        PolicyStatus::Degraded
    } else if dry_run {
        PolicyStatus::Planned
    } else if executed_count > 0 {
        PolicyStatus::Active
    } else {
        PolicyStatus::Prepared
    }
}

pub fn derive_policy_status(
    command_report: &CommandExecutionReport,
    last_error: Option<&str>,
    rollbacked: bool,
) -> (r: PolicyStatus)
    ensures
        r == policy_status_of(
            command_report.dry_run,
            command_report.executed_count,
            last_error is Some,
            rollbacked,
        ),
{
    if rollbacked {
        return PolicyStatus::Rollbacked;
    }
    if last_error.is_some() {
        return PolicyStatus::Degraded;
    }
    if command_report.dry_run {
        return PolicyStatus::Planned;
    }
    if command_report.executed_count > 0 {
        return PolicyStatus::Active;
    }
    PolicyStatus::Prepared
}

/// The status for a policy: a disabled policy without error is `Disabled`, and an exit that
/// would be `Active` is only `Prepared` (it waits for its source).
pub open spec fn policy_status_for(p: DevicePolicy, dry_run: bool, executed_count: usize, has_error: bool, rollbacked: bool) -> PolicyStatus {
    if !p.enabled && !has_error {
        PolicyStatus::Disabled
    } else {
        let s = policy_status_of(dry_run, executed_count, has_error, rollbacked);
        if s == PolicyStatus::Active && p.role == DevicePolicyRole::ProvideExitForGateway {
            PolicyStatus::Prepared
        } else {
            s
        }
    }
}

pub fn derive_policy_status_for_policy(
    policy: &DevicePolicy,
    command_report: &CommandExecutionReport,
    last_error: Option<&str>,
    rollbacked: bool,
) -> (r: PolicyStatus)
    ensures
        r == policy_status_for(
            *policy,
            command_report.dry_run,
            command_report.executed_count,
            last_error is Some,
            rollbacked,
        ),
{
    if !policy.enabled && last_error.is_none() {
        return PolicyStatus::Disabled;
    }
    let status = derive_policy_status(command_report, last_error, rollbacked);
    if status == PolicyStatus::Active && policy.role == DevicePolicyRole::ProvideExitForGateway {
        return PolicyStatus::Prepared;
    }
    status
}

/// The report of a plan that stopped at a failing command: `Degraded`, with the error.
pub fn build_runtime_report_from_failure(
    machine_id: &str,
    easytier_ipv4: Option<String>,
    policy: &DevicePolicy,
    failure: &CommandExecutionFailure,
) -> (r: AgentRuntimeReport)
    ensures
        r.machine_id@ == machine_id@,
        r.easytier_ipv4 == easytier_ipv4,
        r.policy_id == policy.policy_id,
        r.device_policy_id == policy.device_policy_id,
        r.version == policy.version,
        r.role@ == policy.role.spec_name(),
        r.status == PolicyStatus::Degraded,
        r.observed_policy_status == PolicyStatus::Degraded,
        r.dry_run == failure.report.dry_run,
        r.executed_count == failure.report.executed_count,
        r.last_error == Some(failure.error),
        r.easytier_iface == Some(policy.easytier_iface),
        r.lan_cidrs@ == policy.managed_cidrs@,
        r.ingress_ifaces@ == policy.ingress_ifaces@,
{
    let status = derive_policy_status(&failure.report, Some(failure.error.as_str()), false);
    build_runtime_report(
        machine_id,
        easytier_ipv4,
        policy,
        status,
        &failure.report,
        Some(failure.error.clone()),
    )
}

/// The report of a node that holds no policy, so the control plane discovers it: `Prepared`,
/// with every policy field empty.
pub fn build_idle_runtime_report(machine_id: &str, easytier_ipv4: Option<String>) -> (r:
    AgentRuntimeReport)
    ensures
        r.machine_id@ == machine_id@,
        r.agent_version@ == spec_agent_version(),
        r.easytier_ipv4 == easytier_ipv4,
        r.easytier_iface is None,
        r.lan_cidrs@.len() == 0,
        r.ingress_ifaces@.len() == 0,
        r.default_route is None,
        r.firewall_backend is None,
        r.protected_routes@.len() == 0,
        r.policy_id@.len() == 0,
        r.device_policy_id@.len() == 0,
        r.version == 0,
        r.role@.len() == 0,
        r.status == PolicyStatus::Prepared,
        r.observed_policy_id@.len() == 0,
        r.observed_policy_version == 0,
        r.observed_policy_status == PolicyStatus::Prepared,
        !r.dry_run,
        r.executed_count == 0,
        r.last_error is None,
{
    AgentRuntimeReport {
        machine_id: owned(machine_id),
        agent_version: agent_version(),
        easytier_ipv4,
        easytier_iface: None,
        lan_cidrs: Vec::new(),
        ingress_ifaces: Vec::new(),
        default_route: None,
        firewall_backend: None,
        protected_routes: Vec::new(),
        policy_id: String::new(),
        device_policy_id: String::new(),
        version: 0,
        role: String::new(),
        status: PolicyStatus::Prepared,
        observed_policy_id: String::new(),
        observed_policy_version: 0,
        observed_policy_status: PolicyStatus::Prepared,
        dry_run: false,
        executed_count: 0,
        last_error: None,
    }
}

} // verus!
