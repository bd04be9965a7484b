//! The web service's gateway policies: a full-tunnel policy between a source and an exit machine,
//! the device policies each machine receives, and the reports machines send back.
use vstd::prelude::*;

use crate::command::{clone_opt_string, clone_strings};
use crate::outside::{parse_uuid, random_uuid, uuid_hyphenated, uuid_parsed, uuid_text};
use crate::policy::{DevicePolicyRole, ExitEgress};
use crate::text::{
    blank, char_is_ws, chars_of, concat2, is_blank, is_ws, lemma_views_push, owned, str_eq,
    string_of_chars, trim, trimmed, views,
};

verus! {

/// The name of the network the web service prepares for gateways.
pub open spec fn gateway_default_network_name() -> Seq<char> {
    "gateway-default"@
}

/// How long a machine waits for its health checks.
#[derive(Debug, Clone, Copy, PartialEq, Eq)]
pub struct HealthcheckConfig {
    pub control_plane_timeout_seconds: u64,
    pub exit_timeout_seconds: u64,
}

impl Default for HealthcheckConfig {
    fn default() -> (r: HealthcheckConfig)
        ensures
            r.control_plane_timeout_seconds == 5,
            r.exit_timeout_seconds == 10,
    {
        HealthcheckConfig { control_plane_timeout_seconds: 5, exit_timeout_seconds: 10 }
    }
}

/// Whether and when a failing policy is rolled back.
#[derive(Debug, Clone, Copy, PartialEq, Eq)]
pub struct RollbackConfig {
    pub enabled: bool,
    pub max_fail_seconds: u64,
}

impl Default for RollbackConfig {
    fn default() -> (r: RollbackConfig)
        ensures
            r.enabled,
            r.max_fail_seconds == 30,
    {
        RollbackConfig { enabled: true, max_fail_seconds: 30 }
    }
}

/// A full-tunnel gateway policy: the source machine's managed traffic leaves through the exit
/// machine. Identifiers are the 128-bit values of UUIDs.
#[derive(Debug, Clone, PartialEq, Eq)]
pub struct GatewayFullTunnelPolicy {
    pub policy_id: u128,
    pub enabled: bool,
    pub network_instance_id: u128,
    pub source_machine_id: u128,
    pub managed_cidrs: Vec<String>,
    pub ingress_ifaces: Vec<String>,
    pub include_device_traffic: bool,
    pub exit_machine_id: u128,
    pub exit_egress: ExitEgress,
    pub desired_version: u64,
    pub protect_control_plane: bool,
    pub healthcheck: HealthcheckConfig,
    pub rollback: RollbackConfig,
}

/// A gateway policy, with its lists as text.
pub struct GatewayPolicyView {
    pub policy_id: u128,
    pub enabled: bool,
    pub network_instance_id: u128,
    pub source_machine_id: u128,
    pub managed_cidrs: Seq<Seq<char>>,
    pub ingress_ifaces: Seq<Seq<char>>,
    pub include_device_traffic: bool,
    pub exit_machine_id: u128,
    pub exit_egress: ExitEgress,
    pub desired_version: u64,
    pub protect_control_plane: bool,
    pub healthcheck: HealthcheckConfig,
    pub rollback: RollbackConfig,
}

impl View for GatewayFullTunnelPolicy {
    type V = GatewayPolicyView;

    open spec fn view(&self) -> GatewayPolicyView {
        GatewayPolicyView {
            policy_id: self.policy_id,
            enabled: self.enabled,
            network_instance_id: self.network_instance_id,
            source_machine_id: self.source_machine_id,
            managed_cidrs: views(self.managed_cidrs@),
            ingress_ifaces: views(self.ingress_ifaces@),
            include_device_traffic: self.include_device_traffic,
            exit_machine_id: self.exit_machine_id,
            exit_egress: self.exit_egress,
            desired_version: self.desired_version,
            protect_control_plane: self.protect_control_plane,
            healthcheck: self.healthcheck,
            rollback: self.rollback,
        }
    }
}

impl GatewayFullTunnelPolicy {
    pub fn copy(&self) -> (r: GatewayFullTunnelPolicy)
        ensures
            r@ == self@,
    {
        GatewayFullTunnelPolicy {
            policy_id: self.policy_id,
            enabled: self.enabled,
            network_instance_id: self.network_instance_id,
            source_machine_id: self.source_machine_id,
            managed_cidrs: clone_strings(&self.managed_cidrs),
            ingress_ifaces: clone_strings(&self.ingress_ifaces),
            include_device_traffic: self.include_device_traffic,
            exit_machine_id: self.exit_machine_id,
            exit_egress: self.exit_egress.copy(),
            desired_version: self.desired_version,
            protect_control_plane: self.protect_control_plane,
            healthcheck: self.healthcheck,
            rollback: self.rollback,
        }
    }
}

/// Why a gateway policy is refused or cannot be built.
#[derive(Debug, Clone, PartialEq, Eq)]
pub enum PolicyError {
    SourceEqualsExit,
    NoManagedTraffic,
    SourceAlreadyHasEnabledPolicy,
    MissingPeerIpv4,
    MachineReportNotReady,
    MachineOffline(u128),
    AgentReportStale(u128),
    MissingManagedCidrs,
    NetworkInstanceNotReady,
    PolicyNotFound,
}

impl PolicyError {
    pub open spec fn spec_message(self) -> Seq<char> {
        match self {
            PolicyError::SourceEqualsExit => "source and exit machine must be different"@,
            PolicyError::NoManagedTraffic => "policy does not define any managed traffic"@,
            PolicyError::SourceAlreadyHasEnabledPolicy => "source already has an enabled gateway full tunnel policy"@,
            PolicyError::MissingPeerIpv4 => "missing peer ipv4"@,
            PolicyError::MachineReportNotReady => "machine report is not ready"@,
            PolicyError::MachineOffline(id) => "machine is offline: "@ + uuid_hyphenated(id),
            PolicyError::AgentReportStale(id) => "agent report is stale or missing: "@ + uuid_hyphenated(id),
            PolicyError::MissingManagedCidrs => "source agent did not report any managed CIDR"@,
            PolicyError::NetworkInstanceNotReady => "source and exit do not share a running network instance"@,
            PolicyError::PolicyNotFound => "gateway policy not found"@,
        }
    }

    pub fn message(&self) -> (r: String)
        ensures
            r@ == self.spec_message(),
    {
        match self {
            PolicyError::SourceEqualsExit => owned("source and exit machine must be different"),
            PolicyError::NoManagedTraffic => owned("policy does not define any managed traffic"),
            PolicyError::SourceAlreadyHasEnabledPolicy => owned(
                "source already has an enabled gateway full tunnel policy",
            ),
            PolicyError::MissingPeerIpv4 => owned("missing peer ipv4"),
            PolicyError::MachineReportNotReady => owned("machine report is not ready"),
            PolicyError::MachineOffline(id) => {
                let text = uuid_text(*id);
                concat2("machine is offline: ", text.as_str())
            },
            PolicyError::AgentReportStale(id) => {
                let text = uuid_text(*id);
                concat2("agent report is stale or missing: ", text.as_str())
            },
            PolicyError::MissingManagedCidrs => owned("source agent did not report any managed CIDR"),
            PolicyError::NetworkInstanceNotReady => owned(
                "source and exit do not share a running network instance",
            ),
            PolicyError::PolicyNotFound => owned("gateway policy not found"),
        }
    }
}

/// The policy a device receives.
#[derive(Debug, Clone, PartialEq, Eq)]
pub struct DevicePolicy {
    pub policy_id: u128,
    pub device_policy_id: String,
    pub enabled: bool,
    pub version: u64,
    pub role: DevicePolicyRole,
    pub machine_id: u128,
    pub network_instance_id: u128,
    pub source_machine_id: u128,
    pub managed_cidrs: Vec<String>,
    pub ingress_ifaces: Vec<String>,
    pub include_device_traffic: bool,
    pub exit_machine_id: u128,
    pub exit_peer_ipv4: Option<String>,
    pub source_peer_ipv4: Option<String>,
    pub easytier_iface: String,
    pub exit_egress: ExitEgress,
    pub protect_control_plane: bool,
    pub rollback_enabled: bool,
}

/// A device policy, with its texts as character sequences.
pub struct DevicePolicyView {
    pub policy_id: u128,
    pub device_policy_id: Seq<char>,
    pub enabled: bool,
    pub version: u64,
    pub role: DevicePolicyRole,
    pub machine_id: u128,
    pub network_instance_id: u128,
    pub source_machine_id: u128,
    pub managed_cidrs: Seq<Seq<char>>,
    pub ingress_ifaces: Seq<Seq<char>>,
    pub include_device_traffic: bool,
    pub exit_machine_id: u128,
    pub exit_peer_ipv4: Option<Seq<char>>,
    pub source_peer_ipv4: Option<Seq<char>>,
    pub easytier_iface: Seq<char>,
    pub exit_egress: ExitEgress,
    pub protect_control_plane: bool,
    pub rollback_enabled: bool,
}

pub open spec fn opt_view(o: Option<String>) -> Option<Seq<char>> {
    match o {
        Some(s) => Some(s@),
        None => None,
    }
}

impl View for DevicePolicy {
    type V = DevicePolicyView;

    open spec fn view(&self) -> DevicePolicyView {
        DevicePolicyView {
            policy_id: self.policy_id,
            device_policy_id: self.device_policy_id@,
            enabled: self.enabled,
            version: self.version,
            role: self.role,
            machine_id: self.machine_id,
            network_instance_id: self.network_instance_id,
            source_machine_id: self.source_machine_id,
            managed_cidrs: views(self.managed_cidrs@),
            ingress_ifaces: views(self.ingress_ifaces@),
            include_device_traffic: self.include_device_traffic,
            exit_machine_id: self.exit_machine_id,
            exit_peer_ipv4: opt_view(self.exit_peer_ipv4),
            source_peer_ipv4: opt_view(self.source_peer_ipv4),
            easytier_iface: self.easytier_iface@,
            exit_egress: self.exit_egress,
            protect_control_plane: self.protect_control_plane,
            rollback_enabled: self.rollback_enabled,
        }
    }
}

/// The EasyTier interface a device policy from the web service names: `tun0`.
pub open spec fn web_default_easytier_iface() -> Seq<char> {
    "tun0"@
}

pub fn default_easytier_iface() -> (r: String)
    ensures
        r@ == web_default_easytier_iface(),
{
    owned("tun0")
}

/// What `GatewayFullTunnelPolicy::validate` answers.
pub open spec fn gateway_validation(p: GatewayPolicyView) -> Result<(), PolicyError> {
    if p.source_machine_id == p.exit_machine_id {
        Err(PolicyError::SourceEqualsExit)
    } else if p.managed_cidrs.len() == 0 && !p.include_device_traffic {
        Err(PolicyError::NoManagedTraffic)
    } else {
        Ok(())
    }
}

/// The device policy of one side of a gateway policy, given the peer's address.
pub open spec fn side_policy(p: GatewayPolicyView, role: DevicePolicyRole, peer: Seq<char>) -> DevicePolicyView {
    let source = role == DevicePolicyRole::ClientGatewayViaPeer;
    DevicePolicyView {
        policy_id: p.policy_id,
        device_policy_id: uuid_hyphenated(p.policy_id) + (if source {
            "/source"@
        } else {
            "/exit"@
        }),
        enabled: p.enabled,
        version: p.desired_version,
        role,
        machine_id: if source {
            p.source_machine_id
        } else {
            p.exit_machine_id
        },
        network_instance_id: p.network_instance_id,
        source_machine_id: p.source_machine_id,
        managed_cidrs: p.managed_cidrs,
        ingress_ifaces: if source {
            p.ingress_ifaces
        } else {
            Seq::empty()
        },
        include_device_traffic: p.include_device_traffic,
        exit_machine_id: p.exit_machine_id,
        exit_peer_ipv4: if source {
            Some(peer)
        } else {
            None
        },
        source_peer_ipv4: if source {
            None
        } else {
            Some(peer)
        },
        easytier_iface: web_default_easytier_iface(),
        exit_egress: p.exit_egress,
        protect_control_plane: p.protect_control_plane,
        rollback_enabled: p.rollback.enabled,
    }
}

/// A device policy result, as text.
pub open spec fn device_result(r: Result<DevicePolicy, PolicyError>) -> Result<DevicePolicyView, PolicyError> {
    match r {
        Ok(d) => Ok(d@),
        Err(e) => Err(e),
    }
}

/// The device policy of a side, or `MissingPeerIpv4` when the peer address is blank.
pub open spec fn side_result(p: GatewayPolicyView, role: DevicePolicyRole, peer: Seq<char>) -> Result<
    DevicePolicyView,
    PolicyError,
> {
    if blank(peer) {
        Err(PolicyError::MissingPeerIpv4)
    } else {
        Ok(side_policy(p, role, peer))
    }
}

impl GatewayFullTunnelPolicy {
    pub fn validate(&self) -> (r: Result<(), PolicyError>)
        ensures
            r == gateway_validation(self@),
    {
        if self.source_machine_id == self.exit_machine_id {
            return Err(PolicyError::SourceEqualsExit);
        }
        if self.managed_cidrs.len() == 0 && !self.include_device_traffic {
            return Err(PolicyError::NoManagedTraffic);
        }
        Ok(())
    }

    fn side_device_policy(&self, role: DevicePolicyRole, peer: String) -> (r: Result<
        DevicePolicy,
        PolicyError,
    >)
        ensures
            device_result(r) == side_result(self@, role, peer@),
    {
        if is_blank(peer.as_str()) {
            return Err(PolicyError::MissingPeerIpv4);
        }
        let source = role == DevicePolicyRole::ClientGatewayViaPeer;
        let id = uuid_text(self.policy_id);
        let device_policy_id = if source {
            concat2(id.as_str(), "/source")
        } else {
            concat2(id.as_str(), "/exit")
        };
        let (exit_peer_ipv4, source_peer_ipv4) = if source {
            (Some(peer), None)
        } else {
            (None, Some(peer))
        };
        let d = DevicePolicy {
            policy_id: self.policy_id,
            device_policy_id,
            enabled: self.enabled,
            version: self.desired_version,
            role,
            machine_id: if source {
                self.source_machine_id
            } else {
                self.exit_machine_id
            },
            network_instance_id: self.network_instance_id,
            source_machine_id: self.source_machine_id,
            managed_cidrs: clone_strings(&self.managed_cidrs),
            ingress_ifaces: if source {
                clone_strings(&self.ingress_ifaces)
            } else {
                Vec::new()
            },
            include_device_traffic: self.include_device_traffic,
            exit_machine_id: self.exit_machine_id,
            exit_peer_ipv4,
            source_peer_ipv4,
            easytier_iface: default_easytier_iface(),
            exit_egress: self.exit_egress.copy(),
            protect_control_plane: self.protect_control_plane,
            rollback_enabled: self.rollback.enabled,
        };
        assert(d@.ingress_ifaces =~= side_policy(self@, role, peer@).ingress_ifaces);
        Ok(d)
    }

    /// The source's device policy, routing through the exit peer's address.
    pub fn source_device_policy(&self, exit_peer_ipv4: String) -> (r: Result<DevicePolicy, PolicyError>)
        ensures
            device_result(r) == side_result(
                self@,
                DevicePolicyRole::ClientGatewayViaPeer,
                exit_peer_ipv4@,
            ),
    {
        self.side_device_policy(DevicePolicyRole::ClientGatewayViaPeer, exit_peer_ipv4)
    }

    /// The exit's device policy, serving the source peer's address.
    pub fn exit_device_policy(&self, source_peer_ipv4: String) -> (r: Result<DevicePolicy, PolicyError>)
        ensures
            device_result(r) == side_result(
                self@,
                DevicePolicyRole::ProvideExitForGateway,
                source_peer_ipv4@,
            ),
    {
        self.side_device_policy(DevicePolicyRole::ProvideExitForGateway, source_peer_ipv4)
    }
}

/// Whether another enabled policy already routes the candidate's source.
pub open spec fn source_taken(existing: Seq<GatewayPolicyView>, c: GatewayPolicyView) -> bool {
    exists|i: int|
        0 <= i < existing.len() && #[trigger] existing[i].enabled && existing[i].policy_id
            != c.policy_id && existing[i].source_machine_id == c.source_machine_id
}

/// Whether a candidate may join the existing policies: it must be valid, and an enabled one
/// must not share its source with another enabled policy (an exit may serve many sources).
pub open spec fn conflict_check(existing: Seq<GatewayPolicyView>, c: GatewayPolicyView) -> Result<
    (),
    PolicyError,
> {
    match gateway_validation(c) {
        Err(e) => Err(e),
        Ok(()) => if c.enabled && source_taken(existing, c) {
            Err(PolicyError::SourceAlreadyHasEnabledPolicy)
        } else {
            Ok(())
        },
    }
}

pub open spec fn policy_views(v: Seq<GatewayFullTunnelPolicy>) -> Seq<GatewayPolicyView> {
    v.map_values(|p: GatewayFullTunnelPolicy| p@)
}

pub fn validate_policy_conflicts(existing: &[GatewayFullTunnelPolicy], candidate: &GatewayFullTunnelPolicy) -> (r:
    Result<(), PolicyError>)
    ensures
        r == conflict_check(policy_views(existing@), candidate@),
{
    candidate.validate()?;
    if !candidate.enabled {
        return Ok(());
    }
    let ghost ex = policy_views(existing@);
    let mut i: usize = 0;
    while i < existing.len()
        invariant
            0 <= i <= existing@.len(),
            ex == policy_views(existing@),
            gateway_validation(candidate@) is Ok,
            candidate.enabled,
            forall|j: int|
                0 <= j < i ==> !(#[trigger] ex[j].enabled && ex[j].policy_id != candidate.policy_id
                    && ex[j].source_machine_id == candidate.source_machine_id),
        decreases existing.len() - i,
    {
        let p = &existing[i];
        if p.enabled && p.policy_id != candidate.policy_id && p.source_machine_id
            == candidate.source_machine_id {
            assert(ex[i as int].enabled && ex[i as int].policy_id != candidate.policy_id
                && ex[i as int].source_machine_id == candidate.source_machine_id);
            return Err(PolicyError::SourceAlreadyHasEnabledPolicy);
        }
        i += 1;
    }
    assert(!source_taken(ex, candidate@));
    Ok(())
}

// ---------------------------------------------------------------------------
// Reports
// ---------------------------------------------------------------------------
/// What a machine's agent reports.
#[derive(Debug, Clone, PartialEq, Eq)]
pub struct RuntimeReport {
    pub machine_id: u128,
    pub agent_version: String,
    pub easytier_ipv4: Option<String>,
    pub last_report_at: Option<String>,
    pub policy_id: Option<u128>,
    pub device_policy_id: Option<String>,
    pub version: Option<u64>,
    pub role: Option<DevicePolicyRole>,
    pub status: Option<String>,
    pub observed_policy_id: Option<u128>,
    pub observed_policy_version: Option<u64>,
    pub observed_policy_status: Option<String>,
    pub last_error: Option<String>,
    pub easytier_iface: Option<String>,
    pub lan_cidrs: Vec<String>,
    pub ingress_ifaces: Vec<String>,
    pub default_route: Option<String>,
    pub firewall_backend: Option<String>,
    pub protected_routes: Vec<String>,
}

/// A report, with its texts as character sequences.
pub struct ReportView {
    pub machine_id: u128,
    pub agent_version: Seq<char>,
    pub easytier_ipv4: Option<Seq<char>>,
    pub last_report_at: Option<Seq<char>>,
    pub policy_id: Option<u128>,
    pub device_policy_id: Option<Seq<char>>,
    pub version: Option<u64>,
    pub role: Option<DevicePolicyRole>,
    pub status: Option<Seq<char>>,
    pub observed_policy_id: Option<u128>,
    pub observed_policy_version: Option<u64>,
    pub observed_policy_status: Option<Seq<char>>,
    pub last_error: Option<Seq<char>>,
    pub easytier_iface: Option<Seq<char>>,
    pub lan_cidrs: Seq<Seq<char>>,
    pub ingress_ifaces: Seq<Seq<char>>,
    pub default_route: Option<Seq<char>>,
    pub firewall_backend: Option<Seq<char>>,
    pub protected_routes: Seq<Seq<char>>,
}

impl View for RuntimeReport {
    type V = ReportView;

    open spec fn view(&self) -> ReportView {
        ReportView {
            machine_id: self.machine_id,
            agent_version: self.agent_version@,
            easytier_ipv4: opt_view(self.easytier_ipv4),
            last_report_at: opt_view(self.last_report_at),
            policy_id: self.policy_id,
            device_policy_id: opt_view(self.device_policy_id),
            version: self.version,
            role: self.role,
            status: opt_view(self.status),
            observed_policy_id: self.observed_policy_id,
            observed_policy_version: self.observed_policy_version,
            observed_policy_status: opt_view(self.observed_policy_status),
            last_error: opt_view(self.last_error),
            easytier_iface: opt_view(self.easytier_iface),
            lan_cidrs: views(self.lan_cidrs@),
            ingress_ifaces: views(self.ingress_ifaces@),
            default_route: opt_view(self.default_route),
            firewall_backend: opt_view(self.firewall_backend),
            protected_routes: views(self.protected_routes@),
        }
    }
}

impl Default for RuntimeReport {
    fn default() -> (r: RuntimeReport)
        ensures
            r.machine_id == 0,
            r.agent_version@.len() == 0,
            r.easytier_ipv4 is None,
            r.last_report_at is None,
            r.policy_id is None,
            r.device_policy_id is None,
            r.version is None,
            r.role is None,
            r.status is None,
            r.observed_policy_id is None,
            r.observed_policy_version is None,
            r.observed_policy_status is None,
            r.last_error is None,
            r.easytier_iface is None,
            r.lan_cidrs@.len() == 0,
            r.ingress_ifaces@.len() == 0,
            r.default_route is None,
            r.firewall_backend is None,
            r.protected_routes@.len() == 0,
    {
        RuntimeReport {
            machine_id: 0,
            agent_version: String::new(),
            easytier_ipv4: None,
            last_report_at: None,
            policy_id: None,
            device_policy_id: None,
            version: None,
            role: None,
            status: None,
            observed_policy_id: None,
            observed_policy_version: None,
            observed_policy_status: None,
            last_error: None,
            easytier_iface: None,
            lan_cidrs: Vec::new(),
            ingress_ifaces: Vec::new(),
            default_route: None,
            firewall_backend: None,
            protected_routes: Vec::new(),
        }
    }
}

impl RuntimeReport {
    pub fn copy(&self) -> (r: RuntimeReport)
        ensures
            r@ == self@,
    {
        RuntimeReport {
            machine_id: self.machine_id,
            agent_version: self.agent_version.clone(),
            easytier_ipv4: clone_opt_string(&self.easytier_ipv4),
            last_report_at: clone_opt_string(&self.last_report_at),
            policy_id: self.policy_id,
            device_policy_id: clone_opt_string(&self.device_policy_id),
            version: self.version,
            role: self.role,
            status: clone_opt_string(&self.status),
            observed_policy_id: self.observed_policy_id,
            observed_policy_version: self.observed_policy_version,
            observed_policy_status: clone_opt_string(&self.observed_policy_status),
            last_error: clone_opt_string(&self.last_error),
            easytier_iface: clone_opt_string(&self.easytier_iface),
            lan_cidrs: clone_strings(&self.lan_cidrs),
            ingress_ifaces: clone_strings(&self.ingress_ifaces),
            default_route: clone_opt_string(&self.default_route),
            firewall_backend: clone_opt_string(&self.firewall_backend),
            protected_routes: clone_strings(&self.protected_routes),
        }
    }
}

/// The first of two options that is present.
pub open spec fn or_else<T>(a: Option<T>, b: Option<T>) -> Option<T> {
    if a is Some {
        a
    } else {
        b
    }
}

/// What a snapshot shows of one side's report.
#[derive(Debug, Clone, PartialEq, Eq)]
pub struct GatewayPolicyObservedNode {
    pub machine_id: u128,
    pub agent_version: String,
    pub easytier_ipv4: Option<String>,
    pub last_report_at: Option<String>,
    pub policy_id: Option<u128>,
    pub version: Option<u64>,
    pub status: String,
    pub last_error: Option<String>,
}

/// The observed status a report stands for: the observed one, else the reported one, else
/// `unknown`.
pub open spec fn observed_status(r: ReportView) -> Seq<char> {
    match or_else(r.observed_policy_status, r.status) {
        Some(s) => s,
        None => "unknown"@,
    }
}

/// A node of a snapshot shows this report.
pub open spec fn shows_report(n: GatewayPolicyObservedNode, r: ReportView) -> bool {
    &&& n.machine_id == r.machine_id
    &&& n.agent_version@ == r.agent_version
    &&& opt_view(n.easytier_ipv4) == r.easytier_ipv4
    &&& opt_view(n.last_report_at) == r.last_report_at
    &&& n.policy_id == or_else(r.observed_policy_id, r.policy_id)
    &&& n.version == or_else(r.observed_policy_version, r.version)
    &&& n.status@ == observed_status(r)
    &&& opt_view(n.last_error) == r.last_error
}

impl GatewayPolicyObservedNode {
    /// What a report shows of the policy it observed.
    pub fn from_report(report: &RuntimeReport) -> (r: GatewayPolicyObservedNode)
        ensures
            shows_report(r, report@),
    {
        let policy_id = match report.observed_policy_id {
            Some(id) => Some(id),
            None => report.policy_id,
        };
        let version = match report.observed_policy_version {
            Some(v) => Some(v),
            None => report.version,
        };
        let status = match &report.observed_policy_status {
            Some(s) => s.clone(),
            None => match &report.status {
                Some(s) => s.clone(),
                None => owned("unknown"),
            },
        };
        GatewayPolicyObservedNode {
            machine_id: report.machine_id,
            agent_version: report.agent_version.clone(),
            easytier_ipv4: clone_opt_string(&report.easytier_ipv4),
            last_report_at: clone_opt_string(&report.last_report_at),
            policy_id,
            version,
            status,
            last_error: clone_opt_string(&report.last_error),
        }
    }
}

/// What is observed of a policy's two sides.
#[derive(Debug, Clone, PartialEq, Eq)]
pub struct GatewayPolicyObservedState {
    pub source: Option<GatewayPolicyObservedNode>,
    pub exit: Option<GatewayPolicyObservedNode>,
}

/// A policy as desired, and as observed.
#[derive(Debug, Clone, PartialEq, Eq)]
pub struct GatewayPolicySnapshot {
    pub desired: GatewayFullTunnelPolicy,
    pub observed: GatewayPolicyObservedState,
}

// ---------------------------------------------------------------------------
// The native network settings a gateway policy touches
// ---------------------------------------------------------------------------
/// The settings of a machine's EasyTier network that a gateway policy changes.
#[derive(Debug, Clone, PartialEq, Eq)]
pub struct NativeNetworkSettings {
    pub proxy_cidrs: Vec<String>,
    pub exit_nodes: Vec<String>,
    pub enable_exit_node: Option<bool>,
    pub proxy_forward_by_system: Option<bool>,
}

/// `list` with each of `more` appended that it does not hold yet, in order.
pub open spec fn add_missing(list: Seq<Seq<char>>, more: Seq<Seq<char>>) -> Seq<Seq<char>>
    decreases more.len(),
{
    if more.len() == 0 {
        list
    } else {
        let before = add_missing(list, more.drop_last());
        if before.contains(more.last()) {
            before
        } else {
            before.push(more.last())
        }
    }
}

fn contains_string(list: &Vec<String>, item: &str) -> (r: bool)
    ensures
        r == views(list@).contains(item@),
{
    let mut i: usize = 0;
    while i < list.len()
        invariant
            0 <= i <= list@.len(),
            forall|j: int| 0 <= j < i ==> #[trigger] views(list@)[j] != item@,
        decreases list.len() - i,
    {
        if crate::text::str_eq(list[i].as_str(), item) {
            assert(views(list@)[i as int] == item@);
            return true;
        }
        i += 1;
    }
    false
}

/// Keeps the texts that are not in `drop`.
pub open spec fn not_in(drop: Seq<Seq<char>>) -> spec_fn(Seq<char>) -> bool {
    |x: Seq<char>| !drop.contains(x)
}

/// Keeps the texts that are not `item`.
pub open spec fn not_equal(item: Seq<char>) -> spec_fn(Seq<char>) -> bool {
    |x: Seq<char>| x != item
}

/// Keeps the entries of `list` that `use_list` picks out: those not in `drop_these`, or else
/// those that are not `drop_one` (`Vec::retain`).
fn retain_strings(list: &mut Vec<String>, drop_these: &Vec<String>, drop_one: &str, use_list: bool)
    ensures
        views(final(list)@) == views(old(list)@).filter(
            if use_list {
                not_in(views(drop_these@))
            } else {
                not_equal(drop_one@)
            },
        ),
{
    let ghost f = if use_list {
        not_in(views(drop_these@))
    } else {
        not_equal(drop_one@)
    };
    let mut kept: Vec<String> = Vec::new();
    let mut i: usize = 0;
    proof {
        assert(views(list@).take(0) =~= Seq::<Seq<char>>::empty());
        assert(Seq::<Seq<char>>::empty().filter(f) =~= Seq::<Seq<char>>::empty());
    }
    while i < list.len()
        invariant
            0 <= i <= list@.len(),
            views(kept@) == views(list@).take(i as int).filter(f),
            f == (if use_list {
                not_in(views(drop_these@))
            } else {
                not_equal(drop_one@)
            }),
        decreases list.len() - i,
    {
        let item = list[i].as_str();
        let drop = if use_list {
            contains_string(drop_these, item)
        } else {
            crate::text::str_eq(item, drop_one)
        };
        proof {
            crate::seqs::lemma_filter_take(views(list@), f, i as int);
        }
        if !drop {
            let ghost before = kept@;
            let owned_item = list[i].clone();
            kept.push(owned_item);
            proof {
                crate::text::lemma_views_push(before, owned_item);
            }
        }
        i += 1;
    }
    assert(views(list@).take(list@.len() as int) == views(list@));
    *list = kept;
}

/// What applying a gateway policy makes of the source's and exit's settings: an enabled policy
/// has the source announce the managed CIDRs and use the exit peer as its exit node, and the exit
/// forward for it; a disabled one takes those settings back.
pub fn apply_gateway_policy_to_native_network_configs(
    policy: &GatewayFullTunnelPolicy,
    source_config: &mut NativeNetworkSettings,
    exit_config: &mut NativeNetworkSettings,
    exit_peer_ipv4: &str,
)
    ensures
        !policy.enabled ==> {
            &&& views(final(source_config).proxy_cidrs@) == views(old(source_config).proxy_cidrs@).filter(
                not_in(views(policy.managed_cidrs@)),
            )
            &&& views(final(source_config).exit_nodes@) == views(old(source_config).exit_nodes@).filter(
                not_equal(exit_peer_ipv4@),
            )
            &&& final(source_config).enable_exit_node == old(source_config).enable_exit_node
            &&& final(source_config).proxy_forward_by_system == old(source_config).proxy_forward_by_system
            &&& final(exit_config).proxy_cidrs == old(exit_config).proxy_cidrs
            &&& final(exit_config).exit_nodes == old(exit_config).exit_nodes
            &&& final(exit_config).enable_exit_node == Some(false)
            &&& final(exit_config).proxy_forward_by_system == Some(false)
        },
        policy.enabled ==> {
            &&& views(final(source_config).proxy_cidrs@) == add_missing(
                views(old(source_config).proxy_cidrs@),
                views(policy.managed_cidrs@),
            )
            &&& views(final(source_config).exit_nodes@) == (if views(
                old(source_config).exit_nodes@,
            ).contains(exit_peer_ipv4@) {
                views(old(source_config).exit_nodes@)
            } else {
                seq![exit_peer_ipv4@]
            })
            &&& final(source_config).enable_exit_node == Some(false)
            &&& final(source_config).proxy_forward_by_system == Some(false)
            &&& final(exit_config).proxy_cidrs@.len() == 0
            &&& final(exit_config).exit_nodes@.len() == 0
            &&& final(exit_config).enable_exit_node == Some(true)
            &&& final(exit_config).proxy_forward_by_system == Some(true)
        },
{
    if !policy.enabled {
        retain_strings(&mut source_config.proxy_cidrs, &policy.managed_cidrs, "", true);
        retain_strings(&mut source_config.exit_nodes, &policy.managed_cidrs, exit_peer_ipv4, false);
        exit_config.enable_exit_node = Some(false);
        exit_config.proxy_forward_by_system = Some(false);
        return;
    }
    let ghost start = views(source_config.proxy_cidrs@);
    assert(views(policy.managed_cidrs@).take(0) =~= Seq::<Seq<char>>::empty());
    let mut i: usize = 0;
    while i < policy.managed_cidrs.len()
        invariant
            0 <= i <= policy.managed_cidrs@.len(),
            views(source_config.proxy_cidrs@) == add_missing(
                start,
                views(policy.managed_cidrs@).take(i as int),
            ),
            start == views(old(source_config).proxy_cidrs@),
            source_config.exit_nodes == old(source_config).exit_nodes,
            policy.enabled,
        decreases policy.managed_cidrs.len() - i,
    {
        let cidr = &policy.managed_cidrs[i];
        assert(views(policy.managed_cidrs@).take(i + 1).drop_last() == views(
            policy.managed_cidrs@,
        ).take(i as int));
        assert(views(policy.managed_cidrs@).take(i + 1).last() == cidr@);
        if !contains_string(&source_config.proxy_cidrs, cidr.as_str()) {
            let ghost before = source_config.proxy_cidrs@;
            let c = cidr.clone();
            source_config.proxy_cidrs.push(c);
            proof {
                crate::text::lemma_views_push(before, c);
            }
        }
        i += 1;
    }
    assert(views(policy.managed_cidrs@).take(policy.managed_cidrs@.len() as int) == views(
        policy.managed_cidrs@,
    ));
    if !contains_string(&source_config.exit_nodes, exit_peer_ipv4) {
        let mut nodes: Vec<String> = Vec::new();
        nodes.push(owned(exit_peer_ipv4));
        assert(views(nodes@) =~= seq![exit_peer_ipv4@]);
        source_config.exit_nodes = nodes;
    }
    source_config.enable_exit_node = Some(false);
    source_config.proxy_forward_by_system = Some(false);
    exit_config.proxy_cidrs = Vec::new();
    exit_config.exit_nodes = Vec::new();
    exit_config.enable_exit_node = Some(true);
    exit_config.proxy_forward_by_system = Some(true);
}


// ---------------------------------------------------------------------------
// Optional fields of a report as an agent writes them
// ---------------------------------------------------------------------------
/// What an optional id field of a report reads as: nothing when absent or blank, the UUID its
/// trimmed text holds, or, when that is no UUID, the trimmed text as the error.
pub open spec fn optional_uuid_of(value: Option<Seq<char>>) -> Result<Option<u128>, Seq<char>> {
    match value {
        None => Ok(None),
        Some(v) => if trim(v).len() == 0 {
            Ok(None)
        } else {
            match uuid_parsed(trim(v)) {
                Some(u) => Ok(Some(u)),
                None => Err(trim(v)),
            }
        },
    }
}

/// What an optional role field of a report reads as: nothing when absent or blank, the role its
/// trimmed text names, or an error naming the unknown role.
pub open spec fn optional_role_of(value: Option<Seq<char>>) -> Result<Option<DevicePolicyRole>, Seq<char>> {
    match value {
        None => Ok(None),
        Some(v) => if trim(v).len() == 0 {
            Ok(None)
        } else if trim(v) == DevicePolicyRole::ClientGatewayViaPeer.spec_name() {
            Ok(Some(DevicePolicyRole::ClientGatewayViaPeer))
        } else if trim(v) == DevicePolicyRole::ProvideExitForGateway.spec_name() {
            Ok(Some(DevicePolicyRole::ProvideExitForGateway))
        } else {
            Err("unknown device policy role: "@ + trim(v))
        },
    }
}

/// Reads an optional id field of a report (see `optional_uuid_of`).
pub fn optional_uuid_field(value: Option<&str>) -> (r: Result<Option<u128>, String>)
    ensures
        match r {
            Ok(v) => optional_uuid_of(opt_str_view(value)) == Ok::<Option<u128>, Seq<char>>(v),
            Err(e) => optional_uuid_of(opt_str_view(value)) == Err::<Option<u128>, Seq<char>>(e@),
        },
{
    let v = match value {
        None => {
            return Ok(None);
        },
        Some(v) => v,
    };
    let t = trimmed(v);
    if t.as_str().is_empty() {
        return Ok(None);
    }
    match parse_uuid(t.as_str()) {
        Some(u) => Ok(Some(u)),
        None => Err(t),
    }
}

/// Reads an optional role field of a report (see `optional_role_of`).
pub fn optional_role_field(value: Option<&str>) -> (r: Result<Option<DevicePolicyRole>, String>)
    ensures
        match r {
            Ok(v) => optional_role_of(opt_str_view(value)) == Ok::<Option<DevicePolicyRole>, Seq<char>>(v),
            Err(e) => optional_role_of(opt_str_view(value)) == Err::<Option<DevicePolicyRole>, Seq<char>>(e@),
        },
{
    let v = match value {
        None => {
            return Ok(None);
        },
        Some(v) => v,
    };
    let t = trimmed(v);
    if t.as_str().is_empty() {
        return Ok(None);
    }
    proof {
        reveal_strlit("client_gateway_via_peer");
        reveal_strlit("provide_exit_for_gateway");
    }
    if str_eq(t.as_str(), "client_gateway_via_peer") {
        Ok(Some(DevicePolicyRole::ClientGatewayViaPeer))
    } else if str_eq(t.as_str(), "provide_exit_for_gateway") {
        Ok(Some(DevicePolicyRole::ProvideExitForGateway))
    } else {
        Err(concat2("unknown device policy role: ", t.as_str()))
    }
}

/// A borrowed optional text, as characters.
pub open spec fn opt_str_view(o: Option<&str>) -> Option<Seq<char>> {
    match o {
        Some(s) => Some(s@),
        None => None,
    }
}


// ---------------------------------------------------------------------------
// Whether a machine's native settings still need the policy
// ---------------------------------------------------------------------------
/// Native network settings, as text.
pub struct SettingsView {
    pub proxy_cidrs: Seq<Seq<char>>,
    pub exit_nodes: Seq<Seq<char>>,
    pub enable_exit_node: Option<bool>,
    pub proxy_forward_by_system: Option<bool>,
}

pub open spec fn settings_view(n: NativeNetworkSettings) -> SettingsView {
    SettingsView {
        proxy_cidrs: views(n.proxy_cidrs@),
        exit_nodes: views(n.exit_nodes@),
        enable_exit_node: n.enable_exit_node,
        proxy_forward_by_system: n.proxy_forward_by_system,
    }
}

/// What a policy makes of the source's settings (see
/// `apply_gateway_policy_to_native_network_configs`).
pub open spec fn source_settings_after(p: GatewayFullTunnelPolicy, n: SettingsView, exit_peer: Seq<char>) -> SettingsView {
    if p.enabled {
        SettingsView {
            proxy_cidrs: add_missing(n.proxy_cidrs, views(p.managed_cidrs@)),
            exit_nodes: if n.exit_nodes.contains(exit_peer) {
                n.exit_nodes
            } else {
                seq![exit_peer]
            },
            enable_exit_node: Some(false),
            proxy_forward_by_system: Some(false),
        }
    } else {
        SettingsView {
            proxy_cidrs: n.proxy_cidrs.filter(not_in(views(p.managed_cidrs@))),
            exit_nodes: n.exit_nodes.filter(not_equal(exit_peer)),
            ..n
        }
    }
}

/// What a policy makes of the exit's settings.
pub open spec fn exit_settings_after(p: GatewayFullTunnelPolicy, n: SettingsView) -> SettingsView {
    if p.enabled {
        SettingsView {
            proxy_cidrs: Seq::empty(),
            exit_nodes: Seq::empty(),
            enable_exit_node: Some(true),
            proxy_forward_by_system: Some(true),
        }
    } else {
        SettingsView { enable_exit_node: Some(false), proxy_forward_by_system: Some(false), ..n }
    }
}

fn strings_equal(a: &Vec<String>, b: &Vec<String>) -> (r: bool)
    ensures
        r == (views(a@) == views(b@)),
{
    if a.len() != b.len() {
        proof {
            assert(views(a@).len() != views(b@).len());
        }
        return false;
    }
    let mut i: usize = 0;
    while i < a.len()
        invariant
            0 <= i <= a@.len(),
            a@.len() == b@.len(),
            forall|j: int| 0 <= j < i ==> #[trigger] a@[j]@ == b@[j]@,
        decreases a.len() - i,
    {
        if !str_eq(a[i].as_str(), b[i].as_str()) {
            proof {
                assert(views(a@)[i as int] != views(b@)[i as int]);
            }
            return false;
        }
        i += 1;
    }
    proof {
        assert(views(a@) =~= views(b@));
    }
    true
}

fn same_settings(a: &NativeNetworkSettings, b: &NativeNetworkSettings) -> (r: bool)
    ensures
        r == (settings_view(*a) == settings_view(*b)),
{
    strings_equal(&a.proxy_cidrs, &b.proxy_cidrs) && strings_equal(&a.exit_nodes, &b.exit_nodes)
        && a.enable_exit_node == b.enable_exit_node && a.proxy_forward_by_system
        == b.proxy_forward_by_system
}

impl NativeNetworkSettings {
    pub fn copy(&self) -> (r: NativeNetworkSettings)
        ensures
            settings_view(r) == settings_view(*self),
    {
        NativeNetworkSettings {
            proxy_cidrs: clone_strings(&self.proxy_cidrs),
            exit_nodes: clone_strings(&self.exit_nodes),
            enable_exit_node: self.enable_exit_node,
            proxy_forward_by_system: self.proxy_forward_by_system,
        }
    }
}

/// Whether applying the policy would change either machine's settings.
pub fn native_settings_need_sync(
    policy: &GatewayFullTunnelPolicy,
    source_current: &NativeNetworkSettings,
    exit_current: &NativeNetworkSettings,
    exit_peer_ipv4: &str,
) -> (r: bool)
    ensures
        r == !(source_settings_after(*policy, settings_view(*source_current), exit_peer_ipv4@)
            == settings_view(*source_current) && exit_settings_after(
            *policy,
            settings_view(*exit_current),
        ) == settings_view(*exit_current)),
{
    let mut source_desired = source_current.copy();
    let mut exit_desired = exit_current.copy();
    apply_gateway_policy_to_native_network_configs(
        policy,
        &mut source_desired,
        &mut exit_desired,
        exit_peer_ipv4,
    );
    proof {
        let sd = source_settings_after(*policy, settings_view(*source_current), exit_peer_ipv4@);
        let ed = exit_settings_after(*policy, settings_view(*exit_current));
        assert(settings_view(source_desired) == sd);
        if !policy.enabled {
            assert(views(exit_desired.proxy_cidrs@) == views(exit_current.proxy_cidrs@));
            assert(views(exit_desired.exit_nodes@) == views(exit_current.exit_nodes@));
        } else {
            assert(views(exit_desired.proxy_cidrs@) =~= Seq::<Seq<char>>::empty());
            assert(views(exit_desired.exit_nodes@) =~= Seq::<Seq<char>>::empty());
        }
        assert(settings_view(exit_desired) == ed);
    }
    !(same_settings(source_current, &source_desired) && same_settings(exit_current, &exit_desired))
}


/// Keeping what a predicate keeps twice keeps the same.
pub proof fn lemma_filter_twice<A>(s: Seq<A>, f: spec_fn(A) -> bool)
    ensures
        s.filter(f).filter(f) == s.filter(f),
    decreases s.len(),
{
    reveal(Seq::filter);
    if s.len() > 0 {
        let t = s.drop_last();
        lemma_filter_twice(t, f);
        if f(s.last()) {
            t.filter(f).lemma_filter_push(s.last(), f);
            assert(s.filter(f) == t.filter(f).push(s.last()));
        } else {
            assert(s.filter(f) == t.filter(f));
        }
    }
}

/// Adding what is missing leaves the list in front and holds all that was added.
pub proof fn lemma_add_missing_holds(list: Seq<Seq<char>>, more: Seq<Seq<char>>)
    ensures
        forall|x: Seq<char>| list.contains(x) ==> add_missing(list, more).contains(x),
        forall|i: int| 0 <= i < more.len() ==> add_missing(list, more).contains(#[trigger] more[i]),
    decreases more.len(),
{
    if more.len() > 0 {
        let t = more.drop_last();
        lemma_add_missing_holds(list, t);
        let before = add_missing(list, t);
        assert forall|x: Seq<char>| before.contains(x) implies add_missing(list, more).contains(x) by {
            if !before.contains(more.last()) {
                let j = choose|j: int| 0 <= j < before.len() && before[j] == x;
                assert(before.push(more.last())[j] == x);
            }
        }
        assert forall|i: int| 0 <= i < more.len() implies add_missing(list, more).contains(#[trigger] more[i]) by {
            if i < more.len() - 1 {
                assert(more[i] == t[i]);
                assert(before.contains(t[i]));
            } else {
                if !before.contains(more.last()) {
                    assert(before.push(more.last())[before.len() as int] == more.last());
                }
            }
        }
    }
}

/// Adding only what a list holds already leaves it as it is.
pub proof fn lemma_add_missing_nothing_new(list: Seq<Seq<char>>, more: Seq<Seq<char>>)
    requires
        forall|i: int| 0 <= i < more.len() ==> list.contains(#[trigger] more[i]),
    ensures
        add_missing(list, more) == list,
    decreases more.len(),
{
    if more.len() > 0 {
        let t = more.drop_last();
        assert forall|i: int| 0 <= i < t.len() implies list.contains(#[trigger] t[i]) by {
            assert(t[i] == more[i]);
        }
        lemma_add_missing_nothing_new(list, t);
        assert(list.contains(more[more.len() - 1]));
    }
}

/// Syncing a policy into the machines' settings a second time changes nothing: once synced,
/// their settings need no further sync.
pub proof fn lemma_native_sync_is_idempotent(
    p: GatewayFullTunnelPolicy,
    source: SettingsView,
    exit: SettingsView,
    exit_peer: Seq<char>,
)
    ensures
        source_settings_after(p, source_settings_after(p, source, exit_peer), exit_peer)
            == source_settings_after(p, source, exit_peer),
        exit_settings_after(p, exit_settings_after(p, exit)) == exit_settings_after(p, exit),
{
    let once = source_settings_after(p, source, exit_peer);
    if p.enabled {
        lemma_add_missing_holds(source.proxy_cidrs, views(p.managed_cidrs@));
        lemma_add_missing_nothing_new(once.proxy_cidrs, views(p.managed_cidrs@));
        if !source.exit_nodes.contains(exit_peer) {
            assert(seq![exit_peer][0] == exit_peer);
        }
        assert(once.exit_nodes.contains(exit_peer));
    } else {
        lemma_filter_twice(source.proxy_cidrs, not_in(views(p.managed_cidrs@)));
        lemma_filter_twice(source.exit_nodes, not_equal(exit_peer));
    }
    assert(exit_settings_after(p, exit_settings_after(p, exit)) =~~= exit_settings_after(p, exit));
    assert(source_settings_after(p, once, exit_peer) =~~= once);
}


// ---------------------------------------------------------------------------
// The peers a prepared gateway network connects to
// ---------------------------------------------------------------------------
/// The peer the web service's prepared gateway networks connect to unless configured otherwise.
pub open spec fn default_gateway_peer_url() -> Seq<char> {
    "udp://137.220.194.19:22020/admin"@
}

/// What separates peer URLs in a list: a comma, a semicolon or white space.
pub open spec fn is_url_separator(c: char) -> bool {
    c == ',' || c == ';' || is_ws(c)
}

/// The pieces of a text between separators (`str::split` on them), left to right.
pub open spec fn url_pieces(s: Seq<char>) -> Seq<Seq<char>>
    decreases s.len(),
{
    if s.len() == 0 {
        seq![Seq::empty()]
    } else {
        let p = url_pieces(s.drop_last());
        if is_url_separator(s.last()) {
            p.push(Seq::empty())
        } else {
            p.update(p.len() - 1, p.last().push(s.last()))
        }
    }
}

pub open spec fn nonempty_text() -> spec_fn(Seq<char>) -> bool {
    |t: Seq<char>| t.len() > 0
}

/// The peer URLs a list names: its non-empty pieces, in order.
pub open spec fn peer_urls_of(s: Seq<char>) -> Seq<Seq<char>> {
    url_pieces(s).filter(nonempty_text())
}

/// The peer URLs of a list text (a configured one, or else the default peer).
pub fn gateway_default_peer_urls(configured: Option<&str>) -> (r: Vec<String>)
    ensures
        views(r@) == peer_urls_of(
            match configured {
                Some(t) => t@,
                None => default_gateway_peer_url(),
            },
        ),
{
    let raw: &str = match configured {
        Some(t) => t,
        None => "udp://137.220.194.19:22020/admin",
    };
    let chars = chars_of(raw);
    let ghost text = raw@;
    let mut out: Vec<String> = Vec::new();
    let mut current: Vec<char> = Vec::new();
    let mut i: usize = 0;
    proof {
        assert(text.take(0) =~= Seq::<char>::empty());
        assert(url_pieces(text.take(0)).drop_last() =~= Seq::<Seq<char>>::empty());
        assert(Seq::<Seq<char>>::empty().filter(nonempty_text()) =~= Seq::<Seq<char>>::empty()) by {
            reveal(Seq::filter);
        }
        assert(views(out@) =~= Seq::<Seq<char>>::empty());
    }
    while i < chars.len()
        invariant
            0 <= i <= chars@.len(),
            chars@ == text,
            url_pieces(text.take(i as int)).len() >= 1,
            views(out@) == url_pieces(text.take(i as int)).drop_last().filter(nonempty_text()),
            current@ == url_pieces(text.take(i as int)).last(),
        decreases chars.len() - i,
    {
        let ghost p = url_pieces(text.take(i as int));
        proof {
            assert(text.take(i + 1).drop_last() =~= text.take(i as int));
            assert(text.take(i + 1).last() == text[i as int]);
        }
        let c = chars[i];
        if c == ',' || c == ';' || char_is_ws(c) {
            let ghost before = out@;
            if current.len() > 0 {
                let piece = string_of_chars(current.as_slice());
                out.push(piece);
                proof {
                    lemma_views_push(before, piece);
                }
            }
            proof {
                assert(p =~= p.drop_last().push(p.last()));
                p.drop_last().lemma_filter_push(p.last(), nonempty_text());
                assert(url_pieces(text.take(i + 1)) == p.push(Seq::empty()));
                assert(p.push(Seq::<char>::empty()).drop_last() =~= p);
            }
            current = Vec::new();
            proof {
                assert(current@ =~= Seq::<char>::empty());
            }
        } else {
            current.push(c);
            proof {
                let q = p.update(p.len() - 1, p.last().push(c));
                assert(url_pieces(text.take(i + 1)) == q);
                assert(q.drop_last() =~= p.drop_last());
            }
        }
        i += 1;
    }
    let ghost p = url_pieces(text.take(i as int));
    let ghost before = out@;
    if current.len() > 0 {
        let piece = string_of_chars(current.as_slice());
        out.push(piece);
        proof {
            lemma_views_push(before, piece);
        }
    }
    proof {
        assert(text.take(i as int) =~= text);
        assert(p =~= p.drop_last().push(p.last()));
        p.drop_last().lemma_filter_push(p.last(), nonempty_text());
    }
    out
}


/// The network a gateway pair is given when it shares none: its instance, secret and peers.
#[derive(Debug, Clone, PartialEq, Eq)]
pub struct GatewayNetworkTemplate {
    pub instance_id: u128,
    pub network_secret: String,
    pub peer_urls: Vec<String>,
}

/// The network to prepare for a pair: the one either machine already has under the gateway
/// network's name (its secret unless blank, its peers unless none), else a new one; what is
/// missing is taken from the fresh instance, the fresh secret and the default peers.
pub fn gateway_network_template(
    existing: Option<(u128, Option<String>, Vec<String>)>,
    fresh_instance_id: u128,
    fresh_secret: String,
    default_peer_urls: Vec<String>,
) -> (r: GatewayNetworkTemplate)
    ensures
        match existing {
            Some((id, secret, peers)) => {
                &&& r.instance_id == id
                &&& r.network_secret == (match secret {
                    Some(s) => if blank(s@) {
                        fresh_secret
                    } else {
                        s
                    },
                    None => fresh_secret,
                })
                &&& r.peer_urls == (if peers@.len() == 0 {
                    default_peer_urls
                } else {
                    peers
                })
            },
            None => r.instance_id == fresh_instance_id && r.network_secret == fresh_secret
                && r.peer_urls == default_peer_urls,
        },
{
    match existing {
        Some((instance_id, secret, peers)) => {
            let network_secret = match secret {
                Some(s) => if is_blank(s.as_str()) {
                    fresh_secret
                } else {
                    s
                },
                None => fresh_secret,
            };
            let peer_urls = if peers.len() == 0 {
                default_peer_urls
            } else {
                peers
            };
            GatewayNetworkTemplate { instance_id, network_secret, peer_urls }
        },
        None => GatewayNetworkTemplate {
            instance_id: fresh_instance_id,
            network_secret: fresh_secret,
            peer_urls: default_peer_urls,
        },
    }
}

/// What gateways read of a network config stored for a machine.
#[derive(Debug, Clone, PartialEq, Eq)]
pub struct NetworkConfigFields {
    pub network_name: Option<String>,
    pub network_secret: Option<String>,
    pub peer_urls: Vec<String>,
}

/// A network config stored for a machine: its instance id as stored, and its fields when its
/// stored text could be read.
#[derive(Debug, Clone, PartialEq, Eq)]
pub struct StoredNetworkConfig {
    pub instance_id: String,
    pub config: Option<NetworkConfigFields>,
}

/// Why a machine's stored network configs cannot be searched.
#[derive(Debug, Clone, Copy, PartialEq, Eq, Structural)]
pub enum StoredConfigError {
    /// A config read before the gateway network's could not be read.
    UnreadableConfig,
    /// The gateway network's instance id is not a UUID.
    InvalidInstanceId,
}

/// Searching a machine's stored configs from position `i` on, in order, for the gateway network
/// (the first named `gateway-default`): its instance id and position; an error at the first
/// config that cannot be read, or when the gateway network's instance id is not a UUID.
pub open spec fn gateway_config_from(rows: Seq<StoredNetworkConfig>, i: int) -> Result<
    Option<(u128, int)>,
    StoredConfigError,
>
    decreases rows.len() - i,
{
    if i < 0 || i >= rows.len() {
        Ok(None)
    } else {
        match rows[i].config {
            None => Err(StoredConfigError::UnreadableConfig),
            Some(c) => if opt_view(c.network_name) != Some(gateway_default_network_name()) {
                gateway_config_from(rows, i + 1)
            } else {
                match uuid_parsed(rows[i].instance_id@) {
                    Some(v) => Ok(Some((v, i))),
                    None => Err(StoredConfigError::InvalidInstanceId),
                }
            },
        }
    }
}

/// Finds the gateway network among a machine's stored network configs: its instance id and its
/// position.
pub fn find_gateway_default_network_config(rows: &[StoredNetworkConfig]) -> (r: Result<
    Option<(u128, usize)>,
    StoredConfigError,
>)
    ensures
        match r {
            Ok(Some((v, k))) => gateway_config_from(rows@, 0) == Ok::<
                Option<(u128, int)>,
                StoredConfigError,
            >(Some((v, k as int))) && k < rows@.len(),
            Ok(None) => gateway_config_from(rows@, 0) == Ok::<Option<(u128, int)>, StoredConfigError>(
                None,
            ),
            Err(e) => gateway_config_from(rows@, 0) == Err::<Option<(u128, int)>, StoredConfigError>(e),
        },
{
    proof {
        reveal_strlit("gateway-default");
    }
    let mut i: usize = 0;
    while i < rows.len()
        invariant
            0 <= i <= rows@.len(),
            gateway_config_from(rows@, i as int) == gateway_config_from(rows@, 0),
        decreases rows.len() - i,
    {
        let row = &rows[i];
        let c = match &row.config {
            None => {
                return Err(StoredConfigError::UnreadableConfig);
            },
            Some(c) => c,
        };
        let named = match &c.network_name {
            Some(n) => str_eq(n.as_str(), "gateway-default"),
            None => false,
        };
        if named {
            return match parse_uuid(row.instance_id.as_str()) {
                Some(v) => Ok(Some((v, i))),
                None => Err(StoredConfigError::InvalidInstanceId),
            };
        }
        i += 1;
    }
    Ok(None)
}

/// The template of the gateway network, given the position of the config it comes from, if any.
pub open spec fn template_holds(
    t: GatewayNetworkTemplate,
    existing: Option<(u128, NetworkConfigFields)>,
    default_peer_urls: Seq<Seq<char>>,
) -> bool {
    match existing {
        Some((id, c)) => {
            &&& t.instance_id == id
            &&& match c.network_secret {
                Some(s) if !blank(s@) => t.network_secret == s,
                _ => true,
            }
            &&& views(t.peer_urls@) == (if c.peer_urls@.len() == 0 {
                default_peer_urls
            } else {
                views(c.peer_urls@)
            })
        },
        None => views(t.peer_urls@) == default_peer_urls,
    }
}

/// The gateway network to prepare for a pair: the one the source machine has, else the one the
/// exit machine has (both machines' configs are searched, and an error in either is returned),
/// with its secret unless blank and its peers unless none; else a new network. A new instance id
/// and a missing secret are fresh random UUIDs; missing peers are the default peers (from the
/// configured list, else the default peer).
pub fn load_gateway_default_network_template(
    source_configs: &[StoredNetworkConfig],
    exit_configs: &[StoredNetworkConfig],
    configured_peer_urls: Option<&str>,
) -> (r: Result<GatewayNetworkTemplate, StoredConfigError>)
    ensures
        ({
            let from_source = gateway_config_from(source_configs@, 0);
            let from_exit = gateway_config_from(exit_configs@, 0);
            let defaults = peer_urls_of(
                match configured_peer_urls {
                    Some(t) => t@,
                    None => default_gateway_peer_url(),
                },
            );
            match (from_source, from_exit) {
                (Err(e), _) => r == Err::<GatewayNetworkTemplate, StoredConfigError>(e),
                (Ok(_), Err(e)) => r == Err::<GatewayNetworkTemplate, StoredConfigError>(e),
                (Ok(Some((id, k))), Ok(_)) => r is Ok && template_holds(
                    r->Ok_0,
                    Some((id, source_configs@[k].config->0)),
                    defaults,
                ),
                (Ok(None), Ok(Some((id, k)))) => r is Ok && template_holds(
                    r->Ok_0,
                    Some((id, exit_configs@[k].config->0)),
                    defaults,
                ),
                (Ok(None), Ok(None)) => r is Ok && template_holds(r->Ok_0, None, defaults),
            }
        }),
{
    let from_source = find_gateway_default_network_config(source_configs);
    let from_exit = find_gateway_default_network_config(exit_configs);
    let from_source = match from_source {
        Err(e) => {
            return Err(e);
        },
        Ok(f) => f,
    };
    let from_exit = match from_exit {
        Err(e) => {
            return Err(e);
        },
        Ok(f) => f,
    };
    let existing = match from_source {
        Some((id, k)) => {
            proof {
                lemma_gateway_config_found(source_configs@, 0);
            }
            Some((id, source_configs[k].config.as_ref().unwrap()))
        },
        None => match from_exit {
            Some((id, k)) => {
                proof {
                    lemma_gateway_config_found(exit_configs@, 0);
                }
                Some((id, exit_configs[k].config.as_ref().unwrap()))
            },
            None => None,
        },
    };
    let existing = match existing {
        Some((instance_id, c)) => Some(
            (instance_id, clone_opt_string(&c.network_secret), clone_strings(&c.peer_urls)),
        ),
        None => None,
    };
    let fresh_instance_id = random_uuid();
    let fresh_secret = uuid_text(random_uuid());
    Ok(
        gateway_network_template(
            existing,
            fresh_instance_id,
            fresh_secret,
            gateway_default_peer_urls(configured_peer_urls),
        ),
    )
}

proof fn lemma_gateway_config_found(rows: Seq<StoredNetworkConfig>, i: int)
    requires
        0 <= i,
        gateway_config_from(rows, i) matches Ok(Some(_)),
    ensures
        gateway_config_from(rows, i) matches Ok(Some((_, k))) && i <= k < rows.len() && rows[k].config
            is Some,
    decreases rows.len() - i,
{
    if i < rows.len() {
        match rows[i].config {
            None => {},
            Some(c) => if opt_view(c.network_name) != Some(gateway_default_network_name()) {
                lemma_gateway_config_found(rows, i + 1);
            },
        }
    }
}

/// The settings a gateway network is run with on a machine, as the web service sets them.
#[derive(Debug, Clone, PartialEq, Eq)]
pub struct GatewayNetworkConfig {
    pub instance_id: String,
    pub network_name: String,
    pub network_secret: String,
    pub hostname: Option<String>,
    /// Peers are set by hand (EasyTier's `Manual` networking method).
    pub manual_networking: bool,
    pub peer_urls: Vec<String>,
    pub listener_urls: Vec<String>,
    pub network_length: u32,
    pub vpn_portal_listen_port: u32,
    pub vpn_portal_client_network_len: u32,
    pub socks5_port: u32,
    pub dhcp: bool,
    pub bind_device: bool,
    pub multi_thread: bool,
    pub enable_vpn_portal: bool,
    pub advanced_settings: bool,
    pub latency_first: bool,
    pub use_smoltcp: bool,
    pub disable_ipv6: bool,
    pub enable_kcp_proxy: bool,
    pub disable_kcp_input: bool,
    pub disable_p2p: bool,
    pub no_tun: bool,
    pub enable_exit_node: bool,
    pub relay_all_peer_rpc: bool,
    pub enable_relay_network_whitelist: bool,
    pub enable_manual_routes: bool,
    pub proxy_forward_by_system: bool,
    pub disable_encryption: bool,
    pub enable_socks5: bool,
    pub disable_udp_hole_punching: bool,
    pub enable_magic_dns: bool,
    pub enable_private_mode: bool,
    pub enable_quic_proxy: bool,
    pub disable_quic_input: bool,
    pub disable_sym_hole_punching: bool,
    pub p2p_only: bool,
    pub disable_tcp_hole_punching: bool,
    pub lazy_p2p: bool,
    pub need_p2p: bool,
    pub disable_upnp: bool,
    pub ipv6_public_addr_provider: bool,
    pub ipv6_public_addr_auto: bool,
    pub disable_relay_data: bool,
    pub enable_udp_broadcast_relay: bool,
}

/// The listeners a gateway network opens.
pub open spec fn gateway_listener_urls() -> Seq<Seq<char>> {
    seq!["tcp://0.0.0.0:11010"@, "udp://0.0.0.0:11010"@, "wg://0.0.0.0:11011"@]
}

/// The settings of the gateway network on one machine: the network's instance, name and secret,
/// the machine's hostname, peers set by hand, DHCP addressing in a /24, the default listeners,
/// bound to its device and multi-threaded, with every optional feature off.
pub fn gateway_default_network_config(
    instance_id: u128,
    network_secret: String,
    hostname: Option<String>,
    peer_urls: Vec<String>,
) -> (r: GatewayNetworkConfig)
    ensures
            r.instance_id@ == uuid_hyphenated(instance_id),
            r.network_name@ == gateway_default_network_name(),
            r.network_secret == network_secret,
            r.hostname == hostname,
            r.manual_networking,
            r.peer_urls == peer_urls,
            views(r.listener_urls@) == gateway_listener_urls(),
            r.network_length == 24,
            r.vpn_portal_listen_port == 22022,
            r.vpn_portal_client_network_len == 24,
            r.socks5_port == 1080,
            r.dhcp,
            r.bind_device,
            r.multi_thread,
            !r.enable_vpn_portal,
            !r.advanced_settings,
            !r.latency_first,
            !r.use_smoltcp,
            !r.disable_ipv6,
            !r.enable_kcp_proxy,
            !r.disable_kcp_input,
            !r.disable_p2p,
            !r.no_tun,
            !r.enable_exit_node,
            !r.relay_all_peer_rpc,
            !r.enable_relay_network_whitelist,
            !r.enable_manual_routes,
            !r.proxy_forward_by_system,
            !r.disable_encryption,
            !r.enable_socks5,
            !r.disable_udp_hole_punching,
            !r.enable_magic_dns,
            !r.enable_private_mode,
            !r.enable_quic_proxy,
            !r.disable_quic_input,
            !r.disable_sym_hole_punching,
            !r.p2p_only,
            !r.disable_tcp_hole_punching,
            !r.lazy_p2p,
            !r.need_p2p,
            !r.disable_upnp,
            !r.ipv6_public_addr_provider,
            !r.ipv6_public_addr_auto,
            !r.disable_relay_data,
            !r.enable_udp_broadcast_relay,
{
    proof {
        reveal_strlit("gateway-default");
    }
    let mut listener_urls: Vec<String> = Vec::new();
    listener_urls.push(owned("tcp://0.0.0.0:11010"));
    listener_urls.push(owned("udp://0.0.0.0:11010"));
    listener_urls.push(owned("wg://0.0.0.0:11011"));
    assert(views(listener_urls@) =~= gateway_listener_urls());
    GatewayNetworkConfig {
        instance_id: uuid_text(instance_id),
        network_name: owned("gateway-default"),
        network_secret,
        hostname,
        manual_networking: true,
        peer_urls,
        listener_urls,
        network_length: 24,
        vpn_portal_listen_port: 22022,
        vpn_portal_client_network_len: 24,
        socks5_port: 1080,
        dhcp: true,
        bind_device: true,
        multi_thread: true,
        enable_vpn_portal: false,
        advanced_settings: false,
        latency_first: false,
        use_smoltcp: false,
        disable_ipv6: false,
        enable_kcp_proxy: false,
        disable_kcp_input: false,
        disable_p2p: false,
        no_tun: false,
        enable_exit_node: false,
        relay_all_peer_rpc: false,
        enable_relay_network_whitelist: false,
        enable_manual_routes: false,
        proxy_forward_by_system: false,
        disable_encryption: false,
        enable_socks5: false,
        disable_udp_hole_punching: false,
        enable_magic_dns: false,
        enable_private_mode: false,
        enable_quic_proxy: false,
        disable_quic_input: false,
        disable_sym_hole_punching: false,
        p2p_only: false,
        disable_tcp_hole_punching: false,
        lazy_p2p: false,
        need_p2p: false,
        disable_upnp: false,
        ipv6_public_addr_provider: false,
        ipv6_public_addr_auto: false,
        disable_relay_data: false,
        enable_udp_broadcast_relay: false,
    }
}

/// The device policies of a gateway policy's two sides carry what the two sides share
/// unchanged (the policy, its switch and version, its network, machines and managed CIDRs,
/// whether device traffic is managed, its egress and its safety settings), are addressed to
/// their own side, and name the other side's address as the peer: the source routes through
/// the exit peer, the exit serves the source peer. A blank peer address gives no device policy.
pub proof fn lemma_side_policies_share_the_gateway_policy(
    p: GatewayPolicyView,
    role: DevicePolicyRole,
    peer: Seq<char>,
)
    ensures
        side_result(p, role, peer) is Ok <==> !blank(peer),
        side_result(p, role, peer) matches Ok(d) ==> {
            &&& d.policy_id == p.policy_id
            &&& d.role == role
            &&& d.enabled == p.enabled
            &&& d.version == p.desired_version
            &&& d.network_instance_id == p.network_instance_id
            &&& d.source_machine_id == p.source_machine_id
            &&& d.exit_machine_id == p.exit_machine_id
            &&& d.managed_cidrs == p.managed_cidrs
            &&& d.include_device_traffic == p.include_device_traffic
            &&& d.exit_egress == p.exit_egress
            &&& d.protect_control_plane == p.protect_control_plane
            &&& d.rollback_enabled == p.rollback.enabled
            &&& role == DevicePolicyRole::ClientGatewayViaPeer ==> d.machine_id == p.source_machine_id
                && d.exit_peer_ipv4 == Some(peer) && d.source_peer_ipv4 is None
                && d.ingress_ifaces == p.ingress_ifaces
            &&& role == DevicePolicyRole::ProvideExitForGateway ==> d.machine_id == p.exit_machine_id
                && d.source_peer_ipv4 == Some(peer) && d.exit_peer_ipv4 is None
                && d.ingress_ifaces.len() == 0
        },
{
}

} // verus!
