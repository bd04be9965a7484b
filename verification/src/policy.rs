use vstd::prelude::*;

use crate::text::{blank, concat2, is_blank, owned, str_eq};

verus! {

/// The part a device plays in a full-tunnel gateway policy.
#[derive(Debug, Clone, Copy, PartialEq, Eq, Structural)]
pub enum DevicePolicyRole {
    ClientGatewayViaPeer,
    ProvideExitForGateway,
}

/// Where an applied policy stands.
#[derive(Debug, Clone, Copy, PartialEq, Eq, Structural)]
pub enum PolicyStatus {
    Pending,
    Validating,
    Planned,
    Prepared,
    Applying,
    VerifyingControlPlane,
    VerifyingExit,
    Active,
    Degraded,
    Rollbacking,
    Rollbacked,
    Disabled,
}

/// How the exit node picks its egress interface.
#[derive(Debug, Clone, Copy, PartialEq, Eq, Structural)]
pub enum ExitEgressMode {
    Auto,
    Interface,
}

/// The exit node's egress.
#[derive(Debug, Clone, PartialEq, Eq)]
pub struct ExitEgress {
    pub mode: ExitEgressMode,
    pub iface: Option<String>,
}

/// The policy one device receives.
#[derive(Debug, Clone, PartialEq, Eq)]
pub struct DevicePolicy {
    pub policy_id: String,
    pub device_policy_id: String,
    pub enabled: bool,
    pub version: u64,
    pub role: DevicePolicyRole,
    /// The network instance, as the 128-bit value of its UUID.
    pub network_instance_id: u128,
    pub source_machine_id: String,
    pub managed_cidrs: Vec<String>,
    pub ingress_ifaces: Vec<String>,
    pub include_device_traffic: bool,
    pub exit_machine_id: String,
    pub exit_peer_ipv4: Option<String>,
    pub source_peer_ipv4: Option<String>,
    pub easytier_iface: String,
    pub exit_egress: ExitEgress,
    pub protect_control_plane: bool,
    pub rollback_enabled: bool,
}

/// Why a device policy is refused.
#[derive(Debug, Clone, PartialEq, Eq)]
pub enum PolicyError {
    MissingField(&'static str),
    SourceEqualsExit,
    NoManagedTraffic,
    InvalidManagedCidr(String),
}

impl ExitEgress {
    /// The default egress: automatic, no interface.
    pub fn default_egress() -> (r: ExitEgress)
        ensures
            r.mode == ExitEgressMode::Auto,
            r.iface is None,
    {
        ExitEgress { mode: ExitEgressMode::Auto, iface: None }
    }
}

/// The default of flags that are on unless a policy says otherwise.
pub fn default_true() -> (r: bool)
    ensures
        r,
{
    true
}

/// The EasyTier interface a device policy names when it names none.
pub open spec fn spec_default_easytier_iface() -> Seq<char> {
    "easytier0"@
}

pub fn default_easytier_iface() -> (r: String)
    ensures
        r@ == spec_default_easytier_iface(),
{
    owned("easytier0")
}

/// `i` is the first index whose CIDR is blank.
pub open spec fn is_first_blank(cidrs: Seq<String>, i: int) -> bool {
    &&& 0 <= i < cidrs.len()
    &&& blank(cidrs[i]@)
    &&& forall|j: int| 0 <= j < i ==> !blank(#[trigger] cidrs[j]@)
}

pub open spec fn has_blank(cidrs: Seq<String>) -> bool {
    exists|i: int| is_first_blank(cidrs, i)
}

/// The peer address that the policy's role needs, and the field that holds it.
pub open spec fn required_peer(p: DevicePolicy) -> Option<String> {
    match p.role {
        DevicePolicyRole::ClientGatewayViaPeer => p.exit_peer_ipv4,
        DevicePolicyRole::ProvideExitForGateway => p.source_peer_ipv4,
    }
}

pub open spec fn required_peer_field(role: DevicePolicyRole) -> &'static str {
    match role {
        DevicePolicyRole::ClientGatewayViaPeer => "exit_peer_ipv4",
        DevicePolicyRole::ProvideExitForGateway => "source_peer_ipv4",
    }
}

/// An optional string that is absent or blank.
pub open spec fn missing(v: Option<String>) -> bool {
    match v {
        Some(s) => blank(s@),
        None => true,
    }
}

/// What `DevicePolicy::validate` answers: the first rule a policy breaks, in the order the rules
/// are checked.
pub open spec fn validation(p: DevicePolicy) -> Result<(), PolicyError> {
    if blank(p.policy_id@) {
        Err(PolicyError::MissingField("policy_id"))
    } else if blank(p.device_policy_id@) {
        Err(PolicyError::MissingField("device_policy_id"))
    } else if blank(p.source_machine_id@) {
        Err(PolicyError::MissingField("source_machine_id"))
    } else if blank(p.exit_machine_id@) {
        Err(PolicyError::MissingField("exit_machine_id"))
    } else if p.source_machine_id@ == p.exit_machine_id@ {
        Err(PolicyError::SourceEqualsExit)
    } else if p.managed_cidrs@.len() == 0 && !p.include_device_traffic {
        Err(PolicyError::NoManagedTraffic)
    } else if has_blank(p.managed_cidrs@) {
        Err(
            PolicyError::InvalidManagedCidr(
                p.managed_cidrs@[choose|i: int| is_first_blank(p.managed_cidrs@, i)],
            ),
        )
    } else if blank(p.easytier_iface@) {
        Err(PolicyError::MissingField("easytier_iface"))
    } else if missing(required_peer(p)) {
        Err(PolicyError::MissingField(required_peer_field(p.role)))
    } else if p.exit_egress.mode == ExitEgressMode::Interface && missing(p.exit_egress.iface) {
        Err(PolicyError::MissingField("exit_egress.iface"))
    } else {
        Ok(())
    }
}

/// A policy that passes validation.
pub open spec fn valid(p: DevicePolicy) -> bool {
    validation(p) is Ok
}

fn require_ip(value: &Option<String>, field: &'static str) -> (r: Result<(), PolicyError>)
    ensures
        r == (if missing(*value) {
            Err(PolicyError::MissingField(field))
        } else {
            Ok::<(), PolicyError>(())
        }),
{
    match value {
        Some(ip) => {
            if !is_blank(ip.as_str()) {
                Ok(())
            } else {
                Err(PolicyError::MissingField(field))
            }
        },
        None => Err(PolicyError::MissingField(field)),
    }
}

fn optional_blank(value: &Option<String>) -> (r: bool)
    ensures
        r == missing(*value),
{
    match value {
        Some(s) => is_blank(s.as_str()),
        None => true,
    }
}

impl DevicePolicy {
    /// Checks the policy before anything is planned from it.
    #[verifier::loop_isolation(false)]
    pub fn validate(&self) -> (r: Result<(), PolicyError>)
        ensures
            r == validation(*self),
    {
        if is_blank(self.policy_id.as_str()) {
            return Err(PolicyError::MissingField("policy_id"));
        }
        if is_blank(self.device_policy_id.as_str()) {
            return Err(PolicyError::MissingField("device_policy_id"));
        }
        if is_blank(self.source_machine_id.as_str()) {
            return Err(PolicyError::MissingField("source_machine_id"));
        }
        if is_blank(self.exit_machine_id.as_str()) {
            return Err(PolicyError::MissingField("exit_machine_id"));
        }
        if str_eq(self.source_machine_id.as_str(), self.exit_machine_id.as_str()) {
            return Err(PolicyError::SourceEqualsExit);
        }
        if self.managed_cidrs.len() == 0 && !self.include_device_traffic {
            return Err(PolicyError::NoManagedTraffic);
        }
        let mut i: usize = 0;
        while i < self.managed_cidrs.len()
            invariant
                0 <= i <= self.managed_cidrs@.len(),
                forall|j: int| 0 <= j < i ==> !blank(#[trigger] self.managed_cidrs@[j]@),
            decreases self.managed_cidrs.len() - i,
        {
            if is_blank(self.managed_cidrs[i].as_str()) {
                assert(is_first_blank(self.managed_cidrs@, i as int));
                assert forall|k: int| is_first_blank(self.managed_cidrs@, k) implies k == i by {
                    if k < i {
                        assert(!blank(self.managed_cidrs@[k]@));
                    } else if k > i {
                        assert(!blank(self.managed_cidrs@[i as int]@));
                    }
                }
                return Err(PolicyError::InvalidManagedCidr(self.managed_cidrs[i].clone()));
            }
            i += 1;
        }
        assert(!has_blank(self.managed_cidrs@));
        if is_blank(self.easytier_iface.as_str()) {
            return Err(PolicyError::MissingField("easytier_iface"));
        }
        match self.role {
            DevicePolicyRole::ClientGatewayViaPeer => {
                require_ip(&self.exit_peer_ipv4, "exit_peer_ipv4")?;
            },
            DevicePolicyRole::ProvideExitForGateway => {
                require_ip(&self.source_peer_ipv4, "source_peer_ipv4")?;
            },
        }
        if self.exit_egress.mode == ExitEgressMode::Interface && optional_blank(
            &self.exit_egress.iface,
        ) {
            return Err(PolicyError::MissingField("exit_egress.iface"));
        }
        Ok(())
    }
}

impl DevicePolicyRole {
    /// The role's name on the wire (what `Display` writes).
    pub open spec fn spec_name(self) -> Seq<char> {
        match self {
            DevicePolicyRole::ClientGatewayViaPeer => "client_gateway_via_peer"@,
            DevicePolicyRole::ProvideExitForGateway => "provide_exit_for_gateway"@,
        }
    }

    pub fn name(&self) -> (r: String)
        ensures
            r@ == self.spec_name(),
    {
        match self {
            DevicePolicyRole::ClientGatewayViaPeer => owned("client_gateway_via_peer"),
            DevicePolicyRole::ProvideExitForGateway => owned("provide_exit_for_gateway"),
        }
    }
}

impl PolicyStatus {
    /// The status's name on the wire.
    pub open spec fn spec_name(self) -> Seq<char> {
        match self {
            PolicyStatus::Pending => "pending"@,
            PolicyStatus::Validating => "validating"@,
            PolicyStatus::Planned => "planned"@,
            PolicyStatus::Prepared => "prepared"@,
            PolicyStatus::Applying => "applying"@,
            PolicyStatus::VerifyingControlPlane => "verifying_control_plane"@,
            PolicyStatus::VerifyingExit => "verifying_exit"@,
            PolicyStatus::Active => "active"@,
            PolicyStatus::Degraded => "degraded"@,
            PolicyStatus::Rollbacking => "rollbacking"@,
            PolicyStatus::Rollbacked => "rollbacked"@,
            PolicyStatus::Disabled => "disabled"@,
        }
    }

    pub fn name(&self) -> (r: String)
        ensures
            r@ == self.spec_name(),
    {
        match self {
            PolicyStatus::Pending => owned("pending"),
            PolicyStatus::Validating => owned("validating"),
            PolicyStatus::Planned => owned("planned"),
            PolicyStatus::Prepared => owned("prepared"),
            PolicyStatus::Applying => owned("applying"),
            PolicyStatus::VerifyingControlPlane => owned("verifying_control_plane"),
            PolicyStatus::VerifyingExit => owned("verifying_exit"),
            PolicyStatus::Active => owned("active"),
            PolicyStatus::Degraded => owned("degraded"),
            PolicyStatus::Rollbacking => owned("rollbacking"),
            PolicyStatus::Rollbacked => owned("rollbacked"),
            PolicyStatus::Disabled => owned("disabled"),
        }
    }
}

impl PolicyError {
    /// The message an error reads as.
    pub open spec fn spec_message(self) -> Seq<char> {
        match self {
            PolicyError::MissingField(field) => "missing field: "@ + field@,
            PolicyError::SourceEqualsExit => "source and exit machine must be different"@,
            PolicyError::NoManagedTraffic => "policy does not define any managed traffic"@,
            PolicyError::InvalidManagedCidr(cidr) => "invalid managed CIDR: "@ + cidr@,
        }
    }

    pub fn message(&self) -> (r: String)
        ensures
            r@ == self.spec_message(),
    {
        match self {
            PolicyError::MissingField(field) => concat2("missing field: ", field),
            PolicyError::SourceEqualsExit => owned("source and exit machine must be different"),
            PolicyError::NoManagedTraffic => owned("policy does not define any managed traffic"),
            PolicyError::InvalidManagedCidr(cidr) => concat2("invalid managed CIDR: ", cidr.as_str()),
        }
    }
}

/// Two policies that are the same field by field (lists and texts by their contents).
pub open spec fn same_policy(a: DevicePolicy, b: DevicePolicy) -> bool {
    &&& a.policy_id@ == b.policy_id@
    &&& a.device_policy_id@ == b.device_policy_id@
    &&& a.enabled == b.enabled
    &&& a.version == b.version
    &&& a.role == b.role
    &&& a.network_instance_id == b.network_instance_id
    &&& a.source_machine_id@ == b.source_machine_id@
    &&& a.managed_cidrs@ == b.managed_cidrs@
    &&& a.ingress_ifaces@ == b.ingress_ifaces@
    &&& a.include_device_traffic == b.include_device_traffic
    &&& a.exit_machine_id@ == b.exit_machine_id@
    &&& a.exit_peer_ipv4 == b.exit_peer_ipv4
    &&& a.source_peer_ipv4 == b.source_peer_ipv4
    &&& a.easytier_iface@ == b.easytier_iface@
    &&& a.exit_egress == b.exit_egress
    &&& a.protect_control_plane == b.protect_control_plane
    &&& a.rollback_enabled == b.rollback_enabled
}

/// Two lists of the same policies in the same order.
pub open spec fn same_policies(a: Seq<DevicePolicy>, b: Seq<DevicePolicy>) -> bool {
    a.len() == b.len() && forall|i: int| 0 <= i < a.len() ==> same_policy(#[trigger] a[i], b[i])
}

impl ExitEgress {
    pub fn copy(&self) -> (r: ExitEgress)
        ensures
            r == *self,
    {
        ExitEgress { mode: self.mode, iface: crate::command::clone_opt_string(&self.iface) }
    }
}

impl DevicePolicy {
    /// A copy of the policy.
    pub fn copy(&self) -> (r: DevicePolicy)
        ensures
            same_policy(r, *self),
    {
        DevicePolicy {
            policy_id: self.policy_id.clone(),
            device_policy_id: self.device_policy_id.clone(),
            enabled: self.enabled,
            version: self.version,
            role: self.role,
            network_instance_id: self.network_instance_id,
            source_machine_id: self.source_machine_id.clone(),
            managed_cidrs: crate::command::clone_strings(&self.managed_cidrs),
            ingress_ifaces: crate::command::clone_strings(&self.ingress_ifaces),
            include_device_traffic: self.include_device_traffic,
            exit_machine_id: self.exit_machine_id.clone(),
            exit_peer_ipv4: crate::command::clone_opt_string(&self.exit_peer_ipv4),
            source_peer_ipv4: crate::command::clone_opt_string(&self.source_peer_ipv4),
            easytier_iface: self.easytier_iface.clone(),
            exit_egress: self.exit_egress.copy(),
            protect_control_plane: self.protect_control_plane,
            rollback_enabled: self.rollback_enabled,
        }
    }
}

impl Default for ExitEgress {
    fn default() -> (r: ExitEgress)
        ensures
            r.mode == ExitEgressMode::Auto,
            r.iface is None,
    {
        ExitEgress::default_egress()
    }
}

impl DevicePolicyRole {
    /// The role's name on the wire, borrowed.
    pub fn as_str(self) -> (r: &'static str)
        ensures
            r@ == self.spec_name(),
    {
        match self {
            DevicePolicyRole::ClientGatewayViaPeer => "client_gateway_via_peer",
            DevicePolicyRole::ProvideExitForGateway => "provide_exit_for_gateway",
        }
    }
}

/// A full-tunnel gateway policy as the agent receives it.
#[derive(Debug, Clone, PartialEq, Eq)]
pub struct GatewayFullTunnelPolicy {
    pub policy_id: String,
    pub policy_type: String,
    pub enabled: bool,
    /// The network instance, as the 128-bit value of its UUID.
    pub network_instance_id: u128,
    pub source_machine_id: String,
    pub managed_cidrs: Vec<String>,
    pub ingress_ifaces: Vec<String>,
    pub include_device_traffic: bool,
    pub exit_machine_id: String,
    pub exit_egress: ExitEgress,
    pub desired_version: u64,
    pub protect_control_plane: bool,
}

} // verus!
