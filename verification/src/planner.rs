//! The dry-run plan: what applying a device policy will do, in words.
use vstd::prelude::*;

use crate::linux::text_or_empty;
use crate::policy::{validation, DevicePolicy, DevicePolicyRole, PolicyError};
use crate::text::{concat2, join, join_strings, owned, push_str, views};

verus! {

/// One step of a plan, described.
#[derive(Debug, Clone, PartialEq, Eq)]
pub struct PlanAction {
    pub kind: PlanActionKind,
    pub description: String,
}

/// The kinds of plan steps.
#[derive(Debug, Clone, Copy, PartialEq, Eq, Structural)]
pub enum PlanActionKind {
    ProtectControlPlane,
    RouteManagedTraffic,
    PrepareForwarding,
    PrepareNat,
    Verify,
}

impl PlanActionKind {
    pub open spec fn spec_name(self) -> Seq<char> {
        match self {
            PlanActionKind::ProtectControlPlane => "protect_control_plane"@,
            PlanActionKind::RouteManagedTraffic => "route_managed_traffic"@,
            PlanActionKind::PrepareForwarding => "prepare_forwarding"@,
            PlanActionKind::PrepareNat => "prepare_nat"@,
            PlanActionKind::Verify => "verify"@,
        }
    }

    /// The kind's name, as the plan prints it.
    pub fn name(&self) -> (r: String)
        ensures
            r@ == self.spec_name(),
    {
        match self {
            PlanActionKind::ProtectControlPlane => owned("protect_control_plane"),
            PlanActionKind::RouteManagedTraffic => owned("route_managed_traffic"),
            PlanActionKind::PrepareForwarding => owned("prepare_forwarding"),
            PlanActionKind::PrepareNat => owned("prepare_nat"),
            PlanActionKind::Verify => owned("verify"),
        }
    }
}

/// Why no plan could be made.
#[derive(Debug, Clone, PartialEq, Eq)]
pub enum PlanError {
    Policy(PolicyError),
}

impl PlanError {
    pub fn message(&self) -> (r: String)
        ensures
            match self {
                PlanError::Policy(e) => r@ == e.spec_message(),
            },
    {
        match self {
            PlanError::Policy(e) => e.message(),
        }
    }
}

/// A step, as its kind and text.
pub open spec fn action_views(v: Seq<PlanAction>) -> Seq<(PlanActionKind, Seq<char>)> {
    v.map_values(|a: PlanAction| (a.kind, a.description@))
}

/// The managed traffic of a policy, in words: its CIDRs, ingress interfaces and whether the
/// device's own traffic is included, each only when there is one.
pub open spec fn traffic_description(p: DevicePolicy) -> Seq<char> {
    let cidrs = p.managed_cidrs@;
    let ifaces = p.ingress_ifaces@;
    let parts = (if cidrs.len() > 0 {
        seq!["managed_cidrs="@ + join(views(cidrs), ","@)]
    } else {
        Seq::empty()
    }) + (if ifaces.len() > 0 {
        seq!["ingress_ifaces="@ + join(views(ifaces), ","@)]
    } else {
        Seq::empty()
    }) + (if p.include_device_traffic {
        seq!["include_device_traffic=true"@]
    } else {
        Seq::empty()
    });
    join(parts, " "@)
}

pub open spec fn source_actions(p: DevicePolicy) -> Seq<(PlanActionKind, Seq<char>)> {
    seq![
        (
            PlanActionKind::ProtectControlPlane,
            "ensure Web/config-server/relay/SSH underlay routes stay outside the tunnel"@,
        ),
        (
            PlanActionKind::RouteManagedTraffic,
            "route "@ + traffic_description(p) + " to "@ + text_or_empty(p.exit_peer_ipv4)
                + " via EasyTier"@,
        ),
        (PlanActionKind::Verify, "verify control-plane reachability and managed traffic exit health"@),
    ]
}

pub open spec fn exit_actions(p: DevicePolicy) -> Seq<(PlanActionKind, Seq<char>)> {
    seq![
        (
            PlanActionKind::PrepareForwarding,
            "allow "@ + traffic_description(p) + " from source peer "@ + text_or_empty(
                p.source_peer_ipv4,
            ) + " to exit egress"@,
        ),
        (PlanActionKind::PrepareNat, "ensure managed traffic is masqueraded on exit egress"@),
        (
            PlanActionKind::Verify,
            "verify forwarding and NAT are prepared without affecting other sources"@,
        ),
    ]
}

/// The plan for a valid policy, by its role.
pub open spec fn plan_actions(p: DevicePolicy) -> Seq<(PlanActionKind, Seq<char>)> {
    match p.role {
        DevicePolicyRole::ClientGatewayViaPeer => source_actions(p),
        DevicePolicyRole::ProvideExitForGateway => exit_actions(p),
    }
}

fn text_or_empty_string(v: &Option<String>) -> (r: String)
    ensures
        r@ == text_or_empty(*v),
{
    match v {
        Some(s) => s.clone(),
        None => String::new(),
    }
}

pub fn describe_managed_traffic(policy: &DevicePolicy) -> (r: String)
    ensures
        r@ == traffic_description(*policy),
{
    let mut parts: Vec<String> = Vec::new();
    let ghost mut expected: Seq<Seq<char>> = Seq::empty();
    if policy.managed_cidrs.len() > 0 {
        let joined = join_strings(&policy.managed_cidrs, ",");
        let part = concat2("managed_cidrs=", joined.as_str());
        parts.push(part);
        proof {
            expected = expected.push(part@);
        }
    }
    if policy.ingress_ifaces.len() > 0 {
        let joined = join_strings(&policy.ingress_ifaces, ",");
        let part = concat2("ingress_ifaces=", joined.as_str());
        parts.push(part);
        proof {
            expected = expected.push(part@);
        }
    }
    if policy.include_device_traffic {
        let part = owned("include_device_traffic=true");
        parts.push(part);
        proof {
            expected = expected.push(part@);
        }
    }
    assert(views(parts@) =~= expected);
    let ghost cidrs = policy.managed_cidrs@;
    let ghost ifaces = policy.ingress_ifaces@;
    assert(expected =~= (if cidrs.len() > 0 {
        seq!["managed_cidrs="@ + join(views(cidrs), ","@)]
    } else {
        Seq::empty()
    }) + (if ifaces.len() > 0 {
        seq!["ingress_ifaces="@ + join(views(ifaces), ","@)]
    } else {
        Seq::empty()
    }) + (if policy.include_device_traffic {
        seq!["include_device_traffic=true"@]
    } else {
        Seq::empty()
    }));
    join_strings(&parts, " ")
}

fn action(kind: PlanActionKind, description: String) -> (r: PlanAction)
    ensures
        r.kind == kind,
        r.description == description,
{
    PlanAction { kind, description }
}

fn source_plan(policy: &DevicePolicy) -> (r: Vec<PlanAction>)
    ensures
        action_views(r@) == source_actions(*policy),
{
    let traffic = describe_managed_traffic(policy);
    let exit_peer = text_or_empty_string(&policy.exit_peer_ipv4);
    let mut route = concat2("route ", traffic.as_str());
    push_str(&mut route, " to ");
    push_str(&mut route, exit_peer.as_str());
    push_str(&mut route, " via EasyTier");
    let mut r: Vec<PlanAction> = Vec::new();
    r.push(
        action(
            PlanActionKind::ProtectControlPlane,
            owned("ensure Web/config-server/relay/SSH underlay routes stay outside the tunnel"),
        ),
    );
    r.push(action(PlanActionKind::RouteManagedTraffic, route));
    r.push(
        action(
            PlanActionKind::Verify,
            owned("verify control-plane reachability and managed traffic exit health"),
        ),
    );
    assert(action_views(r@) =~= source_actions(*policy));
    r
}

fn exit_plan(policy: &DevicePolicy) -> (r: Vec<PlanAction>)
    ensures
        action_views(r@) == exit_actions(*policy),
{
    let traffic = describe_managed_traffic(policy);
    let source_peer = text_or_empty_string(&policy.source_peer_ipv4);
    let mut allow = concat2("allow ", traffic.as_str());
    push_str(&mut allow, " from source peer ");
    push_str(&mut allow, source_peer.as_str());
    push_str(&mut allow, " to exit egress");
    let mut r: Vec<PlanAction> = Vec::new();
    r.push(action(PlanActionKind::PrepareForwarding, allow));
    r.push(
        action(
            PlanActionKind::PrepareNat,
            owned("ensure managed traffic is masqueraded on exit egress"),
        ),
    );
    r.push(
        action(
            PlanActionKind::Verify,
            owned("verify forwarding and NAT are prepared without affecting other sources"),
        ),
    );
    assert(action_views(r@) =~= exit_actions(*policy));
    r
}

/// The steps applying a policy will take, once the policy is valid.
pub fn dry_run_plan(policy: &DevicePolicy) -> (r: Result<Vec<PlanAction>, PlanError>)
    ensures
        match r {
            Ok(v) => validation(*policy) is Ok && action_views(v@) == plan_actions(*policy),
            Err(PlanError::Policy(e)) => validation(*policy) == Err::<(), PolicyError>(e),
        },
{
    match policy.validate() {
        Ok(()) => {},
        Err(e) => {
            return Err(PlanError::Policy(e));
        },
    }
    Ok(
        match policy.role {
            DevicePolicyRole::ClientGatewayViaPeer => source_plan(policy),
            DevicePolicyRole::ProvideExitForGateway => exit_plan(policy),
        },
    )
}

} // verus!
