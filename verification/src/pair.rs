//! Setting up a gateway on a source and an exit machine together: the two node policies a pair
//! request stands for, and the order of the steps, with what is undone when one of them fails.
use vstd::prelude::*;

use crate::command::clone_strings;
use crate::gateway::{GatewayPolicy, GatewayRole};
use crate::outside::{uuid_hyphenated, uuid_text};
use crate::text::{owned, views};

verus! {

/// A request for a gateway between a source and an exit machine.
#[derive(Debug, Clone, PartialEq, Eq)]
pub struct GatewayPolicyPairRequest {
    pub policy_id: String,
    pub source_machine_id: u128,
    pub exit_machine_id: u128,
    pub managed_cidrs: Vec<String>,
    pub ingress_iface: String,
    pub exit_peer_tun_ip: String,
    pub exit_wan_iface: String,
    pub easytier_iface: String,
}

/// A node policy, with its texts as character sequences.
pub struct NodePolicyView {
    pub policy_id: Seq<char>,
    pub enabled: bool,
    pub role: i32,
    pub source_machine_id: Seq<char>,
    pub exit_machine_id: Seq<char>,
    pub managed_cidrs: Seq<Seq<char>>,
    pub ingress_iface: Seq<char>,
    pub exit_peer_tun_ip: Seq<char>,
    pub exit_wan_iface: Seq<char>,
    pub easytier_iface: Seq<char>,
}

pub open spec fn node_policy_view(p: GatewayPolicy) -> NodePolicyView {
    NodePolicyView {
        policy_id: p.policy_id@,
        enabled: p.enabled,
        role: p.role,
        source_machine_id: p.source_machine_id@,
        exit_machine_id: p.exit_machine_id@,
        managed_cidrs: views(p.managed_cidrs@),
        ingress_iface: p.ingress_iface@,
        exit_peer_tun_ip: p.exit_peer_tun_ip@,
        exit_wan_iface: p.exit_wan_iface@,
        easytier_iface: p.easytier_iface@,
    }
}

/// The exit machine's policy for a pair: enabled, with the exit's WAN interface.
pub open spec fn pair_exit_view(req: GatewayPolicyPairRequest) -> NodePolicyView {
    NodePolicyView {
        policy_id: req.policy_id@,
        enabled: true,
        role: GatewayRole::Exit.spec_code(),
        source_machine_id: uuid_hyphenated(req.source_machine_id),
        exit_machine_id: uuid_hyphenated(req.exit_machine_id),
        managed_cidrs: views(req.managed_cidrs@),
        ingress_iface: Seq::empty(),
        exit_peer_tun_ip: Seq::empty(),
        exit_wan_iface: req.exit_wan_iface@,
        easytier_iface: req.easytier_iface@,
    }
}

/// The source machine's policy for a pair: enabled, with the ingress interface and the exit
/// peer's tunnel address.
pub open spec fn pair_source_view(req: GatewayPolicyPairRequest) -> NodePolicyView {
    NodePolicyView {
        policy_id: req.policy_id@,
        enabled: true,
        role: GatewayRole::Source.spec_code(),
        source_machine_id: uuid_hyphenated(req.source_machine_id),
        exit_machine_id: uuid_hyphenated(req.exit_machine_id),
        managed_cidrs: views(req.managed_cidrs@),
        ingress_iface: req.ingress_iface@,
        exit_peer_tun_ip: req.exit_peer_tun_ip@,
        exit_wan_iface: Seq::empty(),
        easytier_iface: req.easytier_iface@,
    }
}

/// The exit machine's policy for a pair request.
pub fn pair_exit_policy(req: &GatewayPolicyPairRequest) -> (r: GatewayPolicy)
    ensures
        node_policy_view(r) == pair_exit_view(*req),
{
    let r = GatewayPolicy {
        policy_id: req.policy_id.clone(),
        enabled: true,
        role: GatewayRole::Exit.code(),
        source_machine_id: uuid_text(req.source_machine_id),
        exit_machine_id: uuid_text(req.exit_machine_id),
        managed_cidrs: clone_strings(&req.managed_cidrs),
        ingress_iface: owned(""),
        exit_peer_tun_ip: owned(""),
        exit_wan_iface: req.exit_wan_iface.clone(),
        easytier_iface: req.easytier_iface.clone(),
    };
    proof {
        reveal_strlit("");
        assert(r.ingress_iface@ =~= Seq::<char>::empty());
        assert(r.exit_peer_tun_ip@ =~= Seq::<char>::empty());
    }
    r
}

/// The source machine's policy for a pair request.
pub fn pair_source_policy(req: &GatewayPolicyPairRequest) -> (r: GatewayPolicy)
    ensures
        node_policy_view(r) == pair_source_view(*req),
{
    let r = GatewayPolicy {
        policy_id: req.policy_id.clone(),
        enabled: true,
        role: GatewayRole::Source.code(),
        source_machine_id: uuid_text(req.source_machine_id),
        exit_machine_id: uuid_text(req.exit_machine_id),
        managed_cidrs: clone_strings(&req.managed_cidrs),
        ingress_iface: req.ingress_iface.clone(),
        exit_peer_tun_ip: req.exit_peer_tun_ip.clone(),
        exit_wan_iface: owned(""),
        easytier_iface: req.easytier_iface.clone(),
    };
    proof {
        reveal_strlit("");
        assert(r.exit_wan_iface@ =~= Seq::<char>::empty());
    }
    r
}

// ---------------------------------------------------------------------------
// The order of the steps
// ---------------------------------------------------------------------------
/// A step of setting up a pair.
#[derive(Debug, Clone, Copy, PartialEq, Eq, Structural)]
pub enum PairStep {
    /// Add the managed CIDRs and the exit peer to the source's own network settings.
    PatchSourceNetwork,
    /// Apply the exit machine's policy.
    ApplyExit,
    /// Apply the source machine's policy.
    ApplySource,
}

/// What undoes a completed step.
#[derive(Debug, Clone, Copy, PartialEq, Eq, Structural)]
pub enum PairUndo {
    /// Take the managed CIDRs and the exit peer back out of the source's network settings.
    UnpatchSourceNetwork,
    /// Remove the exit machine's policy.
    RemoveExitPolicy,
    /// Remove the source machine's policy.
    RemoveSourcePolicy,
}

/// The steps in the order they are taken: the source's network first, then the exit, then the
/// source, so that the source only routes through an exit that is ready.
pub open spec fn pair_steps() -> Seq<PairStep> {
    seq![PairStep::PatchSourceNetwork, PairStep::ApplyExit, PairStep::ApplySource]
}

/// The position of a step in `pair_steps`.
pub open spec fn step_index(s: PairStep) -> int {
    match s {
        PairStep::PatchSourceNetwork => 0,
        PairStep::ApplyExit => 1,
        PairStep::ApplySource => 2,
    }
}

/// What undoes a step, once it completed.
pub open spec fn undo_of(s: PairStep) -> PairUndo {
    match s {
        PairStep::PatchSourceNetwork => PairUndo::UnpatchSourceNetwork,
        PairStep::ApplyExit => PairUndo::RemoveExitPolicy,
        PairStep::ApplySource => PairUndo::RemoveSourcePolicy,
    }
}

/// The first step.
pub fn first_pair_step() -> (r: PairStep)
    ensures
        r == pair_steps()[0],
{
    PairStep::PatchSourceNetwork
}

/// The step after a completed one, if any.
pub fn next_pair_step(done: PairStep) -> (r: Option<PairStep>)
    ensures
        match r {
            Some(n) => step_index(done) + 1 < pair_steps().len() && n == pair_steps()[step_index(done) + 1],
            None => step_index(done) + 1 == pair_steps().len(),
        },
{
    match done {
        PairStep::PatchSourceNetwork => Some(PairStep::ApplyExit),
        PairStep::ApplyExit => Some(PairStep::ApplySource),
        PairStep::ApplySource => None,
    }
}

/// What to undo when a step fails, in order: the steps completed before it, latest first.
pub fn undo_after_failure(failed: PairStep) -> (r: Vec<PairUndo>)
    ensures
        r@ == pair_steps().take(step_index(failed)).reverse().map_values(|s: PairStep| undo_of(s)),
{
    let mut r: Vec<PairUndo> = Vec::new();
    match failed {
        PairStep::PatchSourceNetwork => {},
        PairStep::ApplyExit => {
            r.push(PairUndo::UnpatchSourceNetwork);
        },
        PairStep::ApplySource => {
            r.push(PairUndo::RemoveExitPolicy);
            r.push(PairUndo::UnpatchSourceNetwork);
        },
    }
    proof {
        let done = pair_steps().take(step_index(failed));
        assert(r@ =~= done.reverse().map_values(|s: PairStep| undo_of(s)));
    }
    r
}

/// What removing a pair does, in order: every step undone, latest first. Each is tried even
/// when one before it fails.
pub fn pair_removal() -> (r: Vec<PairUndo>)
    ensures
        r@ == pair_steps().reverse().map_values(|s: PairStep| undo_of(s)),
{
    let mut r: Vec<PairUndo> = Vec::new();
    r.push(PairUndo::RemoveSourcePolicy);
    r.push(PairUndo::RemoveExitPolicy);
    r.push(PairUndo::UnpatchSourceNetwork);
    proof {
        assert(r@ =~= pair_steps().reverse().map_values(|s: PairStep| undo_of(s)));
    }
    r
}

} // verus!
