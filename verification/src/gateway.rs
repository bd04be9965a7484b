use vstd::prelude::*;

use crate::text::{is_blank, owned, trim, trimmed};

verus! {

/// The role of a node in a gateway policy that the control plane pushes over RPC.
#[derive(Debug, Clone, Copy, PartialEq, Eq, Structural)]
pub enum GatewayRole {
    Source,
    Exit,
}

/// The states of a node's gateway policy.
#[derive(Debug, Clone, Copy, PartialEq, Eq, Structural)]
pub enum GatewayState {
    Idle,
    Applied,
    Degraded,
    DegradedGuarded,
}

/// A gateway policy as the RPC carries it; `role` is the wire code of a `GatewayRole`.
#[derive(Debug, Clone, PartialEq, Eq, Default)]
pub struct GatewayPolicy {
    pub policy_id: String,
    pub enabled: bool,
    pub role: i32,
    pub source_machine_id: String,
    pub exit_machine_id: String,
    pub managed_cidrs: Vec<String>,
    pub ingress_iface: String,
    pub exit_peer_tun_ip: String,
    pub exit_wan_iface: String,
    pub easytier_iface: String,
}

/// What a node reports of its gateway policy; `state` is the wire code of a `GatewayState`.
#[derive(Debug, Clone, PartialEq, Eq, Default)]
pub struct GatewayPolicyStatus {
    pub policy_id: String,
    pub state: i32,
    pub message: String,
}

impl GatewayRole {
    /// The role a wire code names, if any.
    pub open spec fn spec_from_code(code: i32) -> Option<GatewayRole> {
        if code == 0 {
            Some(GatewayRole::Source)
        } else if code == 1 {
            Some(GatewayRole::Exit)
        } else {
            None
        }
    }

    pub fn from_code(code: i32) -> (r: Option<GatewayRole>)
        ensures
            r == GatewayRole::spec_from_code(code),
    {
        if code == 0 {
            Some(GatewayRole::Source)
        } else if code == 1 {
            Some(GatewayRole::Exit)
        } else {
            None
        }
    }

    pub open spec fn spec_code(self) -> i32 {
        match self {
            GatewayRole::Source => 0,
            GatewayRole::Exit => 1,
        }
    }

    pub fn code(self) -> (r: i32)
        ensures
            r == self.spec_code(),
    {
        match self {
            GatewayRole::Source => 0,
            GatewayRole::Exit => 1,
        }
    }
}

impl GatewayState {
    pub open spec fn spec_code(self) -> i32 {
        match self {
            GatewayState::Idle => 0,
            GatewayState::Applied => 1,
            GatewayState::Degraded => 2,
            GatewayState::DegradedGuarded => 3,
        }
    }

    pub fn code(self) -> (r: i32)
        ensures
            r == self.spec_code(),
    {
        match self {
            GatewayState::Idle => 0,
            GatewayState::Applied => 1,
            GatewayState::Degraded => 2,
            GatewayState::DegradedGuarded => 3,
        }
    }

    pub open spec fn spec_from_code(code: i32) -> Option<GatewayState> {
        if code == 0 {
            Some(GatewayState::Idle)
        } else if code == 1 {
            Some(GatewayState::Applied)
        } else if code == 2 {
            Some(GatewayState::Degraded)
        } else if code == 3 {
            Some(GatewayState::DegradedGuarded)
        } else {
            None
        }
    }

    pub fn from_code(code: i32) -> (r: Option<GatewayState>)
        ensures
            r == GatewayState::spec_from_code(code),
    {
        if code == 0 {
            Some(GatewayState::Idle)
        } else if code == 1 {
            Some(GatewayState::Applied)
        } else if code == 2 {
            Some(GatewayState::Degraded)
        } else if code == 3 {
            Some(GatewayState::DegradedGuarded)
        } else {
            None
        }
    }
}

impl GatewayPolicyStatus {
    /// The reported state; an unknown code reads as `Idle`.
    pub fn state(&self) -> (r: GatewayState)
        ensures
            r == (match GatewayState::spec_from_code(self.state) {
                Some(s) => s,
                None => GatewayState::Idle,
            }),
    {
        match GatewayState::from_code(self.state) {
            Some(s) => s,
            None => GatewayState::Idle,
        }
    }
}

/// The EasyTier interface that a gateway policy uses: its `easytier_iface` trimmed, or `tun0`.
pub open spec fn effective_iface(configured: Seq<char>) -> Seq<char> {
    if trim(configured).len() == 0 {
        "tun0"@
    } else {
        trim(configured)
    }
}

pub fn easytier_iface(policy: &GatewayPolicy) -> (r: String)
    ensures
        r@ == effective_iface(policy.easytier_iface@),
{
    if is_blank(policy.easytier_iface.as_str()) {
        owned("tun0")
    } else {
        trimmed(policy.easytier_iface.as_str())
    }
}

// ---------------------------------------------------------------------------
// The state machine
// ---------------------------------------------------------------------------
/// A node's gateway policy state, and the policy it holds while one is in force.
pub struct StateMachine {
    state: GatewayState,
    current_policy: Option<GatewayPolicy>,
}

/// The message a status carries for each state.
pub open spec fn state_message(s: GatewayState) -> Seq<char> {
    match s {
        GatewayState::Idle => "空闲"@,
        GatewayState::Applied => "策略已应用"@,
        GatewayState::Degraded => "隧道异常，策略已回滚"@,
        GatewayState::DegradedGuarded => "隧道异常，已阻断受管流量防止泄漏"@,
    }
}

/// The policy id a status reports: the held policy's, or empty.
pub open spec fn held_policy_id(p: Option<GatewayPolicy>) -> Seq<char> {
    match p {
        Some(policy) => policy.policy_id@,
        None => Seq::empty(),
    }
}

impl StateMachine {
    pub closed spec fn spec_state(&self) -> GatewayState {
        self.state
    }

    pub closed spec fn spec_policy(&self) -> Option<GatewayPolicy> {
        self.current_policy
    }

    /// Idle holds no policy, and Applied holds one.
    pub open spec fn wf(&self) -> bool {
        &&& self.spec_state() == GatewayState::Idle ==> self.spec_policy() is None
        &&& self.spec_state() == GatewayState::Applied ==> self.spec_policy() is Some
    }

    /// A machine in `Idle`, holding no policy.
    pub fn new() -> (r: StateMachine)
        ensures
            r.spec_state() == GatewayState::Idle,
            r.spec_policy() is None,
            r.wf(),
    {
        StateMachine { state: GatewayState::Idle, current_policy: None }
    }

    pub fn state(&self) -> (r: GatewayState)
        ensures
            r == self.spec_state(),
    {
        self.state
    }

    /// The policy in force, if any.
    pub fn current_policy(&self) -> (r: Option<&GatewayPolicy>)
        ensures
            match r {
                Some(p) => self.spec_policy() == Some(*p),
                None => self.spec_policy() is None,
            },
    {
        match &self.current_policy {
            Some(p) => Some(p),
            None => None,
        }
    }

    /// The policy was applied: `Applied`, holding it.
    pub fn transition_to_applied(&mut self, policy: GatewayPolicy)
        ensures
            final(self).spec_state() == GatewayState::Applied,
            final(self).spec_policy() == Some(policy),
            final(self).wf(),
    {
        self.state = GatewayState::Applied;
        self.current_policy = Some(policy);
    }

    /// The policy was removed: `Idle`, holding none.
    pub fn transition_to_idle(&mut self)
        ensures
            final(self).spec_state() == GatewayState::Idle,
            final(self).spec_policy() is None,
            final(self).wf(),
    {
        self.state = GatewayState::Idle;
        self.current_policy = None;
    }

    /// The tunnel failed and the policy was rolled back (a passing state).
    pub fn transition_to_degraded(&mut self)
        ensures
            final(self).spec_state() == GatewayState::Degraded,
            final(self).spec_policy() == old(self).spec_policy(),
            final(self).wf(),
    {
        self.state = GatewayState::Degraded;
    }

    /// The tunnel failed and managed traffic is blocked; the policy stays for the recovery.
    pub fn transition_to_degraded_guarded(&mut self)
        ensures
            final(self).spec_state() == GatewayState::DegradedGuarded,
            final(self).spec_policy() == old(self).spec_policy(),
            final(self).wf(),
    {
        self.state = GatewayState::DegradedGuarded;
    }

    /// The status a node reports: the held policy's id (or empty), the state and its message.
    pub fn status(&self) -> (r: GatewayPolicyStatus)
        ensures
            r.policy_id@ == held_policy_id(self.spec_policy()),
            r.state == self.spec_state().spec_code(),
            r.message@ == state_message(self.spec_state()),
    {
        let policy_id = match &self.current_policy {
            Some(p) => p.policy_id.clone(),
            None => String::new(),
        };
        let message = match self.state {
            GatewayState::Idle => owned("空闲"),
            GatewayState::Applied => owned("策略已应用"),
            GatewayState::Degraded => owned("隧道异常，策略已回滚"),
            GatewayState::DegradedGuarded => owned("隧道异常，已阻断受管流量防止泄漏"),
        };
        GatewayPolicyStatus { policy_id, state: self.state.code(), message }
    }
}

// ---------------------------------------------------------------------------
// Reconciling with the tunnel's health
// ---------------------------------------------------------------------------
/// The role a policy's code names; the monitor reads an unknown code as `Source`.
pub open spec fn role_or_source(code: i32) -> GatewayRole {
    match GatewayRole::spec_from_code(code) {
        Some(r) => r,
        None => GatewayRole::Source,
    }
}

pub fn role_or_source_of(code: i32) -> (r: GatewayRole)
    ensures
        r == role_or_source(code),
{
    match GatewayRole::from_code(code) {
        Some(r) => r,
        None => GatewayRole::Source,
    }
}

/// Whether a policy's tunnel is healthy, given whether its interface exists and whether its
/// exit peer answered: an exit needs only the interface, a source also a reachable peer.
pub open spec fn tunnel_health(p: GatewayPolicy, tun_exists: bool, peer_reachable: bool) -> bool {
    tun_exists && (role_or_source(p.role) == GatewayRole::Exit || (p.exit_peer_tun_ip@.len() > 0
        && peer_reachable))
}

/// Judges a policy's tunnel from what was observed of it.
pub struct Monitor;

impl Monitor {
    pub fn new() -> (r: Monitor) {
        Monitor
    }

    /// The exit peer address that a check of this policy pings, if it pings one.
    pub fn peer_to_probe(&self, policy: &GatewayPolicy) -> (r: Option<String>)
        ensures
            r == (if role_or_source(policy.role) == GatewayRole::Source
                && policy.exit_peer_tun_ip@.len() > 0 {
                Some(policy.exit_peer_tun_ip)
            } else {
                None
            }),
    {
        if role_or_source_of(policy.role) == GatewayRole::Source
            && !policy.exit_peer_tun_ip.as_str().is_empty() {
            Some(policy.exit_peer_tun_ip.clone())
        } else {
            None
        }
    }

    /// The verdict on a policy's tunnel.
    pub fn tunnel_verdict(&self, policy: &GatewayPolicy, tun_exists: bool, peer_reachable: bool) -> (r:
        bool)
        ensures
            r == tunnel_health(*policy, tun_exists, peer_reachable),
    {
        if !tun_exists {
            return false;
        }
        if role_or_source_of(policy.role) == GatewayRole::Exit {
            return true;
        }
        if policy.exit_peer_tun_ip.as_str().is_empty() {
            return false;
        }
        peer_reachable
    }
}

/// What a reconcile round does once the tunnel has been checked.
#[derive(Debug, Clone, Copy, PartialEq, Eq, Structural)]
pub enum ReconcileAction {
    /// Nothing to do.
    Keep,
    /// The tunnel is back: apply the held policy again.
    Reapply,
    /// A source's tunnel failed: install the fail-closed guard and drop the policy rules.
    GuardSource,
    /// An exit's tunnel failed: remove all rules.
    RollbackExit,
}

/// Whether a state is one whose tunnel a reconcile round checks.
pub open spec fn watched(s: GatewayState) -> bool {
    s == GatewayState::Applied || s == GatewayState::DegradedGuarded
}

/// What a round does in the given state, holding the given policy, with the given verdict.
pub open spec fn reconcile_decision(s: GatewayState, p: Option<GatewayPolicy>, tunnel_ok: bool) -> ReconcileAction {
    match p {
        None => ReconcileAction::Keep,
        Some(policy) => if !watched(s) {
            ReconcileAction::Keep
        } else if tunnel_ok && s == GatewayState::DegradedGuarded {
            ReconcileAction::Reapply
        } else if !tunnel_ok && s == GatewayState::Applied {
            if role_or_source(policy.role) == GatewayRole::Source {
                ReconcileAction::GuardSource
            } else {
                ReconcileAction::RollbackExit
            }
        } else {
            ReconcileAction::Keep
        },
    }
}

impl StateMachine {
    /// The policy whose tunnel a reconcile round checks: the held one, while the state is
    /// `Applied` or `DegradedGuarded`.
    pub fn policy_to_check(&self) -> (r: Option<&GatewayPolicy>)
        ensures
            match r {
                Some(p) => watched(self.spec_state()) && self.spec_policy() == Some(*p),
                None => !watched(self.spec_state()) || self.spec_policy() is None,
            },
    {
        if self.state == GatewayState::Applied || self.state == GatewayState::DegradedGuarded {
            self.current_policy()
        } else {
            None
        }
    }

    /// What a reconcile round does, given the tunnel verdict.
    pub fn reconcile_action(&self, tunnel_ok: bool) -> (r: ReconcileAction)
        ensures
            r == reconcile_decision(self.spec_state(), self.spec_policy(), tunnel_ok),
    {
        match &self.current_policy {
            None => ReconcileAction::Keep,
            Some(policy) => {
                let s = self.state;
                if !(s == GatewayState::Applied || s == GatewayState::DegradedGuarded) {
                    ReconcileAction::Keep
                } else if tunnel_ok && s == GatewayState::DegradedGuarded {
                    ReconcileAction::Reapply
                } else if !tunnel_ok && s == GatewayState::Applied {
                    if role_or_source_of(policy.role) == GatewayRole::Source {
                        ReconcileAction::GuardSource
                    } else {
                        ReconcileAction::RollbackExit
                    }
                } else {
                    ReconcileAction::Keep
                }
            },
        }
    }

    /// The state change that ends a reconcile round, given whether its outside work succeeded:
    /// a reapplied policy is `Applied` again; a guarded source is `DegradedGuarded`, or
    /// `Degraded` when the guard failed; a rolled-back exit ends `Idle`.
    pub fn finish_reconcile(&mut self, action: ReconcileAction, succeeded: bool)
        ensures
            match action {
                ReconcileAction::Keep => *final(self) == *old(self),
                ReconcileAction::Reapply => if succeeded && old(self).spec_policy() is Some {
                    final(self).spec_state() == GatewayState::Applied && final(self).spec_policy()
                        == old(self).spec_policy()
                } else {
                    *final(self) == *old(self)
                },
                ReconcileAction::GuardSource => final(self).spec_state() == (if succeeded {
                    GatewayState::DegradedGuarded
                } else {
                    GatewayState::Degraded
                }) && final(self).spec_policy() == old(self).spec_policy(),
                ReconcileAction::RollbackExit => final(self).spec_state() == GatewayState::Idle
                    && final(self).spec_policy() is None,
            },
            old(self).wf() ==> final(self).wf(),
    {
        match action {
            ReconcileAction::Keep => {},
            ReconcileAction::Reapply => {
                if succeeded && self.current_policy.is_some() {
                    self.state = GatewayState::Applied;
                }
            },
            ReconcileAction::GuardSource => {
                if succeeded {
                    self.transition_to_degraded_guarded();
                } else {
                    self.transition_to_degraded();
                }
            },
            ReconcileAction::RollbackExit => {
                self.transition_to_degraded();
                self.transition_to_idle();
            },
        }
    }

    /// The state change after an attempt to apply a policy, and the status the caller answers
    /// when it succeeded: `Applied` holding the policy, or `Idle` when it failed.
    pub fn finish_apply(&mut self, policy: GatewayPolicy, applied: bool) -> (r: Option<
        GatewayPolicyStatus,
    >)
        ensures
            applied ==> final(self).spec_state() == GatewayState::Applied
                && final(self).spec_policy() == Some(policy),
            applied ==> (r matches Some(st) && st.policy_id@ == policy.policy_id@ && st.state
                == GatewayState::Applied.spec_code() && st.message@ == state_message(
                GatewayState::Applied,
            )),
            !applied ==> final(self).spec_state() == GatewayState::Idle && final(self).spec_policy() is None
                && r is None,
            final(self).wf(),
    {
        if applied {
            let policy_id = policy.policy_id.clone();
            self.transition_to_applied(policy);
            Some(
                GatewayPolicyStatus {
                    policy_id,
                    state: GatewayState::Applied.code(),
                    message: owned("策略已应用"),
                },
            )
        } else {
            self.transition_to_idle();
            None
        }
    }
}

/// The status answered for a request that disabled a policy: `Idle`, with that policy's id.
pub fn removed_policy_status(policy_id: String) -> (r: GatewayPolicyStatus)
    ensures
        r.policy_id == policy_id,
        r.state == GatewayState::Idle.spec_code(),
        r.message@ == "策略已移除"@,
{
    GatewayPolicyStatus { policy_id, state: GatewayState::Idle.code(), message: owned("策略已移除") }
}

} // verus!
