//! Applying a policy without losing the control plane: check it before, keep the last known
//! good state, check it after, and plan the rollback when it is gone.
use vstd::prelude::*;

use crate::command::{plans, CmdView, CommandPlan};
use crate::control_plane::{
    possible_check, probe_check, protect_fn, ControlPlaneError, ControlPlaneGuard, ControlPlaneProbe,
};
use crate::platform::PlatformBackend;
use crate::policy::{DevicePolicy, PolicyError, PolicyStatus};
use crate::state::{RouteSnapshot, StateStore};
use crate::text::{concat2, join, views};

verus! {

/// What an application came to: the status, the commands applied, and those that undo them.
#[derive(Debug, Clone, PartialEq, Eq)]
pub struct ApplyOutcome {
    pub status: PolicyStatus,
    pub apply_plan: Vec<CommandPlan>,
    pub rollback_plan: Vec<CommandPlan>,
}

/// Why an application did not happen.
#[derive(Debug, Clone, PartialEq, Eq)]
pub enum ApplyError {
    Preflight(ControlPlaneError),
    PostApply(ControlPlaneError),
    Backend(PolicyError),
}

impl ApplyError {
    /// The error's message.
    pub fn message(&self) -> (r: String)
        ensures
            match self {
                ApplyError::Preflight(e) => r@ == "preflight control-plane check failed: "@
                    + e.spec_message(),
                ApplyError::PostApply(e) => r@ == "post-apply control-plane check failed: "@
                    + e.spec_message(),
                ApplyError::Backend(e) => r@ == e.spec_message(),
            },
    {
        match self {
            ApplyError::Preflight(e) => {
                let inner = e.message();
                concat2("preflight control-plane check failed: ", inner.as_str())
            },
            ApplyError::PostApply(e) => {
                let inner = e.message();
                concat2("post-apply control-plane check failed: ", inner.as_str())
            },
            ApplyError::Backend(e) => e.message(),
        }
    }
}

/// A command as the snapshot records it: the program, a space, and the arguments joined by
/// spaces.
pub open spec fn command_text(c: CmdView) -> Seq<char> {
    c.program + seq![' '] + join(c.args, seq![' '])
}

/// The snapshot an application records of its commands.
pub open spec fn snapshot_lines(cmds: Seq<CmdView>) -> Seq<Seq<char>> {
    cmds.map_values(|c: CmdView| command_text(c))
}

fn command_lines(commands: &Vec<CommandPlan>) -> (r: Vec<String>)
    ensures
        views(r@) == snapshot_lines(plans(commands@)),
{
    let mut r: Vec<String> = Vec::new();
    let mut i: usize = 0;
    while i < commands.len()
        invariant
            0 <= i <= commands@.len(),
            views(r@) == snapshot_lines(plans(commands@)).take(i as int),
        decreases commands.len() - i,
    {
        let line = commands[i].command_line();
        let ghost before = r@;
        r.push(line);
        proof {
            crate::text::lemma_views_push(before, line);
            assert(snapshot_lines(plans(commands@)).take(i + 1) =~= snapshot_lines(
                plans(commands@),
            ).take(i as int).push(command_text(commands@[i as int]@)));
        }
        i += 1;
    }
    assert(snapshot_lines(plans(commands@)).take(commands@.len() as int) =~= snapshot_lines(
        plans(commands@),
    ));
    r
}

/// What an application comes to, given the outcomes of the control-plane check before it
/// (`first`) and after it (`second`), the backend's apply and cleanup plans, and the commands
/// that protect the control plane: refused as the first check failed; refused with the apply
/// plan's error; once planned, active when the second check passes, else rolled back with the
/// cleanup plan (refused with its error when there is none).
pub open spec fn guard_outcome_holds(
    r: Result<ApplyOutcome, ApplyError>,
    first: Result<(), ControlPlaneError>,
    second: Result<(), ControlPlaneError>,
    planned: Result<Seq<CmdView>, PolicyError>,
    cleanup: Result<Seq<CmdView>, PolicyError>,
    protect: Seq<CmdView>,
) -> bool {
    match first {
        Err(e) => r == Err::<ApplyOutcome, ApplyError>(ApplyError::Preflight(e)),
        Ok(()) => match planned {
            Err(e) => r == Err::<ApplyOutcome, ApplyError>(ApplyError::Backend(e)),
            Ok(cmds) => match second {
                Ok(()) => r matches Ok(o) && o.status == PolicyStatus::Active && plans(
                    o.apply_plan@,
                ) == protect + cmds && o.rollback_plan@.len() == 0,
                Err(_) => match cleanup {
                    Err(e) => r == Err::<ApplyOutcome, ApplyError>(ApplyError::Backend(e)),
                    Ok(c) => r matches Ok(o) && o.status == PolicyStatus::Rollbacked && plans(
                        o.apply_plan@,
                    ) == protect + cmds && plans(o.rollback_plan@) == c,
                },
            },
        },
    }
}

/// Ends an application once the plan is applied and recorded, given the outcome of the second
/// check: active when it passed, else rolled back with the backend's cleanup plan.
pub fn finish_guarded_apply<B: PlatformBackend>(
    backend: &B,
    policy: &DevicePolicy,
    apply_plan: Vec<CommandPlan>,
    second: Result<(), ControlPlaneError>,
) -> (r: Result<ApplyOutcome, ApplyError>)
    ensures
        match second {
            Ok(()) => r matches Ok(o) && o.status == PolicyStatus::Active && o.apply_plan
                == apply_plan && o.rollback_plan@.len() == 0,
            Err(_) => match backend.spec_plan_cleanup(*policy) {
                Err(e) => r == Err::<ApplyOutcome, ApplyError>(ApplyError::Backend(e)),
                Ok(c) => r matches Ok(o) && o.status == PolicyStatus::Rollbacked && o.apply_plan
                    == apply_plan && plans(o.rollback_plan@) == c,
            },
        },
{
    match second {
        Ok(()) => Ok(ApplyOutcome { status: PolicyStatus::Active, apply_plan, rollback_plan: Vec::new() }),
        Err(_) => {
            let rollback_plan = match backend.plan_cleanup(policy) {
                Ok(v) => v,
                Err(e) => {
                    return Err(ApplyError::Backend(e));
                },
            };
            Ok(ApplyOutcome { status: PolicyStatus::Rollbacked, apply_plan, rollback_plan })
        },
    }
}

/// Checks the control plane, plans the policy behind the protected routes, records the plan
/// as the last known good state, and checks the control plane again: still reachable, the
/// policy is active; gone, it is rolled back and the cleanup commands come with it.
///
/// The two checks ask the probe about the endpoints in order (see `probe_check`); the probe
/// answers as the network is at the time of each, so they may differ. The second check is made
/// only once the plan is made and recorded. The state store is left as it was unless the plan was made and recorded.
pub fn apply_with_control_plane_guard<B: PlatformBackend, P: ControlPlaneProbe, S: StateStore>(
    backend: &B,
    probe: &P,
    state: &mut S,
    guard: &ControlPlaneGuard,
    policy: &DevicePolicy,
) -> (r: Result<ApplyOutcome, ApplyError>)
    ensures
        exists|first: Result<(), ControlPlaneError>, second: Result<(), ControlPlaneError>|
            #[trigger] possible_check(guard.spec_endpoints(), first) && #[trigger] possible_check(
                guard.spec_endpoints(),
                second,
            ) && (exists|asked: Seq<bool>| #[trigger] probe_check(*probe, guard.spec_endpoints(), asked, first))
                && (first is Ok && backend.spec_plan_apply(*policy) is Ok ==> exists|asked: Seq<bool>|
                #[trigger] probe_check(*probe, guard.spec_endpoints(), asked, second))
                && guard_outcome_holds(
                r,
                first,
                second,
                backend.spec_plan_apply(*policy),
                backend.spec_plan_cleanup(*policy),
                guard.spec_endpoints().map_values(protect_fn(None)),
            ) && (if first is Ok && backend.spec_plan_apply(*policy) is Ok {
                final(state).saved() matches Some(snapshot) && snapshot.policy_id@
                    == policy.policy_id@ && snapshot.version == policy.version && views(
                    snapshot.commands@,
                ) == snapshot_lines(
                    guard.spec_endpoints().map_values(protect_fn(None)) + backend.spec_plan_apply(
                        *policy,
                    )->Ok_0,
                )
            } else {
                *final(state) == *old(state)
            }),
        match r {
            Err(ApplyError::Preflight(ControlPlaneError::Unreachable(n))) => exists|i: int|
                0 <= i < guard.spec_endpoints().len() && guard.spec_endpoints()[i].name@ == n@,
            Err(ApplyError::PostApply(_)) => false,
            _ => true,
        },
        guard.spec_endpoints().len() == 0 ==> match backend.spec_plan_apply(*policy) {
            Ok(_) => r matches Ok(outcome) && outcome.status == PolicyStatus::Active,
            Err(e) => r == Err::<ApplyOutcome, ApplyError>(ApplyError::Backend(e)),
        },
{
    let first = guard.verify(probe);
    match first {
        Ok(()) => {},
        Err(e) => {
            assert(possible_check(guard.spec_endpoints(), first));
            return Err(ApplyError::Preflight(e));
        },
    }
    let mut apply_plan = guard.protected_route_plan();
    let planned = match backend.plan_apply(policy) {
        Ok(v) => v,
        Err(e) => {
            assert(possible_check(guard.spec_endpoints(), first));
            return Err(ApplyError::Backend(e));
        },
    };
    crate::command::append_plans(&mut apply_plan, planned);
    let lines = command_lines(&apply_plan);
    state.save_last_known_good(RouteSnapshot::new(policy.policy_id.as_str(), policy.version, lines));
    let second = guard.verify(probe);
    let r = finish_guarded_apply(backend, policy, apply_plan, second);
    assert(possible_check(guard.spec_endpoints(), first) && possible_check(guard.spec_endpoints(), second));
    r
}

} // verus!
