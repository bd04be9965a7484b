//! What a platform's firewall and routing backend offers the rest of the agent.
use vstd::prelude::*;

use crate::command::{CmdView, CommandPlan};
use crate::linux::{linux_plan_apply, linux_plan_cleanup, plan_result_view, LinuxBackend};
use crate::openwrt::{owrt_plan_apply, owrt_plan_cleanup, OpenWrtBackend};
use crate::policy::{DevicePolicy, PolicyError};

verus! {

/// Plans the commands that apply and remove a device policy on one platform.
pub trait PlatformBackend {
    /// The commands `plan_apply` answers, or the error.
    spec fn spec_plan_apply(&self, policy: DevicePolicy) -> Result<Seq<CmdView>, PolicyError>;

    /// The commands `plan_cleanup` answers, or the error.
    spec fn spec_plan_cleanup(&self, policy: DevicePolicy) -> Result<Seq<CmdView>, PolicyError>;

    fn plan_apply(&self, policy: &DevicePolicy) -> (r: Result<Vec<CommandPlan>, PolicyError>)
        ensures
            plan_result_view(r) == self.spec_plan_apply(*policy),
    ;

    fn plan_cleanup(&self, policy: &DevicePolicy) -> (r: Result<Vec<CommandPlan>, PolicyError>)
        ensures
            plan_result_view(r) == self.spec_plan_cleanup(*policy),
    ;
}

impl PlatformBackend for LinuxBackend {
    open spec fn spec_plan_apply(&self, policy: DevicePolicy) -> Result<Seq<CmdView>, PolicyError> {
        linux_plan_apply(self@, policy)
    }

    open spec fn spec_plan_cleanup(&self, policy: DevicePolicy) -> Result<Seq<CmdView>, PolicyError> {
        linux_plan_cleanup(self@, policy)
    }

    fn plan_apply(&self, policy: &DevicePolicy) -> (r: Result<Vec<CommandPlan>, PolicyError>) {
        LinuxBackend::plan_apply(self, policy)
    }

    fn plan_cleanup(&self, policy: &DevicePolicy) -> (r: Result<Vec<CommandPlan>, PolicyError>) {
        LinuxBackend::plan_cleanup(self, policy)
    }
}

impl PlatformBackend for OpenWrtBackend {
    open spec fn spec_plan_apply(&self, policy: DevicePolicy) -> Result<Seq<CmdView>, PolicyError> {
        owrt_plan_apply(self@, policy)
    }

    open spec fn spec_plan_cleanup(&self, policy: DevicePolicy) -> Result<Seq<CmdView>, PolicyError> {
        owrt_plan_cleanup(self@, policy)
    }

    fn plan_apply(&self, policy: &DevicePolicy) -> (r: Result<Vec<CommandPlan>, PolicyError>) {
        OpenWrtBackend::plan_apply(self, policy)
    }

    fn plan_cleanup(&self, policy: &DevicePolicy) -> (r: Result<Vec<CommandPlan>, PolicyError>) {
        OpenWrtBackend::plan_cleanup(self, policy)
    }
}

} // verus!
