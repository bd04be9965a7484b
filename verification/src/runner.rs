//! What the agent's commands decide: which platform plans, which commands protect the control
//! plane, where reports go and with which credentials, and what a run's report says.
use vstd::prelude::*;

use crate::command::{append_plans, plans, sh, CmdView, CommandPlan};
use crate::control_plane::{
    protect_script, table_clause, ControlPlaneEndpoint, ControlPlaneGuard,
};
use crate::credential::MachineCredentialFile;
use crate::executor::{CommandExecutionFailure, CommandExecutionMode, CommandExecutionReport};
use crate::linux::{linux_plan_apply, linux_plan_cleanup, LinuxBackend};
use crate::openwrt::{owrt_plan_apply, owrt_plan_cleanup, OpenWrtBackend};
use crate::policy::{DevicePolicy, PolicyError, PolicyStatus};
use crate::report::{
    build_runtime_report, build_runtime_report_from_failure, derive_policy_status_for_policy,
    policy_status_for, AgentRuntimeReport,
};
use crate::reporter::{AgentApiAuth, ReportTarget};
use crate::text::{
    after_first, after_first_str, after_last_char, after_last_char_str, before_first_char,
    before_first_char_str, blank, is_blank, strip_suffixes, trim, trimmed,
};

verus! {

/// The platform whose firewall the agent drives.
#[derive(Debug, Clone, Copy, PartialEq, Eq, Structural)]
pub enum PlatformKind {
    Linux,
    OpenWrt,
}

impl PlatformKind {
    /// The routing table the platform's policy routes use.
    pub fn table_id(self) -> (r: u32)
        ensures
            r == 126,
    {
        match self {
            PlatformKind::Linux => LinuxBackend::default().table_id(),
            PlatformKind::OpenWrt => 126,
        }
    }
}

/// Why a command could not be planned or reported.
#[derive(Debug, Clone, PartialEq, Eq)]
pub enum RunnerError {
    /// Some web report flags were given, but not all that are needed together.
    MissingReportFlags,
    /// The credential file belongs to another machine.
    CredentialMachineMismatch,
    /// The web base URL names no host.
    MissingWebHost,
    /// The policy cannot be planned.
    Policy(PolicyError),
}

impl RunnerError {
    pub open spec fn spec_message(self) -> Seq<char> {
        match self {
            RunnerError::MissingReportFlags => "all web report flags are required together: --web-base-url, --user-id, and either --credential-file or --internal-auth-token"@,
            RunnerError::CredentialMachineMismatch => "credential file machine_id does not match --machine-id"@,
            RunnerError::MissingWebHost => "invalid --web-base-url: missing host"@,
            RunnerError::Policy(e) => e.spec_message(),
        }
    }

    pub fn message(&self) -> (r: String)
        ensures
            r@ == self.spec_message(),
    {
        match self {
            RunnerError::MissingReportFlags => crate::text::owned(
                "all web report flags are required together: --web-base-url, --user-id, and either --credential-file or --internal-auth-token",
            ),
            RunnerError::CredentialMachineMismatch => crate::text::owned(
                "credential file machine_id does not match --machine-id",
            ),
            RunnerError::MissingWebHost => crate::text::owned("invalid --web-base-url: missing host"),
            RunnerError::Policy(e) => e.message(),
        }
    }
}

// ---------------------------------------------------------------------------
// The web host
// ---------------------------------------------------------------------------
/// The host of a URL-like text: past the scheme, before the path, past any user part, before
/// the port, trimmed; none when that is empty.
pub open spec fn url_host(value: Seq<char>) -> Option<Seq<char>> {
    let authority = trim(before_first_char(after_first(value, "://"@), '/'));
    if authority.len() == 0 {
        None
    } else {
        let host = trim(before_first_char(after_last_char(authority, '@'), ':'));
        if host.len() == 0 {
            None
        } else {
            Some(host)
        }
    }
}

pub fn host_from_url_like(value: &str) -> (r: Option<String>)
    ensures
        match r {
            Some(h) => url_host(value@) == Some(h@),
            None => url_host(value@) is None,
        },
{
    let without_scheme = after_first_str(value, "://");
    let head = before_first_char_str(without_scheme.as_str(), '/');
    let authority = trimmed(head.as_str());
    if authority.as_str().is_empty() {
        return None;
    }
    let after_user = after_last_char_str(authority.as_str(), '@');
    let before_port = before_first_char_str(after_user.as_str(), ':');
    let host = trimmed(before_port.as_str());
    if host.as_str().is_empty() {
        None
    } else {
        Some(host)
    }
}

// ---------------------------------------------------------------------------
// Commands
// ---------------------------------------------------------------------------
/// A planning result, as text.
pub open spec fn runner_plan_view(r: Result<Vec<CommandPlan>, RunnerError>) -> Result<
    Seq<CmdView>,
    RunnerError,
> {
    match r {
        Ok(v) => Ok(plans(v@)),
        Err(e) => Err(e),
    }
}

/// The commands that protect the web control plane, when the policy asks for it and a web URL
/// is known: its host pinned in the platform's table.
pub open spec fn control_plane_plan(p: DevicePolicy, web_base_url: Option<String>) -> Result<
    Seq<CmdView>,
    RunnerError,
> {
    if !p.protect_control_plane {
        Ok(Seq::empty())
    } else {
        match web_base_url {
            None => Ok(Seq::empty()),
            Some(url) => match url_host(url@) {
                None => Err(RunnerError::MissingWebHost),
                Some(host) => Ok(
                    seq![sh(protect_script(strip_suffixes(host, "/32"@), table_clause(Some(126u32))))],
                ),
            },
        }
    }
}

pub fn control_plane_commands(
    policy: &DevicePolicy,
    web_base_url: Option<String>,
    platform: PlatformKind,
) -> (r: Result<Vec<CommandPlan>, RunnerError>)
    ensures
        runner_plan_view(r) == control_plane_plan(*policy, web_base_url),
{
    if !policy.protect_control_plane {
        return Ok(crate::linux::no_plans());
    }
    let url = match web_base_url {
        None => {
            return Ok(crate::linux::no_plans());
        },
        Some(url) => url,
    };
    let host = match host_from_url_like(url.as_str()) {
        None => {
            return Err(RunnerError::MissingWebHost);
        },
        Some(host) => host,
    };
    let endpoint = ControlPlaneEndpoint::new("web", host.as_str());
    let ghost e = endpoint;
    let guard = ControlPlaneGuard::new(vec![endpoint]);
    let r = guard.protected_route_plan_for_table(Some(platform.table_id()));
    assert(guard.spec_endpoints() =~= seq![e]);
    assert(plans(r@) =~~= seq![sh(protect_script(strip_suffixes(host@, "/32"@), table_clause(Some(126u32))))]);
    Ok(r)
}

/// The commands a platform's backend plans to apply a policy.
pub open spec fn platform_plan_apply(k: PlatformKind, p: DevicePolicy) -> Result<Seq<CmdView>, PolicyError> {
    match k {
        PlatformKind::Linux => linux_plan_apply(LinuxBackend::default_view(), p),
        PlatformKind::OpenWrt => owrt_plan_apply(OpenWrtBackend::default_view(), p),
    }
}

/// The commands a platform's backend plans to remove a policy.
pub open spec fn platform_plan_cleanup(k: PlatformKind, p: DevicePolicy) -> Result<Seq<CmdView>, PolicyError> {
    match k {
        PlatformKind::Linux => linux_plan_cleanup(LinuxBackend::default_view(), p),
        PlatformKind::OpenWrt => owrt_plan_cleanup(OpenWrtBackend::default_view(), p),
    }
}

pub open spec fn policy_errors(r: Result<Seq<CmdView>, PolicyError>) -> Result<Seq<CmdView>, RunnerError> {
    match r {
        Ok(v) => Ok(v),
        Err(e) => Err(RunnerError::Policy(e)),
    }
}

/// The commands that apply a policy: the control plane's protection first, then the platform's
/// rules.
pub open spec fn apply_plan(p: DevicePolicy, web_base_url: Option<String>, k: PlatformKind) -> Result<
    Seq<CmdView>,
    RunnerError,
> {
    match control_plane_plan(p, web_base_url) {
        Err(e) => Err(e),
        Ok(guard) => match platform_plan_apply(k, p) {
            Err(e) => Err(RunnerError::Policy(e)),
            Ok(rules) => Ok(guard + rules),
        },
    }
}

fn plan_apply_for_platform(policy: &DevicePolicy, platform: PlatformKind) -> (r: Result<
    Vec<CommandPlan>,
    RunnerError,
>)
    ensures
        runner_plan_view(r) == policy_errors(platform_plan_apply(platform, *policy)),
{
    let planned = match platform {
        PlatformKind::Linux => LinuxBackend::default().plan_apply(policy),
        PlatformKind::OpenWrt => OpenWrtBackend::default().plan_apply(policy),
    };
    match planned {
        Ok(v) => Ok(v),
        Err(e) => Err(RunnerError::Policy(e)),
    }
}

pub fn apply_commands_for_policy(
    policy: &DevicePolicy,
    web_base_url: Option<String>,
    platform: PlatformKind,
) -> (r: Result<Vec<CommandPlan>, RunnerError>)
    ensures
        runner_plan_view(r) == apply_plan(*policy, web_base_url, platform),
{
    let mut commands = control_plane_commands(policy, web_base_url, platform)?;
    let rules = plan_apply_for_platform(policy, platform)?;
    append_plans(&mut commands, rules);
    Ok(commands)
}

pub fn cleanup_commands_for_policy(policy: &DevicePolicy, platform: PlatformKind) -> (r: Result<
    Vec<CommandPlan>,
    RunnerError,
>)
    ensures
        runner_plan_view(r) == policy_errors(platform_plan_cleanup(platform, *policy)),
{
    let planned = match platform {
        PlatformKind::Linux => LinuxBackend::default().plan_cleanup(policy),
        PlatformKind::OpenWrt => OpenWrtBackend::default().plan_cleanup(policy),
    };
    match planned {
        Ok(v) => Ok(v),
        Err(e) => Err(RunnerError::Policy(e)),
    }
}

/// Replaces the policy's EasyTier interface with the one given, unless that one is blank.
pub fn apply_easytier_iface_override(policy: &mut DevicePolicy, easytier_iface: Option<String>)
    ensures
        match easytier_iface {
            Some(iface) => !blank(iface@) ==> *final(policy) == DevicePolicy {
                easytier_iface: iface,
                ..*old(policy)
            },
            None => true,
        },
        (easytier_iface is None || blank(easytier_iface->0@)) ==> *final(policy) == *old(policy),
{
    if let Some(iface) = easytier_iface {
        if !is_blank(iface.as_str()) {
            policy.easytier_iface = iface;
        }
    }
}

// ---------------------------------------------------------------------------
// Reporting
// ---------------------------------------------------------------------------
/// A non-blank optional text, or the fallback.
pub open spec fn non_blank_or(v: Option<String>, fallback: Seq<char>) -> Seq<char> {
    match v {
        Some(s) => if !blank(s@) {
            s@
        } else {
            fallback
        },
        None => fallback,
    }
}

/// The base URL a credential's API lives at: its own when it names one, else the fallback.
pub fn credential_runtime_base_url(credential: &MachineCredentialFile, fallback_web_base_url: &str) -> (r:
    String)
    ensures
        r@ == non_blank_or(credential.api_base_url, fallback_web_base_url@),
{
    match &credential.api_base_url {
        Some(url) => {
            if !is_blank(url.as_str()) {
                return url.clone();
            }
        },
        None => {},
    }
    crate::text::owned(fallback_web_base_url)
}

/// Where reports go, from the command's flags: nowhere when none is given; otherwise the web
/// URL and user are needed, with the credential (read from the credential file), or else the
/// legacy token. A credential of another machine is refused; its own API URL, when it names
/// one, replaces the web URL.
pub open spec fn report_target_of(
    web_base_url: Option<String>,
    user_id: Option<i32>,
    internal_auth_token: Option<String>,
    credential: Option<MachineCredentialFile>,
    machine_id: String,
) -> Result<Option<(Seq<char>, i32, Seq<char>, AgentApiAuth)>, RunnerError> {
    if web_base_url is None && user_id is None && internal_auth_token is None && credential is None {
        Ok(None)
    } else if web_base_url is None || user_id is None {
        Err(RunnerError::MissingReportFlags)
    } else {
        match credential {
            Some(c) => if c.machine_id@ != machine_id@ {
                Err(RunnerError::CredentialMachineMismatch)
            } else {
                Ok(
                    Some(
                        (
                            non_blank_or(c.api_base_url, web_base_url->0@),
                            user_id->0,
                            machine_id@,
                            AgentApiAuth::MachineToken {
                                token: c.current_token,
                                credential_version: c.credential_version,
                            },
                        ),
                    ),
                )
            },
            None => match internal_auth_token {
                Some(t) => Ok(
                    Some(
                        (
                            web_base_url->0@,
                            user_id->0,
                            machine_id@,
                            AgentApiAuth::LegacyInternalToken(t),
                        ),
                    ),
                ),
                None => Err(RunnerError::MissingReportFlags),
            },
        }
    }
}

pub open spec fn target_view(r: Result<Option<ReportTarget>, RunnerError>) -> Result<
    Option<(Seq<char>, i32, Seq<char>, AgentApiAuth)>,
    RunnerError,
> {
    match r {
        Ok(Some(t)) => Ok(Some((t.web_base_url@, t.user_id, t.machine_id@, t.auth))),
        Ok(None) => Ok(None),
        Err(e) => Err(e),
    }
}

pub fn report_target_from_flags(
    web_base_url: Option<String>,
    user_id: Option<i32>,
    internal_auth_token: Option<String>,
    credential: Option<MachineCredentialFile>,
    machine_id: String,
) -> (r: Result<Option<ReportTarget>, RunnerError>)
    ensures
        target_view(r) == report_target_of(
            web_base_url,
            user_id,
            internal_auth_token,
            credential,
            machine_id,
        ),
{
    let has_any = web_base_url.is_some() || user_id.is_some() || internal_auth_token.is_some()
        || credential.is_some();
    if !has_any {
        return Ok(None);
    }
    let (web, user) = match (web_base_url, user_id) {
        (Some(web), Some(user)) => (web, user),
        _ => {
            return Err(RunnerError::MissingReportFlags);
        },
    };
    match credential {
        Some(c) => {
            if !crate::text::str_eq(c.machine_id.as_str(), machine_id.as_str()) {
                return Err(RunnerError::CredentialMachineMismatch);
            }
            let url = credential_runtime_base_url(&c, web.as_str());
            Ok(
                Some(
                    ReportTarget {
                        web_base_url: url,
                        user_id: user,
                        machine_id,
                        auth: AgentApiAuth::MachineToken {
                            token: c.current_token,
                            credential_version: c.credential_version,
                        },
                    },
                ),
            )
        },
        None => match internal_auth_token {
            Some(t) => Ok(
                Some(
                    ReportTarget {
                        web_base_url: web,
                        user_id: user,
                        machine_id,
                        auth: AgentApiAuth::LegacyInternalToken(t),
                    },
                ),
            ),
            None => Err(RunnerError::MissingReportFlags),
        },
    }
}

/// The mode a run uses: executing only when asked to.
pub fn execution_mode(execute: bool) -> (r: CommandExecutionMode)
    ensures
        r == (if execute {
            CommandExecutionMode::Execute
        } else {
            CommandExecutionMode::DryRun
        }),
{
    if execute {
        CommandExecutionMode::Execute
    } else {
        CommandExecutionMode::DryRun
    }
}

/// The report of a run of a policy's commands: on success with the status the run stands for,
/// on failure `Degraded` with the error.
pub fn runtime_report_for_run(
    machine_id: &str,
    easytier_ipv4: Option<String>,
    policy: &DevicePolicy,
    outcome: &Result<CommandExecutionReport, CommandExecutionFailure>,
) -> (r: AgentRuntimeReport)
    ensures
        r.machine_id@ == machine_id@,
        r.easytier_ipv4 == easytier_ipv4,
        r.policy_id == policy.policy_id,
        r.version == policy.version,
        match outcome {
            Ok(report) => r.status == policy_status_for(
                *policy,
                report.dry_run,
                report.executed_count,
                false,
                false,
            ) && r.dry_run == report.dry_run && r.executed_count == report.executed_count
                && r.last_error is None,
            Err(failure) => r.status == PolicyStatus::Degraded && r.executed_count
                == failure.report.executed_count && r.last_error == Some(failure.error),
        },
{
    match outcome {
        Ok(report) => {
            let status = derive_policy_status_for_policy(policy, report, None, false);
            build_runtime_report(machine_id, easytier_ipv4, policy, status, report, None)
        },
        Err(failure) => build_runtime_report_from_failure(machine_id, easytier_ipv4, policy, failure),
    }
}

/// Whether a loop that ran `iterations` rounds stops, given its limit (none: it never stops).
pub fn iteration_limit_reached(iterations: usize, max_iterations: Option<usize>) -> (r: bool)
    ensures
        r == (max_iterations matches Some(max) && iterations >= max),
{
    match max_iterations {
        Some(max) => iterations >= max,
        None => false,
    }
}


/// What a managed run does about the machine's credential before it reports.
#[derive(Debug, Clone, Copy, PartialEq, Eq, Structural)]
pub enum CredentialPlan {
    /// No credential file is configured: report with the legacy token.
    NoCredential,
    /// The credential file exists: rotate it if the web service asks, then use it.
    RotateExisting,
    /// No credential file yet, but a bootstrap token: enrol, store the credential, then rotate.
    EnrollThenRotate,
    /// No credential file and no bootstrap token: use the path as it is.
    UseAsIs,
}

/// The plan for a run's credential, given whether a file is configured, whether it exists, and
/// whether a bootstrap token was given.
pub fn credential_plan(file_configured: bool, file_exists: bool, bootstrap_given: bool) -> (r: CredentialPlan)
    ensures
        r == (if !file_configured {
            CredentialPlan::NoCredential
        } else if file_exists {
            CredentialPlan::RotateExisting
        } else if bootstrap_given {
            CredentialPlan::EnrollThenRotate
        } else {
            CredentialPlan::UseAsIs
        }),
{
    if !file_configured {
        CredentialPlan::NoCredential
    } else if file_exists {
        CredentialPlan::RotateExisting
    } else if bootstrap_given {
        CredentialPlan::EnrollThenRotate
    } else {
        CredentialPlan::UseAsIs
    }
}

} // verus!
