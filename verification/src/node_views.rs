//! The web service's view of the machines that can take part in a gateway policy, and the
//! policy it builds for a pair of them in one step.
use vstd::prelude::*;

use crate::command::{clone_opt_string, clone_strings};
use crate::outside::{parse_rfc3339, rfc3339_instant};
use crate::policy::{ExitEgress, ExitEgressMode};
use crate::text::{blank, is_blank, views};
use crate::web_policy::{
    gateway_validation, opt_view, or_else, GatewayFullTunnelPolicy, GatewayPolicySnapshot, GatewayPolicyView,
    HealthcheckConfig, PolicyError, ReportView, RollbackConfig, RuntimeReport,
};

verus! {

/// A machine connected to the web service.
#[derive(Debug, Clone, PartialEq, Eq)]
pub struct GatewayNodeMachineSnapshot {
    pub machine_id: u128,
    pub hostname: Option<String>,
    pub public_ip: Option<String>,
    pub running_network_instances: Vec<u128>,
}

/// What a machine's agent last said of it.
#[derive(Debug, Clone, PartialEq, Eq)]
pub struct GatewayNodeAgentView {
    pub online: bool,
    pub last_report_at: Option<String>,
    pub agent_version: Option<String>,
    pub easytier_ipv4: Option<String>,
    pub easytier_iface: Option<String>,
    pub lan_cidrs: Vec<String>,
    pub ingress_ifaces: Vec<String>,
    pub default_route: Option<String>,
    pub firewall_backend: Option<String>,
    pub policy_status: Option<String>,
    pub last_error: Option<String>,
    pub protected_routes: Vec<String>,
}

/// A machine and what its agent said of it.
#[derive(Debug, Clone, PartialEq, Eq)]
pub struct GatewayNodeView {
    pub machine_id: u128,
    pub hostname: Option<String>,
    pub public_ip: Option<String>,
    pub machine_online: bool,
    pub running_network_instances: Vec<u128>,
    pub agent: GatewayNodeAgentView,
}

/// An agent's view, as text.
pub struct AgentViewV {
    pub online: bool,
    pub last_report_at: Option<Seq<char>>,
    pub agent_version: Option<Seq<char>>,
    pub easytier_ipv4: Option<Seq<char>>,
    pub easytier_iface: Option<Seq<char>>,
    pub lan_cidrs: Seq<Seq<char>>,
    pub ingress_ifaces: Seq<Seq<char>>,
    pub default_route: Option<Seq<char>>,
    pub firewall_backend: Option<Seq<char>>,
    pub policy_status: Option<Seq<char>>,
    pub last_error: Option<Seq<char>>,
    pub protected_routes: Seq<Seq<char>>,
}

/// A node's view, as text.
pub struct NodeViewV {
    pub machine_id: u128,
    pub hostname: Option<Seq<char>>,
    pub public_ip: Option<Seq<char>>,
    pub machine_online: bool,
    pub running_network_instances: Seq<u128>,
    pub agent: AgentViewV,
}

impl View for GatewayNodeAgentView {
    type V = AgentViewV;

    open spec fn view(&self) -> AgentViewV {
        AgentViewV {
            online: self.online,
            last_report_at: opt_view(self.last_report_at),
            agent_version: opt_view(self.agent_version),
            easytier_ipv4: opt_view(self.easytier_ipv4),
            easytier_iface: opt_view(self.easytier_iface),
            lan_cidrs: crate::text::views(self.lan_cidrs@),
            ingress_ifaces: crate::text::views(self.ingress_ifaces@),
            default_route: opt_view(self.default_route),
            firewall_backend: opt_view(self.firewall_backend),
            policy_status: opt_view(self.policy_status),
            last_error: opt_view(self.last_error),
            protected_routes: crate::text::views(self.protected_routes@),
        }
    }
}

impl View for GatewayNodeView {
    type V = NodeViewV;

    open spec fn view(&self) -> NodeViewV {
        NodeViewV {
            machine_id: self.machine_id,
            hostname: opt_view(self.hostname),
            public_ip: opt_view(self.public_ip),
            machine_online: self.machine_online,
            running_network_instances: self.running_network_instances@,
            agent: self.agent@,
        }
    }
}

/// The agent view of a machine no agent reported for: offline, and empty.
pub open spec fn silent_agent() -> AgentViewV {
    AgentViewV {
        online: false,
        last_report_at: None,
        agent_version: None,
        easytier_ipv4: None,
        easytier_iface: None,
        lan_cidrs: Seq::empty(),
        ingress_ifaces: Seq::empty(),
        default_route: None,
        firewall_backend: None,
        policy_status: None,
        last_error: None,
        protected_routes: Seq::empty(),
    }
}

impl Default for GatewayNodeAgentView {
    fn default() -> (r: GatewayNodeAgentView)
        ensures
            r@ == silent_agent(),
    {
        let r = GatewayNodeAgentView {
            online: false,
            last_report_at: None,
            agent_version: None,
            easytier_ipv4: None,
            easytier_iface: None,
            lan_cidrs: Vec::new(),
            ingress_ifaces: Vec::new(),
            default_route: None,
            firewall_backend: None,
            policy_status: None,
            last_error: None,
            protected_routes: Vec::new(),
        };
        assert(r@.lan_cidrs =~= Seq::empty());
        assert(r@.ingress_ifaces =~= Seq::empty());
        assert(r@.protected_routes =~= Seq::empty());
        r
    }
}

// ---------------------------------------------------------------------------
// Report times
// ---------------------------------------------------------------------------
/// An RFC 3339 text's instant, in nanoseconds since the Unix epoch.
pub open spec fn text_instant(text: Seq<char>) -> Option<int> {
    match rfc3339_instant(text) {
        Some((secs, nanos)) => Some(secs * 1_000_000_000 + nanos),
        None => None,
    }
}

/// When a report was made, if it says so readably.
pub open spec fn report_time(r: ReportView) -> Option<int> {
    match r.last_report_at {
        Some(t) => text_instant(t),
        None => None,
    }
}

/// A report is fresh when it was made no longer than `fresh_after` before `now`.
pub open spec fn report_fresh(r: ReportView, now: i128, fresh_after: i128) -> bool {
    match report_time(r) {
        Some(t) => now - t <= fresh_after,
        None => false,
    }
}

/// Whether the left report is at least as recent as the right one; a report without a readable
/// time is older than one with it.
pub open spec fn report_newer(left: ReportView, right: ReportView) -> bool {
    match (report_time(left), report_time(right)) {
        (Some(a), Some(b)) => a >= b,
        (Some(_), None) => true,
        (None, Some(_)) => false,
        (None, None) => true,
    }
}

/// The instant of a report time text, in nanoseconds since the Unix epoch.
pub fn parse_report_time(value: Option<&str>) -> (r: Option<i128>)
    ensures
        r == match value {
            Some(t) => match text_instant(t@) {
                Some(x) => Some(x as i128),
                None => None,
            },
            None => None::<i128>,
        },
        r matches Some(x) ==> match value {
            Some(t) => text_instant(t@) == Some(x as int),
            None => false,
        },
{
    let text = match value {
        Some(t) => t,
        None => {
            return None;
        },
    };
    match parse_rfc3339(text) {
        Some((secs, nanos)) => Some(secs as i128 * 1_000_000_000 + nanos as i128),
        None => None,
    }
}

fn report_instant(report: &RuntimeReport) -> (r: Option<i128>)
    ensures
        match r {
            Some(x) => report_time(report@) == Some(x as int),
            None => report_time(report@) is None,
        },
{
    match &report.last_report_at {
        Some(t) => parse_report_time(Some(t.as_str())),
        None => None,
    }
}

pub fn report_is_fresh(report: &RuntimeReport, now: i128, fresh_after: i128) -> (r: bool)
    ensures
        r == report_fresh(report@, now, fresh_after),
{
    match report_instant(report) {
        None => false,
        Some(t) => match now.checked_sub(t) {
            Some(d) => d <= fresh_after,
            None => now < t,
        },
    }
}

pub fn report_is_newer(left: &RuntimeReport, right: &RuntimeReport) -> (r: bool)
    ensures
        r == report_newer(left@, right@),
{
    match (report_instant(left), report_instant(right)) {
        (Some(a), Some(b)) => a >= b,
        (Some(_), None) => true,
        (None, Some(_)) => false,
        (None, None) => true,
    }
}

/// What a report shows of its machine's agent at `now`.
pub open spec fn agent_of(r: ReportView, now: i128, fresh_after: i128) -> AgentViewV {
    AgentViewV {
        online: report_fresh(r, now, fresh_after),
        last_report_at: r.last_report_at,
        agent_version: Some(r.agent_version),
        easytier_ipv4: r.easytier_ipv4,
        easytier_iface: r.easytier_iface,
        lan_cidrs: r.lan_cidrs,
        ingress_ifaces: r.ingress_ifaces,
        default_route: r.default_route,
        firewall_backend: r.firewall_backend,
        policy_status: or_else(r.observed_policy_status, r.status),
        last_error: r.last_error,
        protected_routes: r.protected_routes,
    }
}

impl GatewayNodeAgentView {
    pub fn from_report(report: &RuntimeReport, now: i128, fresh_after: i128) -> (r: GatewayNodeAgentView)
        ensures
            r@ == agent_of(report@, now, fresh_after),
    {
        let policy_status = match &report.observed_policy_status {
            Some(s) => Some(s.clone()),
            None => clone_opt_string(&report.status),
        };
        GatewayNodeAgentView {
            online: report_is_fresh(report, now, fresh_after),
            last_report_at: clone_opt_string(&report.last_report_at),
            agent_version: Some(report.agent_version.clone()),
            easytier_ipv4: clone_opt_string(&report.easytier_ipv4),
            easytier_iface: clone_opt_string(&report.easytier_iface),
            lan_cidrs: clone_strings(&report.lan_cidrs),
            ingress_ifaces: clone_strings(&report.ingress_ifaces),
            default_route: clone_opt_string(&report.default_route),
            firewall_backend: clone_opt_string(&report.firewall_backend),
            policy_status,
            last_error: clone_opt_string(&report.last_error),
            protected_routes: clone_strings(&report.protected_routes),
        }
    }
}


// ---------------------------------------------------------------------------
// Node listing
// ---------------------------------------------------------------------------
/// The report a machine is listed with: of its reports, in the order given, the last one that is
/// at least as recent as every one before it.
pub open spec fn latest_report(reports: Seq<RuntimeReport>, id: u128) -> Option<ReportView>
    decreases reports.len(),
{
    if reports.len() == 0 {
        None
    } else {
        let prev = latest_report(reports.drop_last(), id);
        let r = reports.last()@;
        if r.machine_id == id && match prev {
            Some(p) => report_newer(r, p),
            None => true,
        } {
            Some(r)
        } else {
            prev
        }
    }
}

/// How a machine is listed.
pub open spec fn node_of(m: GatewayNodeMachineSnapshot, reports: Seq<RuntimeReport>, now: i128, fresh_after: i128) -> NodeViewV {
    NodeViewV {
        machine_id: m.machine_id,
        hostname: opt_view(m.hostname),
        public_ip: opt_view(m.public_ip),
        machine_online: true,
        running_network_instances: m.running_network_instances@,
        agent: match latest_report(reports, m.machine_id) {
            Some(r) => agent_of(r, now, fresh_after),
            None => silent_agent(),
        },
    }
}

/// Every machine, listed, in the order given.
pub open spec fn nodes_of(machines: Seq<GatewayNodeMachineSnapshot>, reports: Seq<RuntimeReport>, now: i128, fresh_after: i128) -> Seq<NodeViewV> {
    Seq::new(machines.len(), |i: int| node_of(machines[i], reports, now, fresh_after))
}

/// `p` says where each listed node came from: `out` is `input` reordered by `p`, in increasing
/// machine id order, nodes of one id keeping their order.
pub open spec fn sorts_stably(p: Seq<int>, out: Seq<GatewayNodeView>, input: Seq<NodeViewV>) -> bool {
    &&& p.len() == out.len() == input.len()
    &&& forall|j: int| 0 <= j < out.len() ==> 0 <= #[trigger] p[j] < input.len() && out[j]@ == input[p[j]]
    &&& forall|a: int, b: int| 0 <= a < b < out.len() ==> p[a] != p[b]
    &&& forall|a: int, b: int|
        #![trigger out[a], out[b]]
        0 <= a < b < out.len() ==> out[a].machine_id < out[b].machine_id || (out[a].machine_id
            == out[b].machine_id && p[a] < p[b])
}

/// `out` is `input` sorted by machine id, stably.
pub open spec fn is_stable_id_sort(out: Seq<GatewayNodeView>, input: Seq<NodeViewV>) -> bool {
    exists|p: Seq<int>| sorts_stably(p, out, input)
}

fn latest_report_index(reports: &Vec<RuntimeReport>, id: u128) -> (r: Option<usize>)
    ensures
        match r {
            None => latest_report(reports@, id) is None,
            Some(k) => k < reports@.len() && latest_report(reports@, id) == Some(reports@[k as int]@),
        },
{
    let mut best: Option<usize> = None;
    let mut k: usize = 0;
    while k < reports.len()
        invariant
            0 <= k <= reports@.len(),
            match best {
                None => latest_report(reports@.take(k as int), id) is None,
                Some(b) => b < k && latest_report(reports@.take(k as int), id) == Some(
                    reports@[b as int]@,
                ),
            },
        decreases reports.len() - k,
    {
        proof {
            assert(reports@.take(k + 1).drop_last() =~= reports@.take(k as int));
            assert(reports@.take(k + 1).last() == reports@[k as int]);
        }
        if reports[k].machine_id == id {
            let replace = match best {
                None => true,
                Some(b) => report_is_newer(&reports[k], &reports[b]),
            };
            if replace {
                best = Some(k);
            }
        }
        k += 1;
    }
    proof {
        assert(reports@.take(k as int) =~= reports@);
    }
    best
}

fn copy_ids(v: &Vec<u128>) -> (r: Vec<u128>)
    ensures
        r@ == v@,
{
    let mut r: Vec<u128> = Vec::new();
    let mut i: usize = 0;
    while i < v.len()
        invariant
            0 <= i <= v@.len(),
            r@ == v@.take(i as int),
        decreases v.len() - i,
    {
        r.push(v[i]);
        i += 1;
        proof {
            assert(r@ =~= v@.take(i as int));
        }
    }
    proof {
        assert(v@.take(i as int) =~= v@);
    }
    r
}

fn make_node(m: &GatewayNodeMachineSnapshot, reports: &Vec<RuntimeReport>, now: i128, fresh_after: i128) -> (r: GatewayNodeView)
    ensures
        r@ == node_of(*m, reports@, now, fresh_after),
        r.machine_id == m.machine_id,
{
    let agent = match latest_report_index(reports, m.machine_id) {
        Some(k) => GatewayNodeAgentView::from_report(&reports[k], now, fresh_after),
        None => GatewayNodeAgentView::default(),
    };
    GatewayNodeView {
        machine_id: m.machine_id,
        hostname: clone_opt_string(&m.hostname),
        public_ip: clone_opt_string(&m.public_ip),
        machine_online: true,
        running_network_instances: copy_ids(&m.running_network_instances),
        agent,
    }
}

/// Lists the machines, each with what its newest report says of its agent, in increasing machine
/// id order (machines of one id in the order given).
pub fn build_gateway_node_views(
    machines: Vec<GatewayNodeMachineSnapshot>,
    reports: Vec<RuntimeReport>,
    now: i128,
    fresh_after: i128,
) -> (r: Vec<GatewayNodeView>)
    ensures
        is_stable_id_sort(r@, nodes_of(machines@, reports@, now, fresh_after)),
{
    let ghost input = nodes_of(machines@, reports@, now, fresh_after);
    let mut out: Vec<GatewayNodeView> = Vec::new();
    let ghost mut src: Seq<int> = Seq::empty();
    let mut i: usize = 0;
    while i < machines.len()
        invariant
            0 <= i <= machines@.len(),
            input == nodes_of(machines@, reports@, now, fresh_after),
            src.len() == out@.len() == i,
            forall|j: int| 0 <= j < out@.len() ==> 0 <= #[trigger] src[j] < i && out@[j]@ == input[src[j]],
            forall|a: int, b: int| 0 <= a < b < out@.len() ==> src[a] != src[b],
            forall|a: int, b: int|
                #![trigger out@[a], out@[b]]
                0 <= a < b < out@.len() ==> out@[a].machine_id < out@[b].machine_id || (
                out@[a].machine_id == out@[b].machine_id && src[a] < src[b]),
        decreases machines.len() - i,
    {
        let node = make_node(&machines[i], &reports, now, fresh_after);
        let id = node.machine_id;
        let mut pos: usize = 0;
        while pos < out.len() && out[pos].machine_id <= id
            invariant
                0 <= pos <= out@.len(),
                forall|j: int| 0 <= j < pos ==> #[trigger] out@[j].machine_id <= id,
            decreases out.len() - pos,
        {
            pos += 1;
        }
        let ghost before = out@;
        let ghost src_before = src;
        out.insert(pos, node);
        proof {
            src = src_before.insert(pos as int, i as int);
            assert forall|j: int| 0 <= j < out@.len() implies 0 <= #[trigger] src[j] < i + 1
                && out@[j]@ == input[src[j]] by {
                if j < pos {
                    assert(out@[j] == before[j] && src[j] == src_before[j]);
                } else if j > pos {
                    assert(out@[j] == before[j - 1] && src[j] == src_before[j - 1]);
                } else {
                    assert(input[i as int] == node_of(machines@[i as int], reports@, now, fresh_after));
                }
            }
            assert forall|a: int, b: int| 0 <= a < b < out@.len() implies src[a] != src[b] by {
                if b < pos {
                    assert(src[a] == src_before[a] && src[b] == src_before[b]);
                } else if a > pos {
                    assert(src[a] == src_before[a - 1] && src[b] == src_before[b - 1]);
                } else if a < pos && b > pos {
                    assert(src[a] == src_before[a] && src[b] == src_before[b - 1]);
                } else if a == pos {
                    assert(src[b] == src_before[b - 1]);
                } else {
                    assert(src[a] == src_before[a]);
                }
            }
            assert forall|a: int, b: int| 0 <= a < b < out@.len() implies out@[a].machine_id
                < out@[b].machine_id || (out@[a].machine_id == out@[b].machine_id && src[a]
                < src[b]) by {
                if b < pos {
                    assert(out@[a] == before[a] && out@[b] == before[b]);
                    assert(src[a] == src_before[a] && src[b] == src_before[b]);
                } else if a > pos {
                    assert(out@[a] == before[a - 1] && out@[b] == before[b - 1]);
                    assert(src[a] == src_before[a - 1] && src[b] == src_before[b - 1]);
                } else if a == pos {
                    assert(out@[b] == before[b - 1] && src[b] == src_before[b - 1]);
                    assert(before[pos as int].machine_id > id);
                    if b - 1 > pos {
                        assert(before[pos as int].machine_id <= before[b - 1].machine_id);
                    }
                } else if b == pos {
                    assert(out@[a] == before[a] && src[a] == src_before[a]);
                    assert(before[a].machine_id <= id);
                } else {
                    assert(out@[a] == before[a] && src[a] == src_before[a]);
                    assert(out@[b] == before[b - 1] && src[b] == src_before[b - 1]);
                    assert(before[a].machine_id < before[b - 1].machine_id || (before[a].machine_id
                        == before[b - 1].machine_id && src_before[a] < src_before[b - 1]));
                }
            }
        }
        i += 1;
    }
    proof {
        assert(input.len() == machines@.len());
        assert(sorts_stably(src, out@, input));
    }
    out
}


// ---------------------------------------------------------------------------
// Quick apply
// ---------------------------------------------------------------------------
/// Where the managed CIDRs of a quickly applied policy come from when the request names none.
#[derive(Debug, Clone, Copy, PartialEq, Eq)]
pub enum ManagedCidrsMode {
    /// The LAN CIDRs the source machine's agent reported.
    Auto,
}

impl Default for ManagedCidrsMode {
    fn default() -> (r: ManagedCidrsMode)
        ensures
            r == ManagedCidrsMode::Auto,
    {
        ManagedCidrsMode::Auto
    }
}

/// A request to set up a gateway between two listed machines in one step.
#[derive(Debug, Clone, PartialEq, Eq)]
pub struct QuickApplyGatewayPolicyRequest {
    pub source_machine_id: u128,
    pub exit_machine_id: u128,
    pub network_instance_id: Option<u128>,
    pub managed_cidrs_mode: ManagedCidrsMode,
    pub managed_cidrs: Vec<String>,
    pub include_device_traffic: bool,
}

/// The answer to a quick apply: the stored policy, the network it runs on and what it manages.
#[derive(Debug, Clone, PartialEq, Eq)]
pub struct QuickApplyGatewayPolicyResponse {
    pub policy: GatewayPolicySnapshot,
    pub selected_network_instance_id: u128,
    pub managed_cidrs: Vec<String>,
}

/// The position of the first listed node of a machine.
pub open spec fn find_node(nodes: Seq<GatewayNodeView>, id: u128) -> Option<int>
    decreases nodes.len(),
{
    if nodes.len() == 0 {
        None
    } else {
        match find_node(nodes.drop_last(), id) {
            Some(k) => Some(k),
            None => if nodes.last().machine_id == id {
                Some(nodes.len() - 1)
            } else {
                None
            },
        }
    }
}

/// The smallest network of `a` that `b` runs too.
pub open spec fn least_common(a: Seq<u128>, b: Seq<u128>) -> Option<u128>
    decreases a.len(),
{
    if a.len() == 0 {
        None
    } else {
        let prev = least_common(a.drop_last(), b);
        let x = a.last();
        if b.contains(x) && match prev {
            Some(y) => x < y,
            None => true,
        } {
            Some(x)
        } else {
            prev
        }
    }
}

/// The network a quickly applied policy runs on.
pub open spec fn quick_apply_network(req: QuickApplyGatewayPolicyRequest, nodes: Seq<GatewayNodeView>) -> Result<u128, PolicyError> {
    match (find_node(nodes, req.source_machine_id), find_node(nodes, req.exit_machine_id)) {
        (None, _) => Err(PolicyError::MachineOffline(req.source_machine_id)),
        (Some(_), None) => Err(PolicyError::MachineOffline(req.exit_machine_id)),
        (Some(s), Some(e)) => match req.network_instance_id {
            Some(n) => if nodes[s].running_network_instances@.contains(n)
                && nodes[e].running_network_instances@.contains(n) {
                Ok(n)
            } else {
                Err(PolicyError::NetworkInstanceNotReady)
            },
            None => match least_common(
                nodes[s].running_network_instances@,
                nodes[e].running_network_instances@,
            ) {
                Some(n) => Ok(n),
                None => Err(PolicyError::NetworkInstanceNotReady),
            },
        },
    }
}

/// The policy a quick apply builds for two listed, reporting machines.
pub open spec fn quick_policy(
    req: QuickApplyGatewayPolicyRequest,
    source: GatewayNodeView,
    exit: GatewayNodeView,
    policy_id: u128,
    desired_version: u64,
    network_instance_id: u128,
) -> GatewayPolicyView {
    GatewayPolicyView {
        policy_id,
        enabled: true,
        network_instance_id,
        source_machine_id: source.machine_id,
        managed_cidrs: if req.managed_cidrs@.len() == 0 {
            views(source.agent.lan_cidrs@)
        } else {
            views(req.managed_cidrs@)
        },
        ingress_ifaces: views(source.agent.ingress_ifaces@),
        include_device_traffic: req.include_device_traffic,
        exit_machine_id: exit.machine_id,
        exit_egress: ExitEgress { mode: ExitEgressMode::Auto, iface: None },
        desired_version,
        protect_control_plane: true,
        healthcheck: HealthcheckConfig { control_plane_timeout_seconds: 5, exit_timeout_seconds: 10 },
        rollback: RollbackConfig { enabled: true, max_fail_seconds: 30 },
    }
}

/// What a quick apply on a chosen network answers.
pub open spec fn quick_apply_on(
    req: QuickApplyGatewayPolicyRequest,
    nodes: Seq<GatewayNodeView>,
    policy_id: u128,
    desired_version: u64,
    network_instance_id: u128,
) -> Result<GatewayPolicyView, PolicyError> {
    if req.source_machine_id == req.exit_machine_id {
        Err(PolicyError::SourceEqualsExit)
    } else {
        match (find_node(nodes, req.source_machine_id), find_node(nodes, req.exit_machine_id)) {
            (None, _) => Err(PolicyError::MachineOffline(req.source_machine_id)),
            (Some(_), None) => Err(PolicyError::MachineOffline(req.exit_machine_id)),
            (Some(s), Some(e)) => {
                let source = nodes[s];
                let exit = nodes[e];
                if !source.machine_online {
                    Err(PolicyError::MachineOffline(source.machine_id))
                } else if !exit.machine_online {
                    Err(PolicyError::MachineOffline(exit.machine_id))
                } else if !source.agent.online {
                    Err(PolicyError::AgentReportStale(source.machine_id))
                } else if !exit.agent.online {
                    Err(PolicyError::AgentReportStale(exit.machine_id))
                } else if req.managed_cidrs@.len() == 0 && source.agent.lan_cidrs@.len() == 0 {
                    Err(PolicyError::MissingManagedCidrs)
                } else {
                    Ok(quick_policy(req, source, exit, policy_id, desired_version, network_instance_id))
                }
            },
        }
    }
}

/// What a quick apply answers.
pub open spec fn quick_apply(
    req: QuickApplyGatewayPolicyRequest,
    nodes: Seq<GatewayNodeView>,
    policy_id: u128,
    desired_version: u64,
) -> Result<GatewayPolicyView, PolicyError> {
    if req.source_machine_id == req.exit_machine_id {
        Err(PolicyError::SourceEqualsExit)
    } else {
        match quick_apply_network(req, nodes) {
            Err(e) => Err(e),
            Ok(n) => quick_apply_on(req, nodes, policy_id, desired_version, n),
        }
    }
}

/// A built policy, by its view.
pub open spec fn policy_result(r: Result<GatewayFullTunnelPolicy, PolicyError>) -> Result<GatewayPolicyView, PolicyError> {
    match r {
        Ok(p) => Ok(p@),
        Err(e) => Err(e),
    }
}

fn find_node_index(nodes: &[GatewayNodeView], id: u128) -> (r: Option<usize>)
    ensures
        match r {
            Some(k) => find_node(nodes@, id) == Some(k as int) && k < nodes@.len()
                && nodes@[k as int].machine_id == id,
            None => find_node(nodes@, id) is None,
        },
{
    let mut k: usize = 0;
    while k < nodes.len()
        invariant
            0 <= k <= nodes@.len(),
            find_node(nodes@.take(k as int), id) is None,
        decreases nodes.len() - k,
    {
        proof {
            assert(nodes@.take(k + 1).drop_last() =~= nodes@.take(k as int));
        }
        if nodes[k].machine_id == id {
            proof {
                assert(nodes@.take(k + 1).last() == nodes@[k as int]);
                lemma_find_node_prefix(nodes@, id, k + 1);
            }
            return Some(k);
        }
        k += 1;
    }
    proof {
        assert(nodes@.take(k as int) =~= nodes@);
    }
    None
}

proof fn lemma_find_node_prefix(nodes: Seq<GatewayNodeView>, id: u128, n: int)
    requires
        0 <= n <= nodes.len(),
        find_node(nodes.take(n), id) is Some,
    ensures
        find_node(nodes, id) == find_node(nodes.take(n), id),
    decreases nodes.len() - n,
{
    if n < nodes.len() {
        assert(nodes.take(n + 1).drop_last() =~= nodes.take(n));
        lemma_find_node_prefix(nodes, id, n + 1);
    } else {
        assert(nodes.take(n) =~= nodes);
    }
}

fn runs_network(ids: &Vec<u128>, n: u128) -> (r: bool)
    ensures
        r == ids@.contains(n),
{
    let mut k: usize = 0;
    while k < ids.len()
        invariant
            0 <= k <= ids@.len(),
            forall|j: int| 0 <= j < k ==> ids@[j] != n,
        decreases ids.len() - k,
    {
        if ids[k] == n {
            proof {
                assert(ids@[k as int] == n);
            }
            return true;
        }
        k += 1;
    }
    false
}

fn least_common_network(a: &Vec<u128>, b: &Vec<u128>) -> (r: Option<u128>)
    ensures
        r == least_common(a@, b@),
{
    let mut best: Option<u128> = None;
    let mut k: usize = 0;
    while k < a.len()
        invariant
            0 <= k <= a@.len(),
            best == least_common(a@.take(k as int), b@),
        decreases a.len() - k,
    {
        proof {
            assert(a@.take(k + 1).drop_last() =~= a@.take(k as int));
        }
        let x = a[k];
        if runs_network(b, x) {
            let better = match best {
                Some(y) => x < y,
                None => true,
            };
            if better {
                best = Some(x);
            }
        }
        k += 1;
    }
    proof {
        assert(a@.take(k as int) =~= a@);
    }
    best
}

/// The smallest common network is run by both and no smaller network is.
pub proof fn lemma_least_common(a: Seq<u128>, b: Seq<u128>)
    ensures
        match least_common(a, b) {
            Some(x) => a.contains(x) && b.contains(x) && forall|y: u128|
                a.contains(y) && b.contains(y) ==> x <= y,
            None => forall|y: u128| a.contains(y) ==> !b.contains(y),
        },
    decreases a.len(),
{
    if a.len() > 0 {
        let t = a.drop_last();
        lemma_least_common(t, b);
        assert forall|y: u128| a.contains(y) implies t.contains(y) || y == a.last() by {
            let j = choose|j: int| 0 <= j < a.len() && a[j] == y;
            if j < a.len() - 1 {
                assert(t[j] == y);
            }
        }
        assert forall|y: u128| t.contains(y) implies a.contains(y) by {
            let j = choose|j: int| 0 <= j < t.len() && t[j] == y;
            assert(a[j] == y);
        }
        assert(a[a.len() - 1] == a.last());
    }
}

fn select_quick_apply_network_instance(request: &QuickApplyGatewayPolicyRequest, nodes: &[GatewayNodeView]) -> (r:
    Result<u128, PolicyError>)
    ensures
        r == quick_apply_network(*request, nodes@),
{
    let s = match find_node_index(nodes, request.source_machine_id) {
        Some(k) => k,
        None => {
            return Err(PolicyError::MachineOffline(request.source_machine_id));
        },
    };
    let e = match find_node_index(nodes, request.exit_machine_id) {
        Some(k) => k,
        None => {
            return Err(PolicyError::MachineOffline(request.exit_machine_id));
        },
    };
    let source = &nodes[s];
    let exit = &nodes[e];
    match request.network_instance_id {
        Some(n) => {
            if runs_network(&source.running_network_instances, n) && runs_network(
                &exit.running_network_instances,
                n,
            ) {
                Ok(n)
            } else {
                Err(PolicyError::NetworkInstanceNotReady)
            }
        },
        None => match least_common_network(
            &source.running_network_instances,
            &exit.running_network_instances,
        ) {
            Some(n) => Ok(n),
            None => Err(PolicyError::NetworkInstanceNotReady),
        },
    }
}

/// Builds the policy for two listed machines on the network they both run: the one the request
/// names, else the smallest one they share.
pub fn build_quick_apply_gateway_policy(
    request: &QuickApplyGatewayPolicyRequest,
    nodes: &[GatewayNodeView],
    policy_id: u128,
    desired_version: u64,
) -> (r: Result<GatewayFullTunnelPolicy, PolicyError>)
    ensures
        policy_result(r) == quick_apply(*request, nodes@, policy_id, desired_version),
{
    if request.source_machine_id == request.exit_machine_id {
        return Err(PolicyError::SourceEqualsExit);
    }
    let network_instance_id = match select_quick_apply_network_instance(request, nodes) {
        Ok(n) => n,
        Err(e) => {
            return Err(e);
        },
    };
    build_quick_apply_gateway_policy_for_network(
        request,
        nodes,
        policy_id,
        desired_version,
        network_instance_id,
    )
}

/// Builds the policy for two listed machines on the given network.
pub fn build_quick_apply_gateway_policy_for_network(
    request: &QuickApplyGatewayPolicyRequest,
    nodes: &[GatewayNodeView],
    policy_id: u128,
    desired_version: u64,
    network_instance_id: u128,
) -> (r: Result<GatewayFullTunnelPolicy, PolicyError>)
    ensures
        policy_result(r) == quick_apply_on(
            *request,
            nodes@,
            policy_id,
            desired_version,
            network_instance_id,
        ),
{
    if request.source_machine_id == request.exit_machine_id {
        return Err(PolicyError::SourceEqualsExit);
    }
    let s = match find_node_index(nodes, request.source_machine_id) {
        Some(k) => k,
        None => {
            return Err(PolicyError::MachineOffline(request.source_machine_id));
        },
    };
    let e = match find_node_index(nodes, request.exit_machine_id) {
        Some(k) => k,
        None => {
            return Err(PolicyError::MachineOffline(request.exit_machine_id));
        },
    };
    let source = &nodes[s];
    let exit = &nodes[e];
    if !source.machine_online {
        return Err(PolicyError::MachineOffline(source.machine_id));
    }
    if !exit.machine_online {
        return Err(PolicyError::MachineOffline(exit.machine_id));
    }
    if !source.agent.online {
        return Err(PolicyError::AgentReportStale(source.machine_id));
    }
    if !exit.agent.online {
        return Err(PolicyError::AgentReportStale(exit.machine_id));
    }
    let managed_cidrs = if request.managed_cidrs.len() == 0 {
        match request.managed_cidrs_mode {
            ManagedCidrsMode::Auto => clone_strings(&source.agent.lan_cidrs),
        }
    } else {
        clone_strings(&request.managed_cidrs)
    };
    if managed_cidrs.len() == 0 {
        return Err(PolicyError::MissingManagedCidrs);
    }
    let policy = GatewayFullTunnelPolicy {
        policy_id,
        enabled: true,
        network_instance_id,
        source_machine_id: source.machine_id,
        managed_cidrs,
        ingress_ifaces: clone_strings(&source.agent.ingress_ifaces),
        include_device_traffic: request.include_device_traffic,
        exit_machine_id: exit.machine_id,
        exit_egress: ExitEgress::default(),
        desired_version,
        protect_control_plane: true,
        healthcheck: HealthcheckConfig::default(),
        rollback: RollbackConfig::default(),
    };
    match policy.validate() {
        Ok(()) => Ok(policy),
        Err(err) => Err(err),
    }
}


/// The first listed node of a machine is a node of that machine.
pub proof fn lemma_find_node_finds(nodes: Seq<GatewayNodeView>, id: u128)
    ensures
        find_node(nodes, id) matches Some(k) ==> 0 <= k < nodes.len() && nodes[k].machine_id == id,
    decreases nodes.len(),
{
    if nodes.len() > 0 {
        lemma_find_node_finds(nodes.drop_last(), id);
    }
}

/// A quickly applied policy is valid, enabled, protects the control plane, and routes the
/// requested source through the requested exit, on a network both of them run.
pub proof fn lemma_quick_apply_builds_valid_policy(
    req: QuickApplyGatewayPolicyRequest,
    nodes: Seq<GatewayNodeView>,
    policy_id: u128,
    desired_version: u64,
)
    ensures
        quick_apply(req, nodes, policy_id, desired_version) matches Ok(p) ==> {
            &&& gateway_validation(p) is Ok
            &&& p.enabled
            &&& p.protect_control_plane
            &&& p.policy_id == policy_id
            &&& p.desired_version == desired_version
            &&& p.source_machine_id == req.source_machine_id
            &&& p.exit_machine_id == req.exit_machine_id
            &&& p.managed_cidrs.len() > 0
            &&& exists|s: int, e: int|
                0 <= s < nodes.len() && 0 <= e < nodes.len() && nodes[s].machine_id
                    == req.source_machine_id && nodes[e].machine_id == req.exit_machine_id
                    && #[trigger] nodes[s].running_network_instances@.contains(p.network_instance_id)
                    && #[trigger] nodes[e].running_network_instances@.contains(p.network_instance_id)
        },
{
    lemma_find_node_finds(nodes, req.source_machine_id);
    lemma_find_node_finds(nodes, req.exit_machine_id);
    if let (Some(s), Some(e)) = (find_node(nodes, req.source_machine_id), find_node(nodes, req.exit_machine_id)) {
        lemma_least_common(nodes[s].running_network_instances@, nodes[e].running_network_instances@);
        if let Ok(p) = quick_apply(req, nodes, policy_id, desired_version) {
            assert(nodes[s].running_network_instances@.contains(p.network_instance_id));
            assert(nodes[e].running_network_instances@.contains(p.network_instance_id));
        }
    }
}


// ---------------------------------------------------------------------------
// Choosing what a quick apply stores
// ---------------------------------------------------------------------------
/// The position of the first enabled policy of a source.
pub open spec fn first_enabled_of_source(policies: Seq<GatewayFullTunnelPolicy>, source: u128) -> Option<int>
    decreases policies.len(),
{
    if policies.len() == 0 {
        None
    } else {
        match first_enabled_of_source(policies.drop_last(), source) {
            Some(k) => Some(k),
            None => if policies.last().enabled && policies.last().source_machine_id == source {
                Some(policies.len() - 1)
            } else {
                None
            },
        }
    }
}

/// The id and version a quick apply stores its policy under: those of the source's enabled
/// policy, one version on (saturating), when it has one; none when a fresh id at version 1 is
/// to be used.
pub open spec fn quick_apply_identity_of(policies: Seq<GatewayFullTunnelPolicy>, source: u128) -> Option<(u128, u64)> {
    match first_enabled_of_source(policies, source) {
        Some(k) => Some(
            (
                policies[k].policy_id,
                if policies[k].desired_version == u64::MAX {
                    u64::MAX
                } else {
                    (policies[k].desired_version + 1) as u64
                },
            ),
        ),
        None => None,
    }
}

pub fn quick_apply_identity(policies: &[GatewayFullTunnelPolicy], source_machine_id: u128) -> (r: Option<(u128, u64)>)
    ensures
        r == quick_apply_identity_of(policies@, source_machine_id),
{
    let mut k: usize = 0;
    while k < policies.len()
        invariant
            0 <= k <= policies@.len(),
            first_enabled_of_source(policies@.take(k as int), source_machine_id) is None,
        decreases policies.len() - k,
    {
        proof {
            assert(policies@.take(k + 1).drop_last() =~= policies@.take(k as int));
            assert(policies@.take(k + 1).last() == policies@[k as int]);
        }
        let p = &policies[k];
        if p.enabled && p.source_machine_id == source_machine_id {
            proof {
                lemma_first_enabled_prefix(policies@, source_machine_id, k + 1);
            }
            return Some((p.policy_id, p.desired_version.saturating_add(1)));
        }
        k += 1;
    }
    proof {
        assert(policies@.take(k as int) =~= policies@);
    }
    None
}

proof fn lemma_first_enabled_prefix(policies: Seq<GatewayFullTunnelPolicy>, source: u128, n: int)
    requires
        0 <= n <= policies.len(),
        first_enabled_of_source(policies.take(n), source) is Some,
    ensures
        first_enabled_of_source(policies, source) == first_enabled_of_source(policies.take(n), source),
    decreases policies.len() - n,
{
    if n < policies.len() {
        assert(policies.take(n + 1).drop_last() =~= policies.take(n));
        lemma_first_enabled_prefix(policies, source, n + 1);
    } else {
        assert(policies.take(n) =~= policies);
    }
}

/// The network a quick apply runs on, once both machines are listed, online and reporting: the
/// requested one when both run it, the smallest one both run, or, when they share none and none
/// was requested, a network to prepare for them (`None`).
pub open spec fn network_choice(req: QuickApplyGatewayPolicyRequest, nodes: Seq<GatewayNodeView>) -> Result<
    Option<u128>,
    PolicyError,
> {
    if req.source_machine_id == req.exit_machine_id {
        Err(PolicyError::SourceEqualsExit)
    } else {
        match (find_node(nodes, req.source_machine_id), find_node(nodes, req.exit_machine_id)) {
            (None, _) => Err(PolicyError::MachineOffline(req.source_machine_id)),
            (Some(_), None) => Err(PolicyError::MachineOffline(req.exit_machine_id)),
            (Some(s), Some(e)) => {
                let source = nodes[s];
                let exit = nodes[e];
                if !source.machine_online {
                    Err(PolicyError::MachineOffline(source.machine_id))
                } else if !exit.machine_online {
                    Err(PolicyError::MachineOffline(exit.machine_id))
                } else if !source.agent.online {
                    Err(PolicyError::AgentReportStale(source.machine_id))
                } else if !exit.agent.online {
                    Err(PolicyError::AgentReportStale(exit.machine_id))
                } else {
                    match req.network_instance_id {
                        Some(n) => if source.running_network_instances@.contains(n)
                            && exit.running_network_instances@.contains(n) {
                            Ok(Some(n))
                        } else {
                            Err(PolicyError::NetworkInstanceNotReady)
                        },
                        None => Ok(
                            least_common(
                                source.running_network_instances@,
                                exit.running_network_instances@,
                            ),
                        ),
                    }
                }
            },
        }
    }
}

pub fn select_or_prepare_network(request: &QuickApplyGatewayPolicyRequest, nodes: &[GatewayNodeView]) -> (r:
    Result<Option<u128>, PolicyError>)
    ensures
        r == network_choice(*request, nodes@),
{
    if request.source_machine_id == request.exit_machine_id {
        return Err(PolicyError::SourceEqualsExit);
    }
    let s = match find_node_index(nodes, request.source_machine_id) {
        Some(k) => k,
        None => {
            return Err(PolicyError::MachineOffline(request.source_machine_id));
        },
    };
    let e = match find_node_index(nodes, request.exit_machine_id) {
        Some(k) => k,
        None => {
            return Err(PolicyError::MachineOffline(request.exit_machine_id));
        },
    };
    let source = &nodes[s];
    let exit = &nodes[e];
    if !source.machine_online {
        return Err(PolicyError::MachineOffline(source.machine_id));
    }
    if !exit.machine_online {
        return Err(PolicyError::MachineOffline(exit.machine_id));
    }
    if !source.agent.online {
        return Err(PolicyError::AgentReportStale(source.machine_id));
    }
    if !exit.agent.online {
        return Err(PolicyError::AgentReportStale(exit.machine_id));
    }
    match request.network_instance_id {
        Some(n) => {
            if runs_network(&source.running_network_instances, n) && runs_network(
                &exit.running_network_instances,
                n,
            ) {
                Ok(Some(n))
            } else {
                Err(PolicyError::NetworkInstanceNotReady)
            }
        },
        None => Ok(
            least_common_network(&source.running_network_instances, &exit.running_network_instances),
        ),
    }
}

/// The policy with the given id, switched off one version on (saturating), or `PolicyNotFound`.
pub open spec fn disabled_of(policies: Seq<GatewayFullTunnelPolicy>, policy_id: u128) -> Result<GatewayPolicyView, PolicyError> {
    match first_with_id(policies, policy_id) {
        None => Err(PolicyError::PolicyNotFound),
        Some(k) => Ok(
            GatewayPolicyView {
                enabled: false,
                desired_version: if policies[k].desired_version == u64::MAX {
                    u64::MAX
                } else {
                    (policies[k].desired_version + 1) as u64
                },
                ..policies[k]@
            },
        ),
    }
}

/// The position of the first policy with an id.
pub open spec fn first_with_id(policies: Seq<GatewayFullTunnelPolicy>, policy_id: u128) -> Option<int>
    decreases policies.len(),
{
    if policies.len() == 0 {
        None
    } else {
        match first_with_id(policies.drop_last(), policy_id) {
            Some(k) => Some(k),
            None => if policies.last().policy_id == policy_id {
                Some(policies.len() - 1)
            } else {
                None
            },
        }
    }
}

proof fn lemma_first_with_id_prefix(policies: Seq<GatewayFullTunnelPolicy>, policy_id: u128, n: int)
    requires
        0 <= n <= policies.len(),
        first_with_id(policies.take(n), policy_id) is Some,
    ensures
        first_with_id(policies, policy_id) == first_with_id(policies.take(n), policy_id),
    decreases policies.len() - n,
{
    if n < policies.len() {
        assert(policies.take(n + 1).drop_last() =~= policies.take(n));
        lemma_first_with_id_prefix(policies, policy_id, n + 1);
    } else {
        assert(policies.take(n) =~= policies);
    }
}

/// The policy that disabling the one with the given id stores.
pub fn disabled_policy(policies: &[GatewayFullTunnelPolicy], policy_id: u128) -> (r: Result<
    GatewayFullTunnelPolicy,
    PolicyError,
>)
    ensures
        policy_result(r) == disabled_of(policies@, policy_id),
{
    let mut k: usize = 0;
    while k < policies.len()
        invariant
            0 <= k <= policies@.len(),
            first_with_id(policies@.take(k as int), policy_id) is None,
        decreases policies.len() - k,
    {
        proof {
            assert(policies@.take(k + 1).drop_last() =~= policies@.take(k as int));
            assert(policies@.take(k + 1).last() == policies@[k as int]);
        }
        if policies[k].policy_id == policy_id {
            proof {
                lemma_first_with_id_prefix(policies@, policy_id, k + 1);
            }
            let mut p = policies[k].copy();
            p.enabled = false;
            p.desired_version = p.desired_version.saturating_add(1);
            return Ok(p);
        }
        k += 1;
    }
    proof {
        assert(policies@.take(k as int) =~= policies@);
    }
    Err(PolicyError::PolicyNotFound)
}


/// A connected machine as listed: its hostname only when it is not blank, and the address it
/// connects from as its public address.
pub fn machine_snapshot(machine_id: u128, hostname: String, client_url: String, running_network_instances: Vec<u128>) -> (r:
    GatewayNodeMachineSnapshot)
    ensures
        r.machine_id == machine_id,
        r.hostname == (if blank(hostname@) {
            None::<String>
        } else {
            Some(hostname)
        }),
        r.public_ip == Some(client_url),
        r.running_network_instances == running_network_instances,
{
    let hostname = if is_blank(hostname.as_str()) {
        None
    } else {
        Some(hostname)
    };
    GatewayNodeMachineSnapshot {
        machine_id,
        hostname,
        public_ip: Some(client_url),
        running_network_instances,
    }
}

/// A quickly applied policy keeps the request's choices: whether device traffic is managed,
/// and the managed CIDRs when the request names any (else the source's reported LAN CIDRs); it
/// is enabled, protects the control plane and rolls back, for the requested machines, on the
/// network it is applied on.
pub proof fn lemma_quick_apply_keeps_request_choices(
    req: QuickApplyGatewayPolicyRequest,
    nodes: Seq<GatewayNodeView>,
    policy_id: u128,
    desired_version: u64,
    network_instance_id: u128,
)
    ensures
        quick_apply_on(req, nodes, policy_id, desired_version, network_instance_id) matches Ok(p) ==> {
            &&& p.include_device_traffic == req.include_device_traffic
            &&& req.managed_cidrs@.len() > 0 ==> p.managed_cidrs == views(req.managed_cidrs@)
            &&& p.network_instance_id == network_instance_id
            &&& p.source_machine_id == req.source_machine_id
            &&& p.exit_machine_id == req.exit_machine_id
            &&& p.enabled && p.protect_control_plane && p.rollback.enabled
        },
        quick_apply(req, nodes, policy_id, desired_version) matches Ok(p) ==> {
            &&& p.include_device_traffic == req.include_device_traffic
            &&& req.managed_cidrs@.len() > 0 ==> p.managed_cidrs == views(req.managed_cidrs@)
        },
{
    lemma_find_node_finds(nodes, req.source_machine_id);
    lemma_find_node_finds(nodes, req.exit_machine_id);
}

} // verus!
