use vstd::prelude::*;

use crate::command::{
    append_plans, cv, lemma_plans_push, plans, sh, sh_command, str_views, CmdView, CommandPlan,
};
use crate::policy::{
    validation, DevicePolicy, DevicePolicyRole, PolicyError,
};
use crate::seqs::{
    all_of, lemma_all_of_concat, lemma_all_of_flat_map, lemma_all_of_map_values,
    lemma_concat_contains, lemma_filter_flat_map_contains, lemma_filter_take, lemma_flat_map_contains,
    lemma_flat_map_empty, lemma_flat_map_push, lemma_flat_map_take,
};
use crate::shell::{shell_single_quote, single_quoted};
use crate::text::{decimal, owned, push_str, str_eq, trim, trimmed, u64_to_decimal};

verus! {

/// Plans `ip rule`/`ip route`/`nft` commands for a device policy on plain Linux.
#[derive(Debug, Clone)]
pub struct LinuxBackend {
    table_id: u32,
    mark: String,
    nft_table: String,
}

/// The settings of a Linux backend.
pub struct LinuxView {
    pub table_id: u32,
    pub mark: Seq<char>,
    pub nft_table: Seq<char>,
}

impl View for LinuxBackend {
    type V = LinuxView;

    closed spec fn view(&self) -> LinuxView {
        LinuxView { table_id: self.table_id, mark: self.mark@, nft_table: self.nft_table@ }
    }
}

// ---------------------------------------------------------------------------
// The commands, as text
// ---------------------------------------------------------------------------
/// The routing table, in decimal.
pub open spec fn tbl(b: LinuxView) -> Seq<char> {
    decimal(b.table_id as nat)
}

/// An address the policy may leave out, or the empty text.
pub open spec fn text_or_empty(v: Option<String>) -> Seq<char> {
    match v {
        Some(s) => s@,
        None => Seq::empty(),
    }
}

pub open spec fn is_default_route(cidr: Seq<char>) -> bool {
    trim(cidr) == "0.0.0.0/0"@
}

pub open spec fn not_default_route() -> spec_fn(String) -> bool {
    |c: String| !is_default_route(c@)
}

pub open spec fn any_default_route(cidrs: Seq<String>) -> bool {
    exists|k: int| 0 <= k < cidrs.len() && is_default_route(#[trigger] cidrs[k]@)
}

pub open spec fn nft(args: Seq<Seq<char>>) -> CmdView {
    cv("nft"@, args)
}

pub open spec fn ensure_table(b: LinuxView) -> CmdView {
    sh(
        "nft list table inet "@ + b.nft_table + " >/dev/null 2>&1 || nft add table inet "@
            + b.nft_table,
    )
}

pub open spec fn delete_by_comment(b: LinuxView, chain: Seq<char>, comment: Seq<char>) -> CmdView {
    cv(
        "sh"@,
        seq![
            "-c"@,
            "nft -a list chain inet "@ + b.nft_table + " "@ + chain
                + " 2>/dev/null | awk -v c=\"$1\" 'index($0, c) { print $NF }' | while read -r handle; do [ -n \"$handle\" ] && nft delete rule inet "@
                + b.nft_table + " "@ + chain + " handle \"$handle\"; done"@,
            "easytier-agent-cleanup"@,
            comment,
        ],
    )
}

pub open spec fn chain_script(b: LinuxView, chain: Seq<char>, kind: Seq<char>) -> Seq<char> {
    "nft list chain inet "@ + b.nft_table + " "@ + chain + " >/dev/null 2>&1 || nft add chain inet "@
        + b.nft_table + " "@ + chain + " '{ type "@ + kind + "; }'"@
}

pub open spec fn forward_chain(b: LinuxView) -> CmdView {
    sh(chain_script(b, "forward"@, "filter hook forward priority filter"@))
}

pub open spec fn output_chain(b: LinuxView) -> CmdView {
    sh(chain_script(b, "output"@, "route hook output priority mangle"@))
}

pub open spec fn postrouting_chain(b: LinuxView) -> CmdView {
    sh(chain_script(b, "postrouting"@, "nat hook postrouting priority srcnat"@))
}

pub open spec fn rule_from_apply(cidr: Seq<char>, t: Seq<char>) -> CmdView {
    sh(
        "ip rule del from "@ + cidr + " lookup "@ + t + " 2>/dev/null || true; ip rule add from "@
            + cidr + " lookup "@ + t,
    )
}

pub open spec fn rule_from_delete(cidr: Seq<char>, t: Seq<char>) -> CmdView {
    sh("ip rule del from "@ + cidr + " lookup "@ + t + " 2>/dev/null || true"@)
}

pub open spec fn rule_iif_from_apply(iface: Seq<char>, cidr: Seq<char>, t: Seq<char>) -> CmdView {
    sh(
        "ip rule del iif "@ + iface + " from "@ + cidr + " lookup "@ + t
            + " 2>/dev/null || true; ip rule add iif "@ + iface + " from "@ + cidr + " lookup "@ + t,
    )
}

pub open spec fn rule_iif_from_delete(iface: Seq<char>, cidr: Seq<char>, t: Seq<char>) -> CmdView {
    sh(
        "ip rule del iif "@ + iface + " from "@ + cidr + " lookup "@ + t
            + " 2>/dev/null || true"@,
    )
}

/// The script that adds or deletes a rule for each local address of an ingress interface.
pub open spec fn ingress_local_rule(iface: Seq<char>, t: Seq<char>, action: Seq<char>) -> CmdView {
    sh(
        "ip -4 -o addr show dev "@ + single_quoted(iface)
            + " | awk '{print $4}' | while read -r cidr; do [ -n \"$cidr\" ] || continue; ip rule "@
            + action + " pref 100 from \"$cidr\" lookup "@ + t + " 2>/dev/null || true; done"@,
    )
}

pub open spec fn fwmark_apply(b: LinuxView) -> CmdView {
    sh(
        "ip rule del fwmark "@ + b.mark + " lookup "@ + tbl(b)
            + " 2>/dev/null || true; ip rule add fwmark "@ + b.mark + " lookup "@ + tbl(b),
    )
}

pub open spec fn fwmark_delete(b: LinuxView) -> CmdView {
    sh("ip rule del fwmark "@ + b.mark + " lookup "@ + tbl(b) + " 2>/dev/null || true"@)
}

pub open spec fn flush_table(t: Seq<char>) -> CmdView {
    sh("ip route flush table "@ + t + " 2>/dev/null || true"@)
}

pub open spec fn main_lookup_apply(iface: Seq<char>) -> CmdView {
    sh(
        "ip rule del pref 100 iif "@ + iface
            + " lookup main 2>/dev/null || true; ip rule add pref 100 iif "@ + iface
            + " lookup main"@,
    )
}

pub open spec fn main_lookup_delete(iface: Seq<char>) -> CmdView {
    sh("ip rule del pref 100 iif "@ + iface + " lookup main 2>/dev/null || true"@)
}

pub open spec fn route_delete(cidr: Seq<char>) -> CmdView {
    sh("ip route del "@ + cidr + " 2>/dev/null || true"@)
}

pub open spec fn iif_apply_fn(cidr: Seq<char>, t: Seq<char>) -> spec_fn(String) -> CmdView {
    |iface: String| rule_iif_from_apply(iface@, cidr, t)
}

pub open spec fn iif_delete_fn(cidr: Seq<char>, t: Seq<char>) -> spec_fn(String) -> CmdView {
    |iface: String| rule_iif_from_delete(iface@, cidr, t)
}

pub open spec fn ingress_local_fn(t: Seq<char>, action: Seq<char>) -> spec_fn(String) -> CmdView {
    |iface: String| ingress_local_rule(iface@, t, action)
}

pub open spec fn rule_block_apply_fn(t: Seq<char>, ifaces: Seq<String>) -> spec_fn(
    String,
) -> Seq<CmdView> {
    |cidr: String| seq![rule_from_apply(cidr@, t)] + ifaces.map_values(iif_apply_fn(cidr@, t))
}

pub open spec fn rule_block_delete_fn(t: Seq<char>, ifaces: Seq<String>) -> spec_fn(
    String,
) -> Seq<CmdView> {
    |cidr: String| seq![rule_from_delete(cidr@, t)] + ifaces.map_values(iif_delete_fn(cidr@, t))
}

pub open spec fn forward_pair_fn(b: LinuxView, iface: Seq<char>, comment: Seq<char>) -> spec_fn(
    String,
) -> Seq<CmdView> {
    |cidr: String|
        seq![
            nft(
                seq![
                    "add"@,
                    "rule"@,
                    "inet"@,
                    b.nft_table,
                    "forward"@,
                    "ip"@,
                    "saddr"@,
                    cidr@,
                    "oifname"@,
                    iface,
                    "accept"@,
                    "comment"@,
                    comment,
                ],
            ),
            nft(
                seq![
                    "add"@,
                    "rule"@,
                    "inet"@,
                    b.nft_table,
                    "forward"@,
                    "ip"@,
                    "saddr"@,
                    cidr@,
                    "oifname"@,
                    "!="@,
                    iface,
                    "drop"@,
                    "comment"@,
                    comment,
                ],
            ),
        ]
}

pub open spec fn ingress_pair_fn(b: LinuxView, iface: Seq<char>, comment: Seq<char>) -> spec_fn(
    String,
) -> Seq<CmdView> {
    |ingress: String|
        seq![
            nft(
                seq![
                    "add"@,
                    "rule"@,
                    "inet"@,
                    b.nft_table,
                    "forward"@,
                    "iifname"@,
                    ingress@,
                    "oifname"@,
                    iface,
                    "accept"@,
                    "comment"@,
                    comment,
                ],
            ),
            nft(
                seq![
                    "add"@,
                    "rule"@,
                    "inet"@,
                    b.nft_table,
                    "forward"@,
                    "iifname"@,
                    ingress@,
                    "oifname"@,
                    "!="@,
                    iface,
                    "drop"@,
                    "comment"@,
                    comment,
                ],
            ),
        ]
}

pub open spec fn masquerade(b: LinuxView, source: Seq<char>, comment: Seq<char>) -> CmdView {
    nft(
        seq![
            "add"@,
            "rule"@,
            "inet"@,
            b.nft_table,
            "postrouting"@,
            "ip"@,
            "saddr"@,
            source,
            "masquerade"@,
            "comment"@,
            comment,
        ],
    )
}

pub open spec fn masquerade_fn(b: LinuxView, comment: Seq<char>) -> spec_fn(String) -> CmdView {
    |cidr: String| masquerade(b, cidr@, comment)
}

pub open spec fn route_back_fn(source_peer: Seq<char>, iface: Seq<char>) -> spec_fn(
    String,
) -> CmdView {
    |cidr: String|
        cv("ip"@, seq!["route"@, "replace"@, cidr@, "via"@, source_peer, "dev"@, iface])
}

pub open spec fn route_delete_fn() -> spec_fn(String) -> Seq<CmdView> {
    |cidr: String| seq![route_delete(cidr@)]
}

/// The first commands on a source device: show the default route, route the table to the exit
/// peer, and keep a blackhole under it so that nothing leaks when the tunnel is down.
pub open spec fn linux_source_head(b: LinuxView, p: DevicePolicy) -> Seq<CmdView> {
    let t = tbl(b);
    seq![
        cv("ip"@, seq!["route"@, "show"@, "default"@]),
        cv(
            "ip"@,
            seq![
                "route"@,
                "replace"@,
                "default"@,
                "via"@,
                text_or_empty(p.exit_peer_ipv4),
                "dev"@,
                p.easytier_iface@,
                "table"@,
                t,
            ],
        ),
        cv(
            "ip"@,
            seq!["route"@, "replace"@, "blackhole"@, "default"@, "table"@, t, "metric"@, "32767"@],
        ),
    ]
}

/// The forward chain, made ready and cleared of this policy's old rules.
pub open spec fn forward_setup(b: LinuxView, dp: Seq<char>) -> Seq<CmdView> {
    seq![ensure_table(b), forward_chain(b), delete_by_comment(b, "forward"@, dp)]
}

/// The commands that mark the device's own traffic for the policy table.
pub open spec fn device_mark(b: LinuxView, dp: Seq<char>) -> Seq<CmdView> {
    seq![
        ensure_table(b),
        output_chain(b),
        delete_by_comment(b, "output"@, dp),
        nft(
            seq![
                "add"@,
                "rule"@,
                "inet"@,
                b.nft_table,
                "output"@,
                "meta"@,
                "mark"@,
                "set"@,
                b.mark,
                "comment"@,
                dp,
            ],
        ),
        fwmark_apply(b),
    ]
}

/// The commands that route a source device's managed traffic to the exit peer.
pub open spec fn linux_source_apply(b: LinuxView, p: DevicePolicy) -> Seq<CmdView> {
    let t = tbl(b);
    let iface = p.easytier_iface@;
    let dp = p.device_policy_id@;
    let cidrs = p.managed_cidrs@;
    let ifaces = p.ingress_ifaces@;
    linux_source_head(b, p) + cidrs.flat_map(rule_block_apply_fn(t, ifaces)) + ifaces.map_values(
        ingress_local_fn(t, "add"@),
    ) + forward_setup(b, dp) + cidrs.filter(not_default_route()).flat_map(
        forward_pair_fn(b, iface, dp),
    ) + (if any_default_route(cidrs) {
        ifaces.flat_map(ingress_pair_fn(b, iface, dp))
    } else {
        Seq::empty()
    }) + (if p.include_device_traffic {
        device_mark(b, dp)
    } else {
        Seq::empty()
    })
}

/// The device-traffic rules a source cleanup removes.
pub open spec fn device_unmark(b: LinuxView, dp: Seq<char>) -> Seq<CmdView> {
    seq![fwmark_delete(b), delete_by_comment(b, "output"@, dp)]
}

/// The commands that take a source device's rules away again.
pub open spec fn linux_source_cleanup(b: LinuxView, p: DevicePolicy) -> Seq<CmdView> {
    let t = tbl(b);
    let dp = p.device_policy_id@;
    let ifaces = p.ingress_ifaces@;
    ifaces.map_values(ingress_local_fn(t, "del"@)) + p.managed_cidrs@.filter(
        not_default_route(),
    ).flat_map(rule_block_delete_fn(t, ifaces)) + (if p.include_device_traffic {
        device_unmark(b, dp)
    } else {
        Seq::empty()
    }) + seq![flush_table(t), delete_by_comment(b, "forward"@, dp)]
}

/// The first commands on an exit device: forwarding on, tables and chains ready, replies from
/// the tunnel looked up in the main table, and tunnel traffic accepted for forwarding.
pub open spec fn linux_exit_head(b: LinuxView, p: DevicePolicy) -> Seq<CmdView> {
    let iface = p.easytier_iface@;
    let dp = p.device_policy_id@;
    seq![
        cv("sysctl"@, seq!["-w"@, "net.ipv4.ip_forward=1"@]),
        ensure_table(b),
        postrouting_chain(b),
        forward_chain(b),
        main_lookup_apply(iface),
        delete_by_comment(b, "forward"@, dp),
        nft(
            seq![
                "add"@,
                "rule"@,
                "inet"@,
                b.nft_table,
                "forward"@,
                "iifname"@,
                iface,
                "accept"@,
                "comment"@,
                dp,
            ],
        ),
        delete_by_comment(b, "postrouting"@, dp),
    ]
}

/// The commands that let an exit device forward and masquerade a source's traffic.
pub open spec fn linux_exit_apply(b: LinuxView, p: DevicePolicy) -> Seq<CmdView> {
    let iface = p.easytier_iface@;
    let dp = p.device_policy_id@;
    let source_peer = text_or_empty(p.source_peer_ipv4);
    linux_exit_head(b, p) + (if p.include_device_traffic {
        seq![masquerade(b, source_peer + "/32"@, dp)]
    } else {
        Seq::empty()
    }) + p.managed_cidrs@.map_values(masquerade_fn(b, dp)) + p.managed_cidrs@.map_values(
        route_back_fn(source_peer, iface),
    )
}

/// The first commands of an exit cleanup.
pub open spec fn linux_exit_cleanup_head(b: LinuxView, p: DevicePolicy) -> Seq<CmdView> {
    let dp = p.device_policy_id@;
    seq![
        delete_by_comment(b, "postrouting"@, dp),
        delete_by_comment(b, "forward"@, dp),
        main_lookup_delete(p.easytier_iface@),
    ]
}

/// The commands that take an exit device's rules away again.
pub open spec fn linux_exit_cleanup(b: LinuxView, p: DevicePolicy) -> Seq<CmdView> {
    linux_exit_cleanup_head(b, p) + p.managed_cidrs@.filter(not_default_route()).flat_map(
        route_delete_fn(),
    ) + seq![flush_table(tbl(b))]
}

/// What `plan_apply` answers: the policy's validation error, or the role's apply commands.
pub open spec fn linux_plan_apply(b: LinuxView, p: DevicePolicy) -> Result<
    Seq<CmdView>,
    PolicyError,
> {
    match validation(p) {
        Err(e) => Err(e),
        Ok(_) => Ok(
            match p.role {
                DevicePolicyRole::ClientGatewayViaPeer => linux_source_apply(b, p),
                DevicePolicyRole::ProvideExitForGateway => linux_exit_apply(b, p),
            },
        ),
    }
}

/// What `plan_cleanup` answers: the policy's validation error, or the role's cleanup commands.
pub open spec fn linux_plan_cleanup(b: LinuxView, p: DevicePolicy) -> Result<
    Seq<CmdView>,
    PolicyError,
> {
    match validation(p) {
        Err(e) => Err(e),
        Ok(_) => Ok(
            match p.role {
                DevicePolicyRole::ClientGatewayViaPeer => linux_source_cleanup(b, p),
                DevicePolicyRole::ProvideExitForGateway => linux_exit_cleanup(b, p),
            },
        ),
    }
}

/// A plan result, taken by its commands' views.
pub open spec fn plan_result_view(r: Result<Vec<CommandPlan>, PolicyError>) -> Result<
    Seq<CmdView>,
    PolicyError,
> {
    match r {
        Ok(v) => Ok(plans(v@)),
        Err(e) => Err(e),
    }
}

// ---------------------------------------------------------------------------
// Building blocks
// ---------------------------------------------------------------------------
pub fn push_plan(out: &mut Vec<CommandPlan>, c: CommandPlan)
    ensures
        plans(final(out)@) == plans(old(out)@).push(c@),
{
    let ghost before = out@;
    out.push(c);
    proof {
        lemma_plans_push(before, c);
    }
}

pub fn no_plans() -> (r: Vec<CommandPlan>)
    ensures
        plans(r@) == Seq::<CmdView>::empty(),
{
    let r: Vec<CommandPlan> = Vec::new();
    assert(plans(r@) =~= Seq::<CmdView>::empty());
    r
}

fn text_or_empty_of(v: &Option<String>) -> (r: String)
    ensures
        r@ == text_or_empty(*v),
{
    match v {
        Some(s) => s.clone(),
        None => String::new(),
    }
}

pub fn cidr_is_default_route(cidr: &str) -> (r: bool)
    ensures
        r == is_default_route(cidr@),
{
    let t = trimmed(cidr);
    str_eq(t.as_str(), "0.0.0.0/0")
}

pub fn has_default_route(cidrs: &Vec<String>) -> (r: bool)
    ensures
        r == any_default_route(cidrs@),
{
    let mut i: usize = 0;
    while i < cidrs.len()
        invariant
            0 <= i <= cidrs@.len(),
            forall|k: int| 0 <= k < i ==> !is_default_route(#[trigger] cidrs@[k]@),
        decreases cidrs.len() - i,
    {
        if cidr_is_default_route(cidrs[i].as_str()) {
            return true;
        }
        i += 1;
    }
    false
}

fn nft_command(args: &[&str]) -> (c: CommandPlan)
    ensures
        c@ == nft(str_views(args@)),
{
    CommandPlan::new("nft", args)
}

fn single(c: CommandPlan) -> (r: Vec<CommandPlan>)
    ensures
        plans(r@) == seq![c@],
{
    let mut r = no_plans();
    push_plan(&mut r, c);
    r
}

fn pair(a: CommandPlan, b: CommandPlan) -> (r: Vec<CommandPlan>)
    ensures
        plans(r@) == seq![a@, b@],
{
    let mut r = no_plans();
    push_plan(&mut r, a);
    push_plan(&mut r, b);
    r
}

fn rule_from_apply_command(cidr: &str, t: &str) -> (c: CommandPlan)
    ensures
        c@ == rule_from_apply(cidr@, t@),
{
    let mut s = owned("ip rule del from ");
    push_str(&mut s, cidr);
    push_str(&mut s, " lookup ");
    push_str(&mut s, t);
    push_str(&mut s, " 2>/dev/null || true; ip rule add from ");
    push_str(&mut s, cidr);
    push_str(&mut s, " lookup ");
    push_str(&mut s, t);
    sh_command(s.as_str())
}

fn rule_from_delete_command(cidr: &str, t: &str) -> (c: CommandPlan)
    ensures
        c@ == rule_from_delete(cidr@, t@),
{
    let mut s = owned("ip rule del from ");
    push_str(&mut s, cidr);
    push_str(&mut s, " lookup ");
    push_str(&mut s, t);
    push_str(&mut s, " 2>/dev/null || true");
    sh_command(s.as_str())
}

fn rule_iif_from_command(iface: &str, cidr: &str, t: &str, apply: bool) -> (c: CommandPlan)
    ensures
        c@ == (if apply {
            rule_iif_from_apply(iface@, cidr@, t@)
        } else {
            rule_iif_from_delete(iface@, cidr@, t@)
        }),
{
    let mut s = owned("ip rule del iif ");
    push_str(&mut s, iface);
    push_str(&mut s, " from ");
    push_str(&mut s, cidr);
    push_str(&mut s, " lookup ");
    push_str(&mut s, t);
    if apply {
        push_str(&mut s, " 2>/dev/null || true; ip rule add iif ");
        push_str(&mut s, iface);
        push_str(&mut s, " from ");
        push_str(&mut s, cidr);
        push_str(&mut s, " lookup ");
        push_str(&mut s, t);
    } else {
        push_str(&mut s, " 2>/dev/null || true");
    }
    sh_command(s.as_str())
}

/// The commands for one managed CIDR: its source rule, then one per ingress interface.
fn rule_block(cidr: &String, ifaces: &Vec<String>, t: &str, apply: bool) -> (r: Vec<CommandPlan>)
    ensures
        plans(r@) == (if apply {
            rule_block_apply_fn(t@, ifaces@)(*cidr)
        } else {
            rule_block_delete_fn(t@, ifaces@)(*cidr)
        }),
{
    let first = if apply {
        rule_from_apply_command(cidr.as_str(), t)
    } else {
        rule_from_delete_command(cidr.as_str(), t)
    };
    let mut r = single(first);
    let ghost head = plans(r@);
    let mut j: usize = 0;
    while j < ifaces.len()
        invariant
            0 <= j <= ifaces@.len(),
            plans(r@) == head + (if apply {
                ifaces@.take(j as int).map_values(iif_apply_fn(cidr@, t@))
            } else {
                ifaces@.take(j as int).map_values(iif_delete_fn(cidr@, t@))
            }),
        decreases ifaces.len() - j,
    {
        let c = rule_iif_from_command(ifaces[j].as_str(), cidr.as_str(), t, apply);
        push_plan(&mut r, c);
        assert(ifaces@.take(j + 1).map_values(iif_apply_fn(cidr@, t@)) =~= ifaces@.take(
            j as int,
        ).map_values(iif_apply_fn(cidr@, t@)).push(rule_iif_from_apply(ifaces@[j as int]@, cidr@, t@)));
        assert(ifaces@.take(j + 1).map_values(iif_delete_fn(cidr@, t@)) =~= ifaces@.take(
            j as int,
        ).map_values(iif_delete_fn(cidr@, t@)).push(rule_iif_from_delete(ifaces@[j as int]@, cidr@, t@)));
        j += 1;
    }
    assert(ifaces@.take(ifaces@.len() as int) == ifaces@);
    r
}


fn ingress_local_rule_command(iface: &str, t: &str, action: &str) -> (c: CommandPlan)
    ensures
        c@ == ingress_local_rule(iface@, t@, action@),
{
    let quoted = shell_single_quote(iface);
    let mut s = owned("ip -4 -o addr show dev ");
    push_str(&mut s, quoted.as_str());
    push_str(
        &mut s,
        " | awk '{print $4}' | while read -r cidr; do [ -n \"$cidr\" ] || continue; ip rule ",
    );
    push_str(&mut s, action);
    push_str(&mut s, " pref 100 from \"$cidr\" lookup ");
    push_str(&mut s, t);
    push_str(&mut s, " 2>/dev/null || true; done");
    sh_command(s.as_str())
}

fn ingress_local_rules(ifaces: &Vec<String>, t: &str, action: &str) -> (r: Vec<CommandPlan>)
    ensures
        plans(r@) == ifaces@.map_values(ingress_local_fn(t@, action@)),
{
    let mut r = no_plans();
    let mut j: usize = 0;
    while j < ifaces.len()
        invariant
            0 <= j <= ifaces@.len(),
            plans(r@) == ifaces@.take(j as int).map_values(ingress_local_fn(t@, action@)),
        decreases ifaces.len() - j,
    {
        let c = ingress_local_rule_command(ifaces[j].as_str(), t, action);
        push_plan(&mut r, c);
        assert(ifaces@.take(j + 1).map_values(ingress_local_fn(t@, action@)) =~= ifaces@.take(
            j as int,
        ).map_values(ingress_local_fn(t@, action@)).push(
            ingress_local_rule(ifaces@[j as int]@, t@, action@),
        ));
        j += 1;
    }
    assert(ifaces@.take(ifaces@.len() as int) == ifaces@);
    r
}

fn flush_table_command(t: &str) -> (c: CommandPlan)
    ensures
        c@ == flush_table(t@),
{
    let mut s = owned("ip route flush table ");
    push_str(&mut s, t);
    push_str(&mut s, " 2>/dev/null || true");
    sh_command(s.as_str())
}

fn main_lookup_command(iface: &str, apply: bool) -> (c: CommandPlan)
    ensures
        c@ == (if apply {
            main_lookup_apply(iface@)
        } else {
            main_lookup_delete(iface@)
        }),
{
    let mut s = owned("ip rule del pref 100 iif ");
    push_str(&mut s, iface);
    if apply {
        push_str(&mut s, " lookup main 2>/dev/null || true; ip rule add pref 100 iif ");
        push_str(&mut s, iface);
        push_str(&mut s, " lookup main");
    } else {
        push_str(&mut s, " lookup main 2>/dev/null || true");
    }
    sh_command(s.as_str())
}

fn route_delete_command(cidr: &str) -> (c: CommandPlan)
    ensures
        c@ == route_delete(cidr@),
{
    let mut s = owned("ip route del ");
    push_str(&mut s, cidr);
    push_str(&mut s, " 2>/dev/null || true");
    sh_command(s.as_str())
}

impl LinuxBackend {
    /// The backend every platform uses by default: table 126, mark 0x7e, `nft` table
    /// `easytier_agent`.
    pub open spec fn default_view() -> LinuxView {
        LinuxView { table_id: 126, mark: "0x7e"@, nft_table: "easytier_agent"@ }
    }

    pub fn new(table_id: u32, mark: &str, nft_table: &str) -> (r: LinuxBackend)
        ensures
            r@ == (LinuxView { table_id, mark: mark@, nft_table: nft_table@ }),
    {
        LinuxBackend { table_id, mark: owned(mark), nft_table: owned(nft_table) }
    }

    pub fn table_id(&self) -> (r: u32)
        ensures
            r == self@.table_id,
    {
        self.table_id
    }

    fn table_text(&self) -> (r: String)
        ensures
            r@ == tbl(self@),
    {
        u64_to_decimal(self.table_id as u64)
    }

    fn ensure_nft_table_command(&self) -> (c: CommandPlan)
        ensures
            c@ == ensure_table(self@),
    {
        let mut s = owned("nft list table inet ");
        push_str(&mut s, self.nft_table.as_str());
        push_str(&mut s, " >/dev/null 2>&1 || nft add table inet ");
        push_str(&mut s, self.nft_table.as_str());
        sh_command(s.as_str())
    }

    fn delete_nft_rules_by_comment_command(&self, chain: &str, comment: &str) -> (c: CommandPlan)
        ensures
            c@ == delete_by_comment(self@, chain@, comment@),
    {
        let mut s = owned("nft -a list chain inet ");
        push_str(&mut s, self.nft_table.as_str());
        push_str(&mut s, " ");
        push_str(&mut s, chain);
        push_str(
            &mut s,
            " 2>/dev/null | awk -v c=\"$1\" 'index($0, c) { print $NF }' | while read -r handle; do [ -n \"$handle\" ] && nft delete rule inet ",
        );
        push_str(&mut s, self.nft_table.as_str());
        push_str(&mut s, " ");
        push_str(&mut s, chain);
        push_str(&mut s, " handle \"$handle\"; done");
        let c = CommandPlan::new("sh", &["-c", s.as_str(), "easytier-agent-cleanup", comment]);
        c
    }

    fn chain_command(&self, chain: &str, kind: &str) -> (c: CommandPlan)
        ensures
            c@ == sh(chain_script(self@, chain@, kind@)),
    {
        let mut s = owned("nft list chain inet ");
        push_str(&mut s, self.nft_table.as_str());
        push_str(&mut s, " ");
        push_str(&mut s, chain);
        push_str(&mut s, " >/dev/null 2>&1 || nft add chain inet ");
        push_str(&mut s, self.nft_table.as_str());
        push_str(&mut s, " ");
        push_str(&mut s, chain);
        push_str(&mut s, " '{ type ");
        push_str(&mut s, kind);
        push_str(&mut s, "; }'");
        sh_command(s.as_str())
    }

    fn fwmark_command(&self, apply: bool) -> (c: CommandPlan)
        ensures
            c@ == (if apply {
                fwmark_apply(self@)
            } else {
                fwmark_delete(self@)
            }),
    {
        let t = self.table_text();
        let mut s = owned("ip rule del fwmark ");
        push_str(&mut s, self.mark.as_str());
        push_str(&mut s, " lookup ");
        push_str(&mut s, t.as_str());
        if apply {
            push_str(&mut s, " 2>/dev/null || true; ip rule add fwmark ");
            push_str(&mut s, self.mark.as_str());
            push_str(&mut s, " lookup ");
            push_str(&mut s, t.as_str());
        } else {
            push_str(&mut s, " 2>/dev/null || true");
        }
        sh_command(s.as_str())
    }

    fn rule_blocks(&self, policy: &DevicePolicy, t: &str, apply: bool) -> (r: Vec<CommandPlan>)
        ensures
            plans(r@) == (if apply {
                policy.managed_cidrs@.flat_map(rule_block_apply_fn(t@, policy.ingress_ifaces@))
            } else {
                policy.managed_cidrs@.filter(not_default_route()).flat_map(
                    rule_block_delete_fn(t@, policy.ingress_ifaces@),
                )
            }),
    {
        let cidrs = &policy.managed_cidrs;
        let ghost fa = rule_block_apply_fn(t@, policy.ingress_ifaces@);
        let ghost fd = rule_block_delete_fn(t@, policy.ingress_ifaces@);
        let mut r = no_plans();
        proof {
            lemma_flat_map_empty(fa);
            lemma_flat_map_empty(fd);
            assert(cidrs@.take(0) == Seq::<String>::empty());
            assert(cidrs@.take(0).filter(not_default_route()) =~= Seq::<String>::empty());
        }
        let mut i: usize = 0;
        while i < cidrs.len()
            invariant
                0 <= i <= cidrs@.len(),
                cidrs == &policy.managed_cidrs,
                fa == rule_block_apply_fn(t@, policy.ingress_ifaces@),
                fd == rule_block_delete_fn(t@, policy.ingress_ifaces@),
                plans(r@) == (if apply {
                    cidrs@.take(i as int).flat_map(fa)
                } else {
                    cidrs@.take(i as int).filter(not_default_route()).flat_map(fd)
                }),
            decreases cidrs.len() - i,
        {
            proof {
                lemma_flat_map_take(cidrs@, fa, i as int);
                lemma_filter_take(cidrs@, not_default_route(), i as int);
                lemma_flat_map_push(cidrs@.take(i as int).filter(not_default_route()), fd, cidrs@[i as int]);
            }
            if apply {
                let block = rule_block(&cidrs[i], &policy.ingress_ifaces, t, true);
                append_plans(&mut r, block);
            } else if !cidr_is_default_route(cidrs[i].as_str()) {
                let block = rule_block(&cidrs[i], &policy.ingress_ifaces, t, false);
                append_plans(&mut r, block);
            }
            i += 1;
        }
        assert(cidrs@.take(cidrs@.len() as int) == cidrs@);
        r
    }

    fn forward_pair(&self, cidr: &String, iface: &str, comment: &str) -> (r: Vec<CommandPlan>)
        ensures
            plans(r@) == forward_pair_fn(self@, iface@, comment@)(*cidr),
    {
        let nt = self.nft_table.as_str();
        let c = cidr.as_str();
        let a = nft_command(
            &["add", "rule", "inet", nt, "forward", "ip", "saddr", c, "oifname", iface, "accept", "comment", comment],
        );
        let d = nft_command(
            &["add", "rule", "inet", nt, "forward", "ip", "saddr", c, "oifname", "!=", iface, "drop", "comment", comment],
        );
        let r = pair(a, d);
        assert(plans(r@) =~~= forward_pair_fn(self@, iface@, comment@)(*cidr));
        r
    }

    fn ingress_pair(&self, ingress: &String, iface: &str, comment: &str) -> (r: Vec<CommandPlan>)
        ensures
            plans(r@) == ingress_pair_fn(self@, iface@, comment@)(*ingress),
    {
        let nt = self.nft_table.as_str();
        let g = ingress.as_str();
        let a = nft_command(
            &["add", "rule", "inet", nt, "forward", "iifname", g, "oifname", iface, "accept", "comment", comment],
        );
        let d = nft_command(
            &["add", "rule", "inet", nt, "forward", "iifname", g, "oifname", "!=", iface, "drop", "comment", comment],
        );
        let r = pair(a, d);
        assert(plans(r@) =~~= ingress_pair_fn(self@, iface@, comment@)(*ingress));
        r
    }

    /// The forward accept/drop pair for each managed CIDR that is not the default route.
    fn forward_rules(&self, policy: &DevicePolicy) -> (r: Vec<CommandPlan>)
        ensures
            plans(r@) == policy.managed_cidrs@.filter(not_default_route()).flat_map(
                forward_pair_fn(self@, policy.easytier_iface@, policy.device_policy_id@),
            ),
    {
        let cidrs = &policy.managed_cidrs;
        let ghost f = forward_pair_fn(self@, policy.easytier_iface@, policy.device_policy_id@);
        let mut r = no_plans();
        proof {
            lemma_flat_map_empty(f);
            assert(cidrs@.take(0).filter(not_default_route()) =~= Seq::<String>::empty());
        }
        let mut i: usize = 0;
        while i < cidrs.len()
            invariant
                0 <= i <= cidrs@.len(),
                cidrs == &policy.managed_cidrs,
                f == forward_pair_fn(self@, policy.easytier_iface@, policy.device_policy_id@),
                plans(r@) == cidrs@.take(i as int).filter(not_default_route()).flat_map(f),
            decreases cidrs.len() - i,
        {
            proof {
                lemma_filter_take(cidrs@, not_default_route(), i as int);
                lemma_flat_map_push(cidrs@.take(i as int).filter(not_default_route()), f, cidrs@[i as int]);
            }
            if !cidr_is_default_route(cidrs[i].as_str()) {
                let block = self.forward_pair(
                    &cidrs[i],
                    policy.easytier_iface.as_str(),
                    policy.device_policy_id.as_str(),
                );
                append_plans(&mut r, block);
            }
            i += 1;
        }
        assert(cidrs@.take(cidrs@.len() as int) == cidrs@);
        r
    }

    /// The forward accept/drop pair for each ingress interface (full-tunnel policies).
    fn ingress_rules(&self, policy: &DevicePolicy) -> (r: Vec<CommandPlan>)
        ensures
            plans(r@) == policy.ingress_ifaces@.flat_map(
                ingress_pair_fn(self@, policy.easytier_iface@, policy.device_policy_id@),
            ),
    {
        let ifaces = &policy.ingress_ifaces;
        let ghost f = ingress_pair_fn(self@, policy.easytier_iface@, policy.device_policy_id@);
        let mut r = no_plans();
        proof {
            lemma_flat_map_empty(f);
            assert(ifaces@.take(0) =~= Seq::<String>::empty());
        }
        let mut i: usize = 0;
        while i < ifaces.len()
            invariant
                0 <= i <= ifaces@.len(),
                ifaces == &policy.ingress_ifaces,
                f == ingress_pair_fn(self@, policy.easytier_iface@, policy.device_policy_id@),
                plans(r@) == ifaces@.take(i as int).flat_map(f),
            decreases ifaces.len() - i,
        {
            proof {
                lemma_flat_map_take(ifaces@, f, i as int);
            }
            let block = self.ingress_pair(
                &ifaces[i],
                policy.easytier_iface.as_str(),
                policy.device_policy_id.as_str(),
            );
            append_plans(&mut r, block);
            i += 1;
        }
        assert(ifaces@.take(ifaces@.len() as int) == ifaces@);
        r
    }

    /// A masquerade rule for each managed CIDR.
    fn masquerade_rules(&self, policy: &DevicePolicy) -> (r: Vec<CommandPlan>)
        ensures
            plans(r@) == policy.managed_cidrs@.map_values(
                masquerade_fn(self@, policy.device_policy_id@),
            ),
    {
        let cidrs = &policy.managed_cidrs;
        let ghost f = masquerade_fn(self@, policy.device_policy_id@);
        let mut r = no_plans();
        let mut i: usize = 0;
        while i < cidrs.len()
            invariant
                0 <= i <= cidrs@.len(),
                cidrs == &policy.managed_cidrs,
                f == masquerade_fn(self@, policy.device_policy_id@),
                plans(r@) == cidrs@.take(i as int).map_values(f),
            decreases cidrs.len() - i,
        {
            let c = self.masquerade_command(cidrs[i].as_str(), policy.device_policy_id.as_str());
            push_plan(&mut r, c);
            assert(cidrs@.take(i + 1).map_values(f) =~= cidrs@.take(i as int).map_values(f).push(
                masquerade(self@, cidrs@[i as int]@, policy.device_policy_id@),
            ));
            i += 1;
        }
        assert(cidrs@.take(cidrs@.len() as int) == cidrs@);
        r
    }

    fn masquerade_command(&self, source: &str, comment: &str) -> (c: CommandPlan)
        ensures
            c@ == masquerade(self@, source@, comment@),
    {
        nft_command(
            &["add", "rule", "inet", self.nft_table.as_str(), "postrouting", "ip", "saddr", source, "masquerade", "comment", comment],
        )
    }

    /// A route back to the source peer for each managed CIDR.
    fn route_back_rules(&self, policy: &DevicePolicy, source_peer: &str) -> (r: Vec<CommandPlan>)
        ensures
            plans(r@) == policy.managed_cidrs@.map_values(
                route_back_fn(source_peer@, policy.easytier_iface@),
            ),
    {
        let cidrs = &policy.managed_cidrs;
        let ghost f = route_back_fn(source_peer@, policy.easytier_iface@);
        let mut r = no_plans();
        let mut i: usize = 0;
        while i < cidrs.len()
            invariant
                0 <= i <= cidrs@.len(),
                cidrs == &policy.managed_cidrs,
                f == route_back_fn(source_peer@, policy.easytier_iface@),
                plans(r@) == cidrs@.take(i as int).map_values(f),
            decreases cidrs.len() - i,
        {
            let c = CommandPlan::new(
                "ip",
                &["route", "replace", cidrs[i].as_str(), "via", source_peer, "dev", policy.easytier_iface.as_str()],
            );
            push_plan(&mut r, c);
            assert(c@ =~~= f(cidrs@[i as int]));
            assert(cidrs@.take(i + 1).map_values(f) =~= cidrs@.take(i as int).map_values(f).push(
                c@,
            ));
            i += 1;
        }
        assert(cidrs@.take(cidrs@.len() as int) == cidrs@);
        r
    }

    /// A route deletion for each managed CIDR that is not the default route.
    fn route_delete_rules(&self, policy: &DevicePolicy) -> (r: Vec<CommandPlan>)
        ensures
            plans(r@) == policy.managed_cidrs@.filter(not_default_route()).flat_map(
                route_delete_fn(),
            ),
    {
        let cidrs = &policy.managed_cidrs;
        let ghost f = route_delete_fn();
        let mut r = no_plans();
        proof {
            lemma_flat_map_empty(f);
            assert(cidrs@.take(0).filter(not_default_route()) =~= Seq::<String>::empty());
        }
        let mut i: usize = 0;
        while i < cidrs.len()
            invariant
                0 <= i <= cidrs@.len(),
                cidrs == &policy.managed_cidrs,
                f == route_delete_fn(),
                plans(r@) == cidrs@.take(i as int).filter(not_default_route()).flat_map(f),
            decreases cidrs.len() - i,
        {
            proof {
                lemma_filter_take(cidrs@, not_default_route(), i as int);
                lemma_flat_map_push(cidrs@.take(i as int).filter(not_default_route()), f, cidrs@[i as int]);
            }
            if !cidr_is_default_route(cidrs[i].as_str()) {
                let c = route_delete_command(cidrs[i].as_str());
                append_plans(&mut r, single(c));
            }
            i += 1;
        }
        assert(cidrs@.take(cidrs@.len() as int) == cidrs@);
        r
    }

    fn source_apply(&self, policy: &DevicePolicy) -> (r: Vec<CommandPlan>)
        ensures
            plans(r@) == linux_source_apply(self@, *policy),
    {
        let t = self.table_text();
        let exit_peer = text_or_empty_of(&policy.exit_peer_ipv4);
        let iface = policy.easytier_iface.as_str();
        let dp = policy.device_policy_id.as_str();
        let mut out = no_plans();
        push_plan(&mut out, CommandPlan::new("ip", &["route", "show", "default"]));
        push_plan(
            &mut out,
            CommandPlan::new(
                "ip",
                &["route", "replace", "default", "via", exit_peer.as_str(), "dev", iface, "table", t.as_str()],
            ),
        );
        push_plan(
            &mut out,
            CommandPlan::new(
                "ip",
                &["route", "replace", "blackhole", "default", "table", t.as_str(), "metric", "32767"],
            ),
        );
        assert(plans(out@) =~~= linux_source_head(self@, *policy));
        append_plans(&mut out, self.rule_blocks(policy, t.as_str(), true));
        append_plans(&mut out, ingress_local_rules(&policy.ingress_ifaces, t.as_str(), "add"));
        let mut setup = no_plans();
        push_plan(&mut setup, self.ensure_nft_table_command());
        push_plan(&mut setup, self.chain_command("forward", "filter hook forward priority filter"));
        push_plan(&mut setup, self.delete_nft_rules_by_comment_command("forward", dp));
        append_plans(&mut out, setup);
        append_plans(&mut out, self.forward_rules(policy));
        let full = if has_default_route(&policy.managed_cidrs) {
            self.ingress_rules(policy)
        } else {
            no_plans()
        };
        append_plans(&mut out, full);
        let device = if policy.include_device_traffic {
            let mut d = no_plans();
            push_plan(&mut d, self.ensure_nft_table_command());
            push_plan(&mut d, self.chain_command("output", "route hook output priority mangle"));
            push_plan(&mut d, self.delete_nft_rules_by_comment_command("output", dp));
            push_plan(
                &mut d,
                nft_command(
                    &["add", "rule", "inet", self.nft_table.as_str(), "output", "meta", "mark", "set", self.mark.as_str(), "comment", dp],
                ),
            );
            push_plan(&mut d, self.fwmark_command(true));
            assert(plans(d@) =~~= device_mark(self@, dp@));
            d
        } else {
            no_plans()
        };
        append_plans(&mut out, device);
        out
    }

    fn source_cleanup(&self, policy: &DevicePolicy) -> (r: Vec<CommandPlan>)
        ensures
            plans(r@) == linux_source_cleanup(self@, *policy),
    {
        let t = self.table_text();
        let dp = policy.device_policy_id.as_str();
        let mut out = ingress_local_rules(&policy.ingress_ifaces, t.as_str(), "del");
        append_plans(&mut out, self.rule_blocks(policy, t.as_str(), false));
        let device = if policy.include_device_traffic {
            let mut d = no_plans();
            push_plan(&mut d, self.fwmark_command(false));
            push_plan(&mut d, self.delete_nft_rules_by_comment_command("output", dp));
            d
        } else {
            no_plans()
        };
        append_plans(&mut out, device);
        let mut tail = no_plans();
        push_plan(&mut tail, flush_table_command(t.as_str()));
        push_plan(&mut tail, self.delete_nft_rules_by_comment_command("forward", dp));
        append_plans(&mut out, tail);
        out
    }

    fn exit_apply(&self, policy: &DevicePolicy) -> (r: Vec<CommandPlan>)
        ensures
            plans(r@) == linux_exit_apply(self@, *policy),
    {
        let iface = policy.easytier_iface.as_str();
        let dp = policy.device_policy_id.as_str();
        let source_peer = text_or_empty_of(&policy.source_peer_ipv4);
        let mut out = no_plans();
        push_plan(&mut out, CommandPlan::new("sysctl", &["-w", "net.ipv4.ip_forward=1"]));
        push_plan(&mut out, self.ensure_nft_table_command());
        push_plan(&mut out, self.chain_command("postrouting", "nat hook postrouting priority srcnat"));
        push_plan(&mut out, self.chain_command("forward", "filter hook forward priority filter"));
        push_plan(&mut out, main_lookup_command(iface, true));
        push_plan(&mut out, self.delete_nft_rules_by_comment_command("forward", dp));
        push_plan(
            &mut out,
            nft_command(
                &["add", "rule", "inet", self.nft_table.as_str(), "forward", "iifname", iface, "accept", "comment", dp],
            ),
        );
        push_plan(&mut out, self.delete_nft_rules_by_comment_command("postrouting", dp));
        assert(plans(out@) =~~= linux_exit_head(self@, *policy));
        let device = if policy.include_device_traffic {
            let mut peer = source_peer.clone();
            push_str(&mut peer, "/32");
            single(self.masquerade_command(peer.as_str(), dp))
        } else {
            no_plans()
        };
        append_plans(&mut out, device);
        append_plans(&mut out, self.masquerade_rules(policy));
        append_plans(&mut out, self.route_back_rules(policy, source_peer.as_str()));
        out
    }

    fn exit_cleanup(&self, policy: &DevicePolicy) -> (r: Vec<CommandPlan>)
        ensures
            plans(r@) == linux_exit_cleanup(self@, *policy),
    {
        let dp = policy.device_policy_id.as_str();
        let mut out = no_plans();
        push_plan(&mut out, self.delete_nft_rules_by_comment_command("postrouting", dp));
        push_plan(&mut out, self.delete_nft_rules_by_comment_command("forward", dp));
        push_plan(&mut out, main_lookup_command(policy.easytier_iface.as_str(), false));
        append_plans(&mut out, self.route_delete_rules(policy));
        let t = self.table_text();
        append_plans(&mut out, single(flush_table_command(t.as_str())));
        out
    }

    /// The commands that apply a device policy, after validating it.
    pub fn plan_apply(&self, policy: &DevicePolicy) -> (r: Result<Vec<CommandPlan>, PolicyError>)
        ensures
            plan_result_view(r) == linux_plan_apply(self@, *policy),
    {
        policy.validate()?;
        Ok(
            match policy.role {
                DevicePolicyRole::ClientGatewayViaPeer => self.source_apply(policy),
                DevicePolicyRole::ProvideExitForGateway => self.exit_apply(policy),
            },
        )
    }

    /// The commands that remove a device policy's rules, after validating it.
    pub fn plan_cleanup(&self, policy: &DevicePolicy) -> (r: Result<Vec<CommandPlan>, PolicyError>)
        ensures
            plan_result_view(r) == linux_plan_cleanup(self@, *policy),
    {
        policy.validate()?;
        Ok(
            match policy.role {
                DevicePolicyRole::ClientGatewayViaPeer => self.source_cleanup(policy),
                DevicePolicyRole::ProvideExitForGateway => self.exit_cleanup(policy),
            },
        )
    }
}

impl Default for LinuxBackend {
    fn default() -> (r: LinuxBackend)
        ensures
            r@ == LinuxBackend::default_view(),
    {
        LinuxBackend { table_id: 126, mark: owned("0x7e"), nft_table: owned("easytier_agent") }
    }
}

// ---------------------------------------------------------------------------
// What a cleanup undoes
// ---------------------------------------------------------------------------
/// The chain and the comment of the rule that an `nft add rule` command adds to the backend's
/// table (the comment is its last argument, after `comment`).
pub open spec fn added_rule(b: LinuxView, c: CmdView) -> Option<(Seq<char>, Seq<char>)> {
    if c.program == "nft"@ && c.args.len() >= 7 && c.args[0] == "add"@ && c.args[1] == "rule"@
        && c.args[2] == "inet"@ && c.args[3] == b.nft_table && c.args[c.args.len() - 2]
        == "comment"@ {
        Some((c.args[4], c.args[c.args.len() - 1]))
    } else {
        None
    }
}

/// A command that adds no rule, or one in one of the chains, carrying the comment.
pub open spec fn tagged_in(b: LinuxView, chains: Set<Seq<char>>, comment: Seq<char>) -> spec_fn(
    CmdView,
) -> bool {
    |c: CmdView|
        match added_rule(b, c) {
            Some((chain, cm)) => chains.contains(chain) && cm == comment,
            None => true,
        }
}

proof fn lemma_sh_adds_nothing(b: LinuxView, chains: Set<Seq<char>>, comment: Seq<char>, c: CmdView)
    requires
        c.program == "sh"@ || c.program == "ip"@ || c.program == "sysctl"@,
    ensures
        tagged_in(b, chains, comment)(c),
{
    reveal_strlit("sh");
    reveal_strlit("ip");
    reveal_strlit("sysctl");
    reveal_strlit("nft");
    assert(c.program != "nft"@) by {
        if c.program == "nft"@ {
            assert(c.program[0] == 'n');
        }
    }
}

proof fn lemma_source_apply_tags(b: LinuxView, p: DevicePolicy)
    ensures
        all_of(
            linux_source_apply(b, p),
            tagged_in(
                b,
                if p.include_device_traffic {
                    set!["forward"@, "output"@]
                } else {
                    set!["forward"@]
                },
                p.device_policy_id@,
            ),
        ),
{
    let chains = if p.include_device_traffic {
        set!["forward"@, "output"@]
    } else {
        set!["forward"@]
    };
    let dp = p.device_policy_id@;
    let t = tbl(b);
    let iface = p.easytier_iface@;
    let cidrs = p.managed_cidrs@;
    let ifaces = p.ingress_ifaces@;
    let tag = tagged_in(b, chains, dp);
    reveal_strlit("nft");
    reveal_strlit("add");
    reveal_strlit("rule");
    reveal_strlit("inet");
    reveal_strlit("comment");
    reveal_strlit("forward");
    reveal_strlit("output");
    assert(chains.contains("forward"@));
    let head = linux_source_head(b, p);
    assert forall|i: int| 0 <= i < head.len() implies #[trigger] tag(head[i]) by {
        lemma_sh_adds_nothing(b, chains, dp, head[i]);
    }
    assert forall|x: String| all_of(#[trigger] rule_block_apply_fn(t, ifaces)(x), tag) by {
        let blk = rule_block_apply_fn(t, ifaces)(x);
        assert forall|y: String| #[trigger] tag(iif_apply_fn(x@, t)(y)) by {
            lemma_sh_adds_nothing(b, chains, dp, iif_apply_fn(x@, t)(y));
        }
        lemma_all_of_map_values(ifaces, iif_apply_fn(x@, t), tag);
        lemma_sh_adds_nothing(b, chains, dp, rule_from_apply(x@, t));
        lemma_all_of_concat(seq![rule_from_apply(x@, t)], ifaces.map_values(iif_apply_fn(x@, t)), tag);
    }
    lemma_all_of_flat_map(cidrs, rule_block_apply_fn(t, ifaces), tag);
    assert forall|y: String| #[trigger] tag(ingress_local_fn(t, "add"@)(y)) by {
        lemma_sh_adds_nothing(b, chains, dp, ingress_local_fn(t, "add"@)(y));
    }
    lemma_all_of_map_values(ifaces, ingress_local_fn(t, "add"@), tag);
    let setup = forward_setup(b, dp);
    assert forall|i: int| 0 <= i < setup.len() implies #[trigger] tag(setup[i]) by {
        lemma_sh_adds_nothing(b, chains, dp, setup[i]);
    }
    assert forall|x: String| all_of(#[trigger] forward_pair_fn(b, iface, dp)(x), tag) by {}
    lemma_all_of_flat_map(cidrs.filter(not_default_route()), forward_pair_fn(b, iface, dp), tag);
    assert forall|x: String| all_of(#[trigger] ingress_pair_fn(b, iface, dp)(x), tag) by {}
    lemma_all_of_flat_map(ifaces, ingress_pair_fn(b, iface, dp), tag);
    let ingress = if any_default_route(cidrs) {
        ifaces.flat_map(ingress_pair_fn(b, iface, dp))
    } else {
        Seq::empty()
    };
    let mark = if p.include_device_traffic {
        device_mark(b, dp)
    } else {
        Seq::empty()
    };
    assert forall|i: int| 0 <= i < mark.len() implies #[trigger] tag(mark[i]) by {
        if i != 3 {
            lemma_sh_adds_nothing(b, chains, dp, mark[i]);
        }
    }
    lemma_all_of_concat(head, cidrs.flat_map(rule_block_apply_fn(t, ifaces)), tag);
    lemma_all_of_concat(
        head + cidrs.flat_map(rule_block_apply_fn(t, ifaces)),
        ifaces.map_values(ingress_local_fn(t, "add"@)),
        tag,
    );
    let a3 = head + cidrs.flat_map(rule_block_apply_fn(t, ifaces)) + ifaces.map_values(
        ingress_local_fn(t, "add"@),
    );
    lemma_all_of_concat(a3, setup, tag);
    lemma_all_of_concat(
        a3 + setup,
        cidrs.filter(not_default_route()).flat_map(forward_pair_fn(b, iface, dp)),
        tag,
    );
    let a5 = a3 + setup + cidrs.filter(not_default_route()).flat_map(forward_pair_fn(b, iface, dp));
    lemma_all_of_concat(a5, ingress, tag);
    lemma_all_of_concat(a5 + ingress, mark, tag);
}

proof fn lemma_exit_apply_tags(b: LinuxView, p: DevicePolicy)
    ensures
        all_of(
            linux_exit_apply(b, p),
            tagged_in(b, set!["forward"@, "postrouting"@], p.device_policy_id@),
        ),
{
    let chains = set!["forward"@, "postrouting"@];
    let dp = p.device_policy_id@;
    let iface = p.easytier_iface@;
    let source_peer = text_or_empty(p.source_peer_ipv4);
    let tag = tagged_in(b, chains, dp);
    reveal_strlit("nft");
    reveal_strlit("add");
    reveal_strlit("rule");
    reveal_strlit("inet");
    reveal_strlit("comment");
    reveal_strlit("forward");
    reveal_strlit("postrouting");
    let head = linux_exit_head(b, p);
    assert forall|i: int| 0 <= i < head.len() implies #[trigger] tag(head[i]) by {
        if i != 6 {
            lemma_sh_adds_nothing(b, chains, dp, head[i]);
        }
    }
    let own = if p.include_device_traffic {
        seq![masquerade(b, source_peer + "/32"@, dp)]
    } else {
        Seq::empty()
    };
    assert(all_of(own, tag));
    assert forall|x: String| #[trigger] tag(masquerade_fn(b, dp)(x)) by {}
    lemma_all_of_map_values(p.managed_cidrs@, masquerade_fn(b, dp), tag);
    assert forall|x: String| #[trigger] tag(route_back_fn(source_peer, iface)(x)) by {
        lemma_sh_adds_nothing(b, chains, dp, route_back_fn(source_peer, iface)(x));
    }
    lemma_all_of_map_values(p.managed_cidrs@, route_back_fn(source_peer, iface), tag);
    lemma_all_of_concat(head, own, tag);
    lemma_all_of_concat(head + own, p.managed_cidrs@.map_values(masquerade_fn(b, dp)), tag);
    lemma_all_of_concat(
        head + own + p.managed_cidrs@.map_values(masquerade_fn(b, dp)),
        p.managed_cidrs@.map_values(route_back_fn(source_peer, iface)),
        tag,
    );
}

/// A cleanup takes away every `nft` rule its apply adds: for a policy that both plans accept
/// (they accept the same policies, and refuse the others with the same error), each rule the
/// apply plan adds carries the device policy's id as its comment, in a chain that the cleanup
/// plan clears of that comment.
pub proof fn lemma_linux_cleanup_clears_added_rules(b: LinuxView, p: DevicePolicy)
    ensures
        match (linux_plan_apply(b, p), linux_plan_cleanup(b, p)) {
            (Ok(a), Ok(c)) => forall|i: int|
                0 <= i < a.len() ==> match added_rule(b, #[trigger] a[i]) {
                    Some((chain, comment)) => comment == p.device_policy_id@ && c.contains(
                        delete_by_comment(b, chain, comment),
                    ),
                    None => true,
                },
            (Err(e), Err(f)) => e == f,
            _ => false,
        },
{
    let dp = p.device_policy_id@;
    if validation(p) is Ok {
        match p.role {
            DevicePolicyRole::ClientGatewayViaPeer => {
                lemma_source_apply_tags(b, p);
                let a = linux_source_apply(b, p);
                let c = linux_source_cleanup(b, p);
                let chains = if p.include_device_traffic {
                    set!["forward"@, "output"@]
                } else {
                    set!["forward"@]
                };
                assert(c[c.len() - 1] == delete_by_comment(b, "forward"@, dp));
                if p.include_device_traffic {
                    let k = (p.ingress_ifaces@.len() + p.managed_cidrs@.filter(
                        not_default_route(),
                    ).flat_map(rule_block_delete_fn(tbl(b), p.ingress_ifaces@)).len() + 1) as int;
                    assert(c[k] == delete_by_comment(b, "output"@, dp));
                }
                assert forall|i: int| 0 <= i < a.len() implies match added_rule(b, #[trigger] a[i]) {
                    Some((chain, comment)) => comment == dp && c.contains(
                        delete_by_comment(b, chain, comment),
                    ),
                    None => true,
                } by {
                    assert(tagged_in(b, chains, dp)(a[i]));
                }
            },
            DevicePolicyRole::ProvideExitForGateway => {
                lemma_exit_apply_tags(b, p);
                let a = linux_exit_apply(b, p);
                let c = linux_exit_cleanup(b, p);
                assert(c[0] == delete_by_comment(b, "postrouting"@, dp));
                assert(c[1] == delete_by_comment(b, "forward"@, dp));
                assert forall|i: int| 0 <= i < a.len() implies match added_rule(b, #[trigger] a[i]) {
                    Some((chain, comment)) => comment == dp && c.contains(
                        delete_by_comment(b, chain, comment),
                    ),
                    None => true,
                } by {
                    assert(tagged_in(b, set!["forward"@, "postrouting"@], dp)(a[i]));
                }
            },
        }
    }
}

/// A source cleanup undoes the routing rules its apply adds: for each managed CIDR that is not a
/// default route, the `ip rule` entries from the CIDR, and from it on each ingress interface;
/// for each ingress interface, the rules for its own addresses; the fwmark rule when device
/// traffic is managed. The cleanup also flushes the table and clears the forward chain of the
/// policy's rules. (A default-route CIDR's own rules are added and not deleted.)
pub proof fn lemma_linux_source_cleanup_undoes_rules(b: LinuxView, p: DevicePolicy)
    ensures
        ({
            let apply = linux_source_apply(b, p);
            let cleanup = linux_source_cleanup(b, p);
            let t = tbl(b);
            let cidrs = p.managed_cidrs@;
            let ifaces = p.ingress_ifaces@;
            &&& forall|k: int|
                0 <= k < cidrs.len() && !is_default_route(#[trigger] cidrs[k]@) ==> apply.contains(
                    rule_from_apply(cidrs[k]@, t),
                ) && cleanup.contains(rule_from_delete(cidrs[k]@, t))
            &&& forall|k: int, j: int|
                0 <= k < cidrs.len() && 0 <= j < ifaces.len() && !is_default_route(
                    #[trigger] cidrs[k]@,
                ) ==> apply.contains(rule_iif_from_apply(#[trigger] ifaces[j]@, cidrs[k]@, t))
                    && cleanup.contains(rule_iif_from_delete(ifaces[j]@, cidrs[k]@, t))
            &&& forall|j: int|
                0 <= j < ifaces.len() ==> apply.contains(
                    ingress_local_rule(#[trigger] ifaces[j]@, t, "add"@),
                ) && cleanup.contains(ingress_local_rule(ifaces[j]@, t, "del"@))
            &&& p.include_device_traffic ==> apply.contains(fwmark_apply(b)) && cleanup.contains(
                fwmark_delete(b),
            )
            &&& cleanup.contains(flush_table(t))
            &&& cleanup.contains(delete_by_comment(b, "forward"@, p.device_policy_id@))
        }),
{
    let t = tbl(b);
    let dp = p.device_policy_id@;
    let iface = p.easytier_iface@;
    let cidrs = p.managed_cidrs@;
    let ifaces = p.ingress_ifaces@;
    let head = linux_source_head(b, p);
    let f1 = cidrs.flat_map(rule_block_apply_fn(t, ifaces));
    let m1 = ifaces.map_values(ingress_local_fn(t, "add"@));
    let setup = forward_setup(b, dp);
    let f2 = cidrs.filter(not_default_route()).flat_map(forward_pair_fn(b, iface, dp));
    let ingress = if any_default_route(cidrs) {
        ifaces.flat_map(ingress_pair_fn(b, iface, dp))
    } else {
        Seq::empty()
    };
    let mark = if p.include_device_traffic {
        device_mark(b, dp)
    } else {
        Seq::empty()
    };
    let apply = linux_source_apply(b, p);
    assert(apply == head + f1 + m1 + setup + f2 + ingress + mark);
    let m2 = ifaces.map_values(ingress_local_fn(t, "del"@));
    let f3 = cidrs.filter(not_default_route()).flat_map(rule_block_delete_fn(t, ifaces));
    let unmark = if p.include_device_traffic {
        device_unmark(b, dp)
    } else {
        Seq::empty()
    };
    let tail = seq![flush_table(t), delete_by_comment(b, "forward"@, dp)];
    let cleanup = linux_source_cleanup(b, p);
    assert(cleanup == m2 + f3 + unmark + tail);
    // Whatever one of apply's parts holds, apply holds.
    assert forall|x: CmdView| (f1.contains(x) || m1.contains(x) || mark.contains(x)) implies #[trigger] apply.contains(x) by {
        if f1.contains(x) {
            lemma_concat_contains(head, f1, x);
            lemma_concat_contains(head + f1, m1, x);
        } else if m1.contains(x) {
            lemma_concat_contains(head + f1, m1, x);
        }
        if f1.contains(x) || m1.contains(x) {
            lemma_concat_contains(head + f1 + m1, setup, x);
            lemma_concat_contains(head + f1 + m1 + setup, f2, x);
            lemma_concat_contains(head + f1 + m1 + setup + f2, ingress, x);
        }
        lemma_concat_contains(head + f1 + m1 + setup + f2 + ingress, mark, x);
    }
    assert forall|x: CmdView| (m2.contains(x) || f3.contains(x) || unmark.contains(x) || tail.contains(x)) implies #[trigger] cleanup.contains(x) by {
        if m2.contains(x) || f3.contains(x) {
            lemma_concat_contains(m2, f3, x);
        }
        if m2.contains(x) || f3.contains(x) || unmark.contains(x) {
            lemma_concat_contains(m2 + f3, unmark, x);
        }
        lemma_concat_contains(m2 + f3 + unmark, tail, x);
    }
    assert forall|k: int|
        0 <= k < cidrs.len() && !is_default_route(#[trigger] cidrs[k]@) implies apply.contains(
            rule_from_apply(cidrs[k]@, t),
        ) && cleanup.contains(rule_from_delete(cidrs[k]@, t)) by {
        lemma_flat_map_contains(cidrs, rule_block_apply_fn(t, ifaces), k, 0);
        assert(rule_block_apply_fn(t, ifaces)(cidrs[k])[0] == rule_from_apply(cidrs[k]@, t));
        lemma_filter_flat_map_contains(cidrs, not_default_route(), rule_block_delete_fn(t, ifaces), k, 0);
        assert(rule_block_delete_fn(t, ifaces)(cidrs[k])[0] == rule_from_delete(cidrs[k]@, t));
    }
    assert forall|k: int, j: int|
        0 <= k < cidrs.len() && 0 <= j < ifaces.len() && !is_default_route(#[trigger] cidrs[k]@)
        implies apply.contains(rule_iif_from_apply(#[trigger] ifaces[j]@, cidrs[k]@, t))
            && cleanup.contains(rule_iif_from_delete(ifaces[j]@, cidrs[k]@, t)) by {
        lemma_flat_map_contains(cidrs, rule_block_apply_fn(t, ifaces), k, 1 + j);
        assert(rule_block_apply_fn(t, ifaces)(cidrs[k])[1 + j] == rule_iif_from_apply(
            ifaces[j]@,
            cidrs[k]@,
            t,
        ));
        lemma_filter_flat_map_contains(
            cidrs,
            not_default_route(),
            rule_block_delete_fn(t, ifaces),
            k,
            1 + j,
        );
        assert(rule_block_delete_fn(t, ifaces)(cidrs[k])[1 + j] == rule_iif_from_delete(
            ifaces[j]@,
            cidrs[k]@,
            t,
        ));
    }
    assert forall|j: int| 0 <= j < ifaces.len() implies apply.contains(
        ingress_local_rule(#[trigger] ifaces[j]@, t, "add"@),
    ) && cleanup.contains(ingress_local_rule(ifaces[j]@, t, "del"@)) by {
        assert(m1[j] == ingress_local_rule(ifaces[j]@, t, "add"@));
        assert(m1.contains(m1[j]));
        assert(m2[j] == ingress_local_rule(ifaces[j]@, t, "del"@));
        assert(m2.contains(m2[j]));
    }
    if p.include_device_traffic {
        assert(mark[4] == fwmark_apply(b));
        assert(mark.contains(mark[4]));
        assert(unmark[0] == fwmark_delete(b));
        assert(unmark.contains(unmark[0]));
    }
    assert(tail[0] == flush_table(t) && tail.contains(tail[0]));
    assert(tail[1] == delete_by_comment(b, "forward"@, dp) && tail.contains(tail[1]));
}

/// A command that takes something away: it deletes an `ip rule` (from a source, from a source on
/// an interface, for an interface's own addresses, or the fwmark rule), flushes the table, or
/// deletes the policy's `nft` rules from the forward or output chain by their comment.
pub open spec fn takes_away(b: LinuxView, dp: Seq<char>) -> spec_fn(CmdView) -> bool {
    |c: CmdView|
        {
        ||| (exists|x: Seq<char>| c == #[trigger] rule_from_delete(x, tbl(b)))
        ||| (exists|i: Seq<char>, x: Seq<char>| c == #[trigger] rule_iif_from_delete(i, x, tbl(b)))
        ||| (exists|i: Seq<char>| c == #[trigger] ingress_local_rule(i, tbl(b), "del"@))
        ||| c == fwmark_delete(b)
        ||| c == flush_table(tbl(b))
        ||| c == delete_by_comment(b, "forward"@, dp)
        ||| c == delete_by_comment(b, "output"@, dp)
        }
}

/// A source cleanup only takes things away: every command of it deletes a rule, flushes the
/// table, or clears the policy's `nft` rules by their comment; none adds anything.
pub proof fn lemma_linux_source_cleanup_only_takes_away(b: LinuxView, p: DevicePolicy)
    ensures
        all_of(linux_source_cleanup(b, p), takes_away(b, p.device_policy_id@)),
{
    let t = tbl(b);
    let dp = p.device_policy_id@;
    let cidrs = p.managed_cidrs@;
    let ifaces = p.ingress_ifaces@;
    let ok = takes_away(b, dp);
    assert forall|y: String| #[trigger] ok(ingress_local_fn(t, "del"@)(y)) by {
        assert(ingress_local_fn(t, "del"@)(y) == ingress_local_rule(y@, t, "del"@));
    }
    lemma_all_of_map_values(ifaces, ingress_local_fn(t, "del"@), ok);
    assert forall|x: String| all_of(#[trigger] rule_block_delete_fn(t, ifaces)(x), ok) by {
        assert forall|y: String| #[trigger] ok(iif_delete_fn(x@, t)(y)) by {
            assert(iif_delete_fn(x@, t)(y) == rule_iif_from_delete(y@, x@, t));
        }
        lemma_all_of_map_values(ifaces, iif_delete_fn(x@, t), ok);
        assert(ok(rule_from_delete(x@, t)));
        lemma_all_of_concat(seq![rule_from_delete(x@, t)], ifaces.map_values(iif_delete_fn(x@, t)), ok);
    }
    let f3 = cidrs.filter(not_default_route()).flat_map(rule_block_delete_fn(t, ifaces));
    lemma_all_of_flat_map(cidrs.filter(not_default_route()), rule_block_delete_fn(t, ifaces), ok);
    let m2 = ifaces.map_values(ingress_local_fn(t, "del"@));
    let unmark = if p.include_device_traffic {
        device_unmark(b, dp)
    } else {
        Seq::empty()
    };
    let tail = seq![flush_table(t), delete_by_comment(b, "forward"@, dp)];
    assert(all_of(unmark, ok));
    assert(all_of(tail, ok));
    lemma_all_of_concat(m2, f3, ok);
    lemma_all_of_concat(m2 + f3, unmark, ok);
    lemma_all_of_concat(m2 + f3 + unmark, tail, ok);
    assert(linux_source_cleanup(b, p) == m2 + f3 + unmark + tail);
}

/// An exit device's plan turns IPv4 forwarding on and never sets it any other way: it holds
/// `sysctl -w net.ipv4.ip_forward=1`, and every `sysctl` command in it is that one.
pub proof fn lemma_linux_exit_plan_turns_forwarding_on(b: LinuxView, p: DevicePolicy)
    requires
        p.role == DevicePolicyRole::ProvideExitForGateway,
    ensures
        linux_plan_apply(b, p) matches Ok(cmds) ==> {
            &&& cmds.contains(cv("sysctl"@, seq!["-w"@, "net.ipv4.ip_forward=1"@]))
            &&& forall|i: int|
                0 <= i < cmds.len() && #[trigger] cmds[i].program == "sysctl"@ ==> cmds[i] == cv(
                    "sysctl"@,
                    seq!["-w"@, "net.ipv4.ip_forward=1"@],
                )
        },
{
    if validation(p) is Ok {
        reveal_strlit("sysctl");
        reveal_strlit("sh");
        reveal_strlit("nft");
        reveal_strlit("ip");
        assert("sh"@ != "sysctl"@ && "nft"@ != "sysctl"@ && "ip"@ != "sysctl"@) by {
            assert("sh"@.len() != "sysctl"@.len());
            assert("nft"@.len() != "sysctl"@.len());
            assert("ip"@.len() != "sysctl"@.len());
        }
        let on = cv("sysctl"@, seq!["-w"@, "net.ipv4.ip_forward=1"@]);
        let ok = |c: CmdView| c.program == "sysctl"@ ==> c == on;
        let dp = p.device_policy_id@;
        let iface = p.easytier_iface@;
        let source_peer = text_or_empty(p.source_peer_ipv4);
        let head = linux_exit_head(b, p);
        assert(head[0] == on);
        assert(all_of(head, ok));
        let own = if p.include_device_traffic {
            seq![masquerade(b, source_peer + "/32"@, dp)]
        } else {
            Seq::empty()
        };
        assert(all_of(own, ok));
        assert forall|x: String| #[trigger] ok(masquerade_fn(b, dp)(x)) by {}
        lemma_all_of_map_values(p.managed_cidrs@, masquerade_fn(b, dp), ok);
        assert forall|x: String| #[trigger] ok(route_back_fn(source_peer, iface)(x)) by {}
        lemma_all_of_map_values(p.managed_cidrs@, route_back_fn(source_peer, iface), ok);
        lemma_all_of_concat(head, own, ok);
        lemma_all_of_concat(head + own, p.managed_cidrs@.map_values(masquerade_fn(b, dp)), ok);
        lemma_all_of_concat(
            head + own + p.managed_cidrs@.map_values(masquerade_fn(b, dp)),
            p.managed_cidrs@.map_values(route_back_fn(source_peer, iface)),
            ok,
        );
        let cmds = linux_exit_apply(b, p);
        assert(cmds == head + own + p.managed_cidrs@.map_values(masquerade_fn(b, dp))
            + p.managed_cidrs@.map_values(route_back_fn(source_peer, iface)));
        assert(cmds[0] == on);
        assert forall|i: int| 0 <= i < cmds.len() && #[trigger] cmds[i].program == "sysctl"@ implies cmds[i] == on by {
            assert(ok(cmds[i]));
        }
    }
}

} // verus!
