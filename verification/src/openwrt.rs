use vstd::prelude::*;

use crate::command::{append_plans, cv, plans, sh, sh_command, CmdView, CommandPlan};
use crate::linux::{
    any_default_route, cidr_is_default_route, flush_table, has_default_route, no_plans,
    not_default_route, plan_result_view, push_plan, route_delete, rule_from_apply,
    rule_from_delete, text_or_empty,
};
use crate::policy::{validation, DevicePolicy, DevicePolicyRole, PolicyError};
use crate::seqs::{
    all_of, lemma_all_of_concat, lemma_all_of_flat_map, lemma_filter_take, lemma_flat_map_empty,
    lemma_flat_map_push, lemma_flatten_push,
};
use crate::shell::{
    nft_quoted, nft_string, section_name, shell_single_quote, single_quoted, uci_quote, uci_quoted,
    uci_section_name,
};
use crate::text::{decimal, owned, push_str, u64_to_decimal};

verus! {

/// Plans commands for a device policy on OpenWrt, where the exit side goes through `uci` and
/// `fw4`.
#[derive(Debug, Clone)]
pub struct OpenWrtBackend {
    table_id: u32,
    mark: String,
}

/// The settings of an OpenWrt backend.
pub struct OpenWrtView {
    pub table_id: u32,
    pub mark: Seq<char>,
}

impl View for OpenWrtBackend {
    type V = OpenWrtView;

    closed spec fn view(&self) -> OpenWrtView {
        OpenWrtView { table_id: self.table_id, mark: self.mark@ }
    }
}

pub open spec fn otbl(b: OpenWrtView) -> Seq<char> {
    decimal(b.table_id as nat)
}

pub open spec fn owrt_fwmark(b: OpenWrtView, apply: bool) -> CmdView {
    if apply {
        sh(
            "ip rule del fwmark "@ + b.mark + " lookup "@ + otbl(b)
                + " 2>/dev/null || true; ip rule add fwmark "@ + b.mark + " lookup "@ + otbl(b),
        )
    } else {
        sh("ip rule del fwmark "@ + b.mark + " lookup "@ + otbl(b) + " 2>/dev/null || true"@)
    }
}

pub open spec fn iif_lookup(iface: Seq<char>, t: Seq<char>, apply: bool) -> CmdView {
    if apply {
        sh(
            "ip rule del iif "@ + iface + " lookup "@ + t + " 2>/dev/null || true; ip rule add iif "@
                + iface + " lookup "@ + t,
        )
    } else {
        sh("ip rule del iif "@ + iface + " lookup "@ + t + " 2>/dev/null || true"@)
    }
}

pub open spec fn iif_lookup_fn(t: Seq<char>, apply: bool) -> spec_fn(String) -> CmdView {
    |iface: String| iif_lookup(iface@, t, apply)
}

pub open spec fn rule_from_fn(t: Seq<char>, apply: bool) -> spec_fn(String) -> Seq<CmdView> {
    |cidr: String|
        if apply {
            seq![rule_from_apply(cidr@, t)]
        } else {
            seq![rule_from_delete(cidr@, t)]
        }
}

/// The source side on OpenWrt: route the table to the exit peer, send managed CIDRs (or, for a
/// full tunnel, the ingress interfaces) to it, and mark the device's own traffic if asked.
pub open spec fn owrt_source_apply(b: OpenWrtView, p: DevicePolicy) -> Seq<CmdView> {
    let t = otbl(b);
    let cidrs = p.managed_cidrs@;
    seq![
        cv(
            "ip"@,
            seq![
                "route"@,
                "replace"@,
                "default"@,
                "via"@,
                text_or_empty(p.exit_peer_ipv4),
                "dev"@,
                p.easytier_iface@,
                "table"@,
                t,
            ],
        ),
    ] + cidrs.filter(not_default_route()).flat_map(rule_from_fn(t, true)) + (
    if any_default_route(cidrs) {
        seq![sh("ip rule del from 0.0.0.0/0 lookup "@ + t + " 2>/dev/null || true"@)]
            + p.ingress_ifaces@.map_values(iif_lookup_fn(t, true))
    } else {
        Seq::empty()
    }) + (if p.include_device_traffic {
        seq![owrt_fwmark(b, true)]
    } else {
        Seq::empty()
    })
}

pub open spec fn owrt_source_cleanup(b: OpenWrtView, p: DevicePolicy) -> Seq<CmdView> {
    let t = otbl(b);
    let cidrs = p.managed_cidrs@;
    cidrs.filter(not_default_route()).flat_map(rule_from_fn(t, false)) + (if any_default_route(
        cidrs,
    ) {
        p.ingress_ifaces@.map_values(iif_lookup_fn(t, false))
    } else {
        Seq::empty()
    }) + (if p.include_device_traffic {
        seq![owrt_fwmark(b, false)]
    } else {
        Seq::empty()
    }) + seq![flush_table(t)]
}

/// The sources the exit masquerades: the source peer's own address when device traffic is
/// managed, then the managed CIDRs.
pub open spec fn nat_source_list(p: DevicePolicy) -> Seq<Seq<char>> {
    (match p.source_peer_ipv4 {
        Some(peer) if p.include_device_traffic => seq![peer@ + "/32"@],
        _ => Seq::empty(),
    }) + p.managed_cidrs@.map_values(|c: String| c@)
}

pub open spec fn nat_section(idx: int, dp: Seq<char>) -> Seq<char> {
    section_name("nat_"@ + decimal(idx as nat), dp)
}

/// The `uci` lines for the NAT rule of one source.
pub open spec fn nat_lines(idx: int, cidr: Seq<char>, dp: Seq<char>) -> Seq<char> {
    let s = nat_section(idx, dp);
    "delete firewall."@ + s + "\n"@ + "set firewall."@ + s + "=nat\n"@ + "set firewall."@ + s
        + ".name='"@ + uci_quoted("easytier-agent-nat-"@ + dp + "-"@ + decimal(idx as nat))
        + "'\n"@ + "set firewall."@ + s + ".src='*'\n"@ + "set firewall."@ + s + ".src_ip='"@
        + uci_quoted(cidr) + "'\n"@ + "set firewall."@ + s + ".target='MASQUERADE'\n"@
}

pub open spec fn batch_head(dp: Seq<char>) -> Seq<char> {
    "uci -q batch <<'UCI'\n"@ + "delete firewall."@ + section_name("forward"@, dp) + "\n"@
}

pub open spec fn batch_tail() -> Seq<char> {
    "commit firewall\nUCI"@
}

/// The `uci` batch that (re)creates one masquerade rule per NAT source.
pub open spec fn apply_batch(p: DevicePolicy) -> Seq<char> {
    let dp = p.device_policy_id@;
    batch_head(dp) + nat_source_list(p).map(|i: int, c: Seq<char>| nat_lines(i, c, dp)).flatten()
        + batch_tail()
}

/// The `uci` batch that deletes the forward section and every NAT section.
pub open spec fn cleanup_batch(p: DevicePolicy) -> Seq<char> {
    let dp = p.device_policy_id@;
    batch_head(dp) + nat_source_list(p).map(
        |i: int, c: Seq<char>| "delete firewall."@ + nat_section(i, dp) + "\n"@,
    ).flatten() + batch_tail()
}

pub open spec fn delete_forward_rule(dp: Seq<char>) -> Seq<char> {
    "nft -a list chain inet fw4 forward 2>/dev/null | awk -v c="@ + single_quoted(dp)
        + " 'index($0, c) { print $NF }' | xargs -r -n1 nft delete rule inet fw4 forward handle"@
}

pub open spec fn add_forward_rule(iface: Seq<char>, dp: Seq<char>) -> Seq<char> {
    "nft insert rule inet fw4 forward iifname "@ + nft_quoted(iface) + " accept comment "@
        + nft_quoted(dp)
}

pub open spec fn route_back_nd_fn(source_peer: Seq<char>, iface: Seq<char>) -> spec_fn(
    String,
) -> Seq<CmdView> {
    |cidr: String|
        seq![cv("ip"@, seq!["route"@, "replace"@, cidr@, "via"@, source_peer, "dev"@, iface])]
}

pub open spec fn route_delete_nd_fn() -> spec_fn(String) -> Seq<CmdView> {
    |cidr: String| seq![route_delete(cidr@)]
}

/// The exit side on OpenWrt: forwarding on, masquerade through `uci`, `fw4` reloaded, the
/// tunnel accepted before fw4's reject tail, and routes back to the source peer.
pub open spec fn owrt_exit_apply(b: OpenWrtView, p: DevicePolicy) -> Seq<CmdView> {
    let iface = p.easytier_iface@;
    let dp = p.device_policy_id@;
    seq![
        cv("sysctl"@, seq!["-w"@, "net.ipv4.ip_forward=1"@]),
        sh(apply_batch(p)),
        cv("fw4"@, seq!["reload"@]),
        sh(delete_forward_rule(dp)),
        sh(add_forward_rule(iface, dp)),
    ] + p.managed_cidrs@.filter(not_default_route()).flat_map(
        route_back_nd_fn(text_or_empty(p.source_peer_ipv4), iface),
    ) + seq![flush_table(otbl(b))]
}

pub open spec fn owrt_exit_cleanup(b: OpenWrtView, p: DevicePolicy) -> Seq<CmdView> {
    let dp = p.device_policy_id@;
    seq![sh(cleanup_batch(p)), cv("fw4"@, seq!["reload"@]), sh(delete_forward_rule(dp))]
        + p.managed_cidrs@.filter(not_default_route()).flat_map(route_delete_nd_fn()) + seq![
        flush_table(otbl(b)),
    ]
}

pub open spec fn owrt_plan_apply(b: OpenWrtView, p: DevicePolicy) -> Result<
    Seq<CmdView>,
    PolicyError,
> {
    match validation(p) {
        Err(e) => Err(e),
        Ok(_) => Ok(
            match p.role {
                DevicePolicyRole::ClientGatewayViaPeer => owrt_source_apply(b, p),
                DevicePolicyRole::ProvideExitForGateway => owrt_exit_apply(b, p),
            },
        ),
    }
}

pub open spec fn owrt_plan_cleanup(b: OpenWrtView, p: DevicePolicy) -> Result<
    Seq<CmdView>,
    PolicyError,
> {
    match validation(p) {
        Err(e) => Err(e),
        Ok(_) => Ok(
            match p.role {
                DevicePolicyRole::ClientGatewayViaPeer => owrt_source_cleanup(b, p),
                DevicePolicyRole::ProvideExitForGateway => owrt_exit_cleanup(b, p),
            },
        ),
    }
}

fn nat_sources(policy: &DevicePolicy) -> (r: Vec<String>)
    ensures
        r@.map_values(|c: String| c@) == nat_source_list(*policy),
{
    let mut r: Vec<String> = Vec::new();
    if policy.include_device_traffic {
        match &policy.source_peer_ipv4 {
            Some(peer) => {
                let mut s = peer.clone();
                push_str(&mut s, "/32");
                r.push(s);
            },
            None => {},
        }
    }
    let ghost head = r@.map_values(|c: String| c@);
    let cidrs = &policy.managed_cidrs;
    let mut i: usize = 0;
    while i < cidrs.len()
        invariant
            0 <= i <= cidrs@.len(),
            cidrs == &policy.managed_cidrs,
            r@.map_values(|c: String| c@) == head + cidrs@.take(i as int).map_values(
                |c: String| c@,
            ),
        decreases cidrs.len() - i,
    {
        let ghost before = r@;
        r.push(cidrs[i].clone());
        assert(r@.map_values(|c: String| c@) =~= before.map_values(|c: String| c@).push(
            cidrs@[i as int]@,
        ));
        assert(cidrs@.take(i + 1).map_values(|c: String| c@) =~= cidrs@.take(i as int).map_values(
            |c: String| c@,
        ).push(cidrs@[i as int]@));
        i += 1;
    }
    assert(cidrs@.take(cidrs@.len() as int) == cidrs@);
    assert(head =~= (match policy.source_peer_ipv4 {
        Some(peer) if policy.include_device_traffic => seq![peer@ + "/32"@],
        _ => Seq::<Seq<char>>::empty(),
    }));
    r
}

fn push_batch_head(s: &mut String, dp: &str)
    ensures
        final(s)@ == old(s)@ + batch_head(dp@),
{
    push_str(s, "uci -q batch <<'UCI'\n");
    push_str(s, "delete firewall.");
    let forward = uci_section_name("forward", dp);
    push_str(s, forward.as_str());
    push_str(s, "\n");
}

fn nat_section_text(idx: usize, dp: &str) -> (r: String)
    ensures
        r@ == nat_section(idx as int, dp@),
{
    let mut prefix = owned("nat_");
    let n = u64_to_decimal(idx as u64);
    push_str(&mut prefix, n.as_str());
    uci_section_name(prefix.as_str(), dp)
}

fn nat_lines_text(idx: usize, cidr: &str, dp: &str) -> (r: String)
    ensures
        r@ == nat_lines(idx as int, cidr@, dp@),
{
    let sec = nat_section_text(idx, dp);
    let sn = sec.as_str();
    let mut name = owned("easytier-agent-nat-");
    push_str(&mut name, dp);
    push_str(&mut name, "-");
    let n = u64_to_decimal(idx as u64);
    push_str(&mut name, n.as_str());
    let quoted_name = uci_quote(name.as_str());
    let quoted_cidr = uci_quote(cidr);
    let mut s = owned("delete firewall.");
    push_str(&mut s, sn);
    push_str(&mut s, "\n");
    push_str(&mut s, "set firewall.");
    push_str(&mut s, sn);
    push_str(&mut s, "=nat\n");
    push_str(&mut s, "set firewall.");
    push_str(&mut s, sn);
    push_str(&mut s, ".name='");
    push_str(&mut s, quoted_name.as_str());
    push_str(&mut s, "'\n");
    push_str(&mut s, "set firewall.");
    push_str(&mut s, sn);
    push_str(&mut s, ".src='*'\n");
    push_str(&mut s, "set firewall.");
    push_str(&mut s, sn);
    push_str(&mut s, ".src_ip='");
    push_str(&mut s, quoted_cidr.as_str());
    push_str(&mut s, "'\n");
    push_str(&mut s, "set firewall.");
    push_str(&mut s, sn);
    push_str(&mut s, ".target='MASQUERADE'\n");
    s
}

fn uci_batch(policy: &DevicePolicy, apply: bool) -> (r: String)
    ensures
        r@ == (if apply {
            apply_batch(*policy)
        } else {
            cleanup_batch(*policy)
        }),
{
    let dp = policy.device_policy_id.as_str();
    let sources = nat_sources(policy);
    let ghost list = nat_source_list(*policy);
    let ghost ga = |i: int, c: Seq<char>| nat_lines(i, c, dp@);
    let ghost gd = |i: int, c: Seq<char>| "delete firewall."@ + nat_section(i, dp@) + "\n"@;
    let mut s = String::new();
    push_batch_head(&mut s, dp);
    let ghost head = s@;
    assert(list.take(0).map(ga) =~= Seq::<Seq<char>>::empty());
    assert(list.take(0).map(gd) =~= Seq::<Seq<char>>::empty());
    assert(s@ =~= head + Seq::<Seq<char>>::empty().flatten());
    let mut i: usize = 0;
    while i < sources.len()
        invariant
            0 <= i <= sources@.len(),
            list.len() == sources@.len(),
            forall|k: int| 0 <= k < list.len() ==> #[trigger] list[k] == sources@[k]@,
            ga == (|i: int, c: Seq<char>| nat_lines(i, c, dp@)),
            gd == (|i: int, c: Seq<char>| "delete firewall."@ + nat_section(i, dp@) + "\n"@),
            s@ == head + (if apply {
                list.take(i as int).map(ga).flatten()
            } else {
                list.take(i as int).map(gd).flatten()
            }),
        decreases sources.len() - i,
    {
        let piece = if apply {
            nat_lines_text(i, sources[i].as_str(), dp)
        } else {
            let sec = nat_section_text(i, dp);
            let mut d = owned("delete firewall.");
            push_str(&mut d, sec.as_str());
            push_str(&mut d, "\n");
            d
        };
        proof {
            assert(list.take(i + 1).map(ga) =~= list.take(i as int).map(ga).push(ga(i as int, list[i as int])));
            assert(list.take(i + 1).map(gd) =~= list.take(i as int).map(gd).push(gd(i as int, list[i as int])));
            lemma_flatten_push(list.take(i as int).map(ga), ga(i as int, list[i as int]));
            lemma_flatten_push(list.take(i as int).map(gd), gd(i as int, list[i as int]));
        }
        push_str(&mut s, piece.as_str());
        i += 1;
    }
    assert(list.take(list.len() as int) == list);
    assert(list =~= sources@.map_values(|c: String| c@));
    push_str(&mut s, "commit firewall\nUCI");
    s
}

fn delete_forward_rule_text(dp: &str) -> (r: String)
    ensures
        r@ == delete_forward_rule(dp@),
{
    let quoted = shell_single_quote(dp);
    let mut s = owned("nft -a list chain inet fw4 forward 2>/dev/null | awk -v c=");
    push_str(&mut s, quoted.as_str());
    push_str(
        &mut s,
        " 'index($0, c) { print $NF }' | xargs -r -n1 nft delete rule inet fw4 forward handle",
    );
    s
}

fn add_forward_rule_text(iface: &str, dp: &str) -> (r: String)
    ensures
        r@ == add_forward_rule(iface@, dp@),
{
    let qi = nft_string(iface);
    let qd = nft_string(dp);
    let mut s = owned("nft insert rule inet fw4 forward iifname ");
    push_str(&mut s, qi.as_str());
    push_str(&mut s, " accept comment ");
    push_str(&mut s, qd.as_str());
    s
}

impl OpenWrtBackend {
    /// OpenWrt's settings: table 126, mark 0x7e.
    pub open spec fn default_view() -> OpenWrtView {
        OpenWrtView { table_id: 126, mark: "0x7e"@ }
    }

    fn table_text(&self) -> (r: String)
        ensures
            r@ == otbl(self@),
    {
        u64_to_decimal(self.table_id as u64)
    }

    fn fwmark_command(&self, apply: bool) -> (c: CommandPlan)
        ensures
            c@ == owrt_fwmark(self@, apply),
    {
        let t = self.table_text();
        let mut s = owned("ip rule del fwmark ");
        push_str(&mut s, self.mark.as_str());
        push_str(&mut s, " lookup ");
        push_str(&mut s, t.as_str());
        if apply {
            push_str(&mut s, " 2>/dev/null || true; ip rule add fwmark ");
            push_str(&mut s, self.mark.as_str());
            push_str(&mut s, " lookup ");
            push_str(&mut s, t.as_str());
        } else {
            push_str(&mut s, " 2>/dev/null || true");
        }
        sh_command(s.as_str())
    }

    /// One rule per managed CIDR that is not the default route.
    fn cidr_rules(&self, policy: &DevicePolicy, t: &str, apply: bool) -> (r: Vec<CommandPlan>)
        ensures
            plans(r@) == policy.managed_cidrs@.filter(not_default_route()).flat_map(
                rule_from_fn(t@, apply),
            ),
    {
        let cidrs = &policy.managed_cidrs;
        let ghost f = rule_from_fn(t@, apply);
        let mut r = no_plans();
        proof {
            lemma_flat_map_empty(f);
            assert(cidrs@.take(0).filter(not_default_route()) =~= Seq::<String>::empty());
        }
        let mut i: usize = 0;
        while i < cidrs.len()
            invariant
                0 <= i <= cidrs@.len(),
                cidrs == &policy.managed_cidrs,
                f == rule_from_fn(t@, apply),
                plans(r@) == cidrs@.take(i as int).filter(not_default_route()).flat_map(f),
            decreases cidrs.len() - i,
        {
            proof {
                lemma_filter_take(cidrs@, not_default_route(), i as int);
                lemma_flat_map_push(cidrs@.take(i as int).filter(not_default_route()), f, cidrs@[i as int]);
            }
            if !cidr_is_default_route(cidrs[i].as_str()) {
                let c = cidrs[i].as_str();
                let mut s = owned("ip rule del from ");
                push_str(&mut s, c);
                push_str(&mut s, " lookup ");
                push_str(&mut s, t);
                if apply {
                    push_str(&mut s, " 2>/dev/null || true; ip rule add from ");
                    push_str(&mut s, c);
                    push_str(&mut s, " lookup ");
                    push_str(&mut s, t);
                } else {
                    push_str(&mut s, " 2>/dev/null || true");
                }
                let mut one = no_plans();
                push_plan(&mut one, sh_command(s.as_str()));
                append_plans(&mut r, one);
            }
            i += 1;
        }
        assert(cidrs@.take(cidrs@.len() as int) == cidrs@);
        r
    }

    /// One `iif` rule per ingress interface.
    fn iif_rules(&self, policy: &DevicePolicy, t: &str, apply: bool) -> (r: Vec<CommandPlan>)
        ensures
            plans(r@) == policy.ingress_ifaces@.map_values(iif_lookup_fn(t@, apply)),
    {
        let ifaces = &policy.ingress_ifaces;
        let ghost f = iif_lookup_fn(t@, apply);
        let mut r = no_plans();
        let mut i: usize = 0;
        while i < ifaces.len()
            invariant
                0 <= i <= ifaces@.len(),
                ifaces == &policy.ingress_ifaces,
                f == iif_lookup_fn(t@, apply),
                plans(r@) == ifaces@.take(i as int).map_values(f),
            decreases ifaces.len() - i,
        {
            let g = ifaces[i].as_str();
            let mut s = owned("ip rule del iif ");
            push_str(&mut s, g);
            push_str(&mut s, " lookup ");
            push_str(&mut s, t);
            if apply {
                push_str(&mut s, " 2>/dev/null || true; ip rule add iif ");
                push_str(&mut s, g);
                push_str(&mut s, " lookup ");
                push_str(&mut s, t);
            } else {
                push_str(&mut s, " 2>/dev/null || true");
            }
            push_plan(&mut r, sh_command(s.as_str()));
            assert(ifaces@.take(i + 1).map_values(f) =~= ifaces@.take(i as int).map_values(f).push(
                iif_lookup(ifaces@[i as int]@, t@, apply),
            ));
            i += 1;
        }
        assert(ifaces@.take(ifaces@.len() as int) == ifaces@);
        r
    }

    /// For each managed CIDR that is not the default route: a route back to the source peer
    /// (apply) or a route deletion (cleanup).
    fn cidr_routes(&self, policy: &DevicePolicy, source_peer: &str, apply: bool) -> (r: Vec<
        CommandPlan,
    >)
        ensures
            plans(r@) == (if apply {
                policy.managed_cidrs@.filter(not_default_route()).flat_map(
                    route_back_nd_fn(source_peer@, policy.easytier_iface@),
                )
            } else {
                policy.managed_cidrs@.filter(not_default_route()).flat_map(route_delete_nd_fn())
            }),
    {
        let cidrs = &policy.managed_cidrs;
        let ghost fa = route_back_nd_fn(source_peer@, policy.easytier_iface@);
        let ghost fd = route_delete_nd_fn();
        let mut r = no_plans();
        proof {
            lemma_flat_map_empty(fa);
            lemma_flat_map_empty(fd);
            assert(cidrs@.take(0).filter(not_default_route()) =~= Seq::<String>::empty());
        }
        let mut i: usize = 0;
        while i < cidrs.len()
            invariant
                0 <= i <= cidrs@.len(),
                cidrs == &policy.managed_cidrs,
                fa == route_back_nd_fn(source_peer@, policy.easytier_iface@),
                fd == route_delete_nd_fn(),
                plans(r@) == (if apply {
                    cidrs@.take(i as int).filter(not_default_route()).flat_map(fa)
                } else {
                    cidrs@.take(i as int).filter(not_default_route()).flat_map(fd)
                }),
            decreases cidrs.len() - i,
        {
            proof {
                lemma_filter_take(cidrs@, not_default_route(), i as int);
                lemma_flat_map_push(cidrs@.take(i as int).filter(not_default_route()), fa, cidrs@[i as int]);
                lemma_flat_map_push(cidrs@.take(i as int).filter(not_default_route()), fd, cidrs@[i as int]);
            }
            if !cidr_is_default_route(cidrs[i].as_str()) {
                let c = cidrs[i].as_str();
                let cmd = if apply {
                    CommandPlan::new(
                        "ip",
                        &["route", "replace", c, "via", source_peer, "dev", policy.easytier_iface.as_str()],
                    )
                } else {
                    let mut s = owned("ip route del ");
                    push_str(&mut s, c);
                    push_str(&mut s, " 2>/dev/null || true");
                    sh_command(s.as_str())
                };
                let mut one = no_plans();
                push_plan(&mut one, cmd);
                assert(apply ==> plans(one@) =~~= fa(cidrs@[i as int]));
                assert(!apply ==> plans(one@) =~~= fd(cidrs@[i as int]));
                append_plans(&mut r, one);
            }
            i += 1;
        }
        assert(cidrs@.take(cidrs@.len() as int) == cidrs@);
        r
    }

    fn flush_command(&self) -> (c: CommandPlan)
        ensures
            c@ == flush_table(otbl(self@)),
    {
        let t = self.table_text();
        let mut s = owned("ip route flush table ");
        push_str(&mut s, t.as_str());
        push_str(&mut s, " 2>/dev/null || true");
        sh_command(s.as_str())
    }

    fn source_apply(&self, policy: &DevicePolicy) -> (r: Vec<CommandPlan>)
        ensures
            plans(r@) == owrt_source_apply(self@, *policy),
    {
        let t = self.table_text();
        let exit_peer = match &policy.exit_peer_ipv4 {
            Some(s) => s.clone(),
            None => String::new(),
        };
        let mut out = no_plans();
        push_plan(
            &mut out,
            CommandPlan::new(
                "ip",
                &["route", "replace", "default", "via", exit_peer.as_str(), "dev", policy.easytier_iface.as_str(), "table", t.as_str()],
            ),
        );
        assert(plans(out@) =~~= seq![
            cv(
                "ip"@,
                seq![
                    "route"@,
                    "replace"@,
                    "default"@,
                    "via"@,
                    text_or_empty(policy.exit_peer_ipv4),
                    "dev"@,
                    policy.easytier_iface@,
                    "table"@,
                    otbl(self@),
                ],
            ),
        ]);
        append_plans(&mut out, self.cidr_rules(policy, t.as_str(), true));
        let full = if has_default_route(&policy.managed_cidrs) {
            let mut f = no_plans();
            let mut s = owned("ip rule del from 0.0.0.0/0 lookup ");
            push_str(&mut s, t.as_str());
            push_str(&mut s, " 2>/dev/null || true");
            push_plan(&mut f, sh_command(s.as_str()));
            append_plans(&mut f, self.iif_rules(policy, t.as_str(), true));
            f
        } else {
            no_plans()
        };
        append_plans(&mut out, full);
        let device = if policy.include_device_traffic {
            let mut d = no_plans();
            push_plan(&mut d, self.fwmark_command(true));
            d
        } else {
            no_plans()
        };
        append_plans(&mut out, device);
        out
    }

    fn source_cleanup(&self, policy: &DevicePolicy) -> (r: Vec<CommandPlan>)
        ensures
            plans(r@) == owrt_source_cleanup(self@, *policy),
    {
        let t = self.table_text();
        let mut out = self.cidr_rules(policy, t.as_str(), false);
        let full = if has_default_route(&policy.managed_cidrs) {
            self.iif_rules(policy, t.as_str(), false)
        } else {
            no_plans()
        };
        append_plans(&mut out, full);
        let device = if policy.include_device_traffic {
            let mut d = no_plans();
            push_plan(&mut d, self.fwmark_command(false));
            d
        } else {
            no_plans()
        };
        append_plans(&mut out, device);
        let mut tail = no_plans();
        push_plan(&mut tail, self.flush_command());
        append_plans(&mut out, tail);
        out
    }

    fn exit_apply(&self, policy: &DevicePolicy) -> (r: Vec<CommandPlan>)
        ensures
            plans(r@) == owrt_exit_apply(self@, *policy),
    {
        let dp = policy.device_policy_id.as_str();
        let iface = policy.easytier_iface.as_str();
        let source_peer = match &policy.source_peer_ipv4 {
            Some(s) => s.clone(),
            None => String::new(),
        };
        let batch = uci_batch(policy, true);
        let delete_rule = delete_forward_rule_text(dp);
        let add_rule = add_forward_rule_text(iface, dp);
        let mut out = no_plans();
        push_plan(&mut out, CommandPlan::new("sysctl", &["-w", "net.ipv4.ip_forward=1"]));
        push_plan(&mut out, sh_command(batch.as_str()));
        push_plan(&mut out, CommandPlan::new("fw4", &["reload"]));
        push_plan(&mut out, sh_command(delete_rule.as_str()));
        push_plan(&mut out, sh_command(add_rule.as_str()));
        assert(plans(out@) =~~= seq![
            cv("sysctl"@, seq!["-w"@, "net.ipv4.ip_forward=1"@]),
            sh(apply_batch(*policy)),
            cv("fw4"@, seq!["reload"@]),
            sh(delete_forward_rule(dp@)),
            sh(add_forward_rule(iface@, dp@)),
        ]);
        append_plans(&mut out, self.cidr_routes(policy, source_peer.as_str(), true));
        let mut tail = no_plans();
        push_plan(&mut tail, self.flush_command());
        append_plans(&mut out, tail);
        out
    }

    fn exit_cleanup(&self, policy: &DevicePolicy) -> (r: Vec<CommandPlan>)
        ensures
            plans(r@) == owrt_exit_cleanup(self@, *policy),
    {
        let dp = policy.device_policy_id.as_str();
        let batch = uci_batch(policy, false);
        let delete_rule = delete_forward_rule_text(dp);
        let mut out = no_plans();
        push_plan(&mut out, sh_command(batch.as_str()));
        push_plan(&mut out, CommandPlan::new("fw4", &["reload"]));
        push_plan(&mut out, sh_command(delete_rule.as_str()));
        assert(plans(out@) =~~= seq![
            sh(cleanup_batch(*policy)),
            cv("fw4"@, seq!["reload"@]),
            sh(delete_forward_rule(dp@)),
        ]);
        append_plans(&mut out, self.cidr_routes(policy, "", false));
        let mut tail = no_plans();
        push_plan(&mut tail, self.flush_command());
        append_plans(&mut out, tail);
        out
    }

    /// The commands that apply a device policy, after validating it.
    pub fn plan_apply(&self, policy: &DevicePolicy) -> (r: Result<Vec<CommandPlan>, PolicyError>)
        ensures
            plan_result_view(r) == owrt_plan_apply(self@, *policy),
    {
        policy.validate()?;
        Ok(
            match policy.role {
                DevicePolicyRole::ClientGatewayViaPeer => self.source_apply(policy),
                DevicePolicyRole::ProvideExitForGateway => self.exit_apply(policy),
            },
        )
    }

    /// The commands that remove a device policy's rules, after validating it.
    pub fn plan_cleanup(&self, policy: &DevicePolicy) -> (r: Result<Vec<CommandPlan>, PolicyError>)
        ensures
            plan_result_view(r) == owrt_plan_cleanup(self@, *policy),
    {
        policy.validate()?;
        Ok(
            match policy.role {
                DevicePolicyRole::ClientGatewayViaPeer => self.source_cleanup(policy),
                DevicePolicyRole::ProvideExitForGateway => self.exit_cleanup(policy),
            },
        )
    }
}

impl Default for OpenWrtBackend {
    fn default() -> (r: OpenWrtBackend)
        ensures
            r@ == OpenWrtBackend::default_view(),
    {
        OpenWrtBackend { table_id: 126, mark: owned("0x7e") }
    }
}

/// An OpenWrt exit device's plan turns IPv4 forwarding on and never sets it any other way: it
/// holds `sysctl -w net.ipv4.ip_forward=1`, and every `sysctl` command in it is that one.
pub proof fn lemma_owrt_exit_plan_turns_forwarding_on(b: OpenWrtView, p: DevicePolicy)
    requires
        p.role == DevicePolicyRole::ProvideExitForGateway,
    ensures
        owrt_plan_apply(b, p) matches Ok(cmds) ==> {
            &&& cmds.contains(cv("sysctl"@, seq!["-w"@, "net.ipv4.ip_forward=1"@]))
            &&& forall|i: int|
                0 <= i < cmds.len() && #[trigger] cmds[i].program == "sysctl"@ ==> cmds[i] == cv(
                    "sysctl"@,
                    seq!["-w"@, "net.ipv4.ip_forward=1"@],
                )
        },
{
    if validation(p) is Ok {
        reveal_strlit("sysctl");
        reveal_strlit("sh");
        reveal_strlit("fw4");
        reveal_strlit("ip");
        assert("sh"@ != "sysctl"@ && "fw4"@ != "sysctl"@ && "ip"@ != "sysctl"@) by {
            assert("sh"@.len() != "sysctl"@.len());
            assert("fw4"@.len() != "sysctl"@.len());
            assert("ip"@.len() != "sysctl"@.len());
        }
        let on = cv("sysctl"@, seq!["-w"@, "net.ipv4.ip_forward=1"@]);
        let ok = |c: CmdView| c.program == "sysctl"@ ==> c == on;
        let dp = p.device_policy_id@;
        let iface = p.easytier_iface@;
        let head = seq![
            cv("sysctl"@, seq!["-w"@, "net.ipv4.ip_forward=1"@]),
            sh(apply_batch(p)),
            cv("fw4"@, seq!["reload"@]),
            sh(delete_forward_rule(dp)),
            sh(add_forward_rule(iface, dp)),
        ];
        assert(all_of(head, ok));
        let f = route_back_nd_fn(text_or_empty(p.source_peer_ipv4), iface);
        assert forall|x: String| all_of(#[trigger] f(x), ok) by {}
        let cidrs = p.managed_cidrs@.filter(not_default_route());
        lemma_all_of_flat_map(cidrs, f, ok);
        let tail = seq![flush_table(otbl(b))];
        assert(all_of(tail, ok));
        lemma_all_of_concat(head, cidrs.flat_map(f), ok);
        lemma_all_of_concat(head + cidrs.flat_map(f), tail, ok);
        let cmds = owrt_exit_apply(b, p);
        assert(cmds == head + cidrs.flat_map(f) + tail);
        assert(cmds[0] == on);
        assert forall|i: int| 0 <= i < cmds.len() && #[trigger] cmds[i].program == "sysctl"@ implies cmds[i] == on by {
            assert(ok(cmds[i]));
        }
    }
}

} // verus!
