//! The rules a node installs for a gateway policy pushed over RPC: the commands that mark and
//! route managed traffic on the source, masquerade it on the exit, and remove it all again.
use vstd::prelude::*;

use crate::command::str_views;
use crate::gateway::{effective_iface, easytier_iface, GatewayPolicy, GatewayRole};
use crate::outside::{ip_cidr_parses, parses_as_ip_cidr};
use crate::seqs::{
    all_of, lemma_all_of_concat, lemma_all_of_flat_map, lemma_concat_contains,
    lemma_flat_map_contains, lemma_flat_map_empty, lemma_flat_map_push,
};
use crate::text::{
    blank, char_is_ascii_alnum, chars_of, concat2, contains_char, i64_to_decimal, is_ascii_alnum,
    is_blank, owned, signed_decimal, views,
};

verus! {

/// One system command to run; a failure of an `ignore_error` command is not an error.
#[derive(Debug, Clone, PartialEq, Eq)]
pub struct CommandSpec {
    pub cmd: &'static str,
    pub args: Vec<String>,
    pub ignore_error: bool,
}

/// A command, as text.
#[verifier::ext_equal]
pub struct SpecView {
    pub cmd: Seq<char>,
    pub args: Seq<Seq<char>>,
    pub ignore_error: bool,
}

impl View for CommandSpec {
    type V = SpecView;

    open spec fn view(&self) -> SpecView {
        SpecView { cmd: self.cmd@, args: views(self.args@), ignore_error: self.ignore_error }
    }
}

pub open spec fn specs(v: Seq<CommandSpec>) -> Seq<SpecView> {
    v.map_values(|c: CommandSpec| c@)
}

/// A command whose failure fails the plan.
pub open spec fn required(cmd: Seq<char>, args: Seq<Seq<char>>) -> SpecView {
    SpecView { cmd, args, ignore_error: false }
}

/// A command whose failure is ignored (rules for OpenWrt's fw4, which plain Linux lacks).
pub open spec fn optional(cmd: Seq<char>, args: Seq<Seq<char>>) -> SpecView {
    SpecView { cmd, args, ignore_error: true }
}

/// Why a gateway policy cannot be planned.
#[derive(Debug, Clone, PartialEq, Eq)]
pub enum GatewayPlanError {
    UnknownRole(i32),
    MissingPolicyId,
    NoManagedCidrs,
    InvalidCidr(String),
    MissingField(&'static str),
    InvalidIfaceChars(&'static str, String),
    InvalidIp(&'static str, String),
}

/// A planning error, as text.
pub enum PlanFault {
    UnknownRole(i32),
    MissingPolicyId,
    NoManagedCidrs,
    InvalidCidr(Seq<char>),
    MissingField(Seq<char>),
    InvalidIfaceChars(Seq<char>, Seq<char>),
    InvalidIp(Seq<char>, Seq<char>),
}

impl View for GatewayPlanError {
    type V = PlanFault;

    open spec fn view(&self) -> PlanFault {
        match self {
            GatewayPlanError::UnknownRole(r) => PlanFault::UnknownRole(*r),
            GatewayPlanError::MissingPolicyId => PlanFault::MissingPolicyId,
            GatewayPlanError::NoManagedCidrs => PlanFault::NoManagedCidrs,
            GatewayPlanError::InvalidCidr(c) => PlanFault::InvalidCidr(c@),
            GatewayPlanError::MissingField(f) => PlanFault::MissingField(f@),
            GatewayPlanError::InvalidIfaceChars(f, v) => PlanFault::InvalidIfaceChars(f@, v@),
            GatewayPlanError::InvalidIp(f, v) => PlanFault::InvalidIp(f@, v@),
        }
    }
}

/// The message an error reads as.
pub open spec fn fault_message(f: PlanFault) -> Seq<char> {
    match f {
        PlanFault::UnknownRole(r) => "未知网关角色: "@ + signed_decimal(r as int),
        PlanFault::MissingPolicyId => "policy_id 不能为空"@,
        PlanFault::NoManagedCidrs => "managed_cidrs 不能为空"@,
        PlanFault::InvalidCidr(c) => "managed_cidrs 包含非法 CIDR: "@ + c,
        PlanFault::MissingField(field) => field + " 不能为空"@,
        PlanFault::InvalidIfaceChars(field, v) => field + " 包含非法字符: "@ + v,
        PlanFault::InvalidIp(field, v) => field + " 不是合法 IP: "@ + v,
    }
}

impl GatewayPlanError {
    /// The error's message.
    pub fn message(&self) -> (r: String)
        ensures
            r@ == fault_message(self@),
    {
        match self {
            GatewayPlanError::UnknownRole(role) => {
                let n = i64_to_decimal(*role as i64);
                concat2("未知网关角色: ", n.as_str())
            },
            GatewayPlanError::MissingPolicyId => owned("policy_id 不能为空"),
            GatewayPlanError::NoManagedCidrs => owned("managed_cidrs 不能为空"),
            GatewayPlanError::InvalidCidr(c) => concat2("managed_cidrs 包含非法 CIDR: ", c.as_str()),
            GatewayPlanError::MissingField(field) => concat2(field, " 不能为空"),
            GatewayPlanError::InvalidIfaceChars(field, v) => {
                let head = concat2(field, " 包含非法字符: ");
                concat2(head.as_str(), v.as_str())
            },
            GatewayPlanError::InvalidIp(field, v) => {
                let head = concat2(field, " 不是合法 IP: ");
                concat2(head.as_str(), v.as_str())
            },
        }
    }
}

// ---------------------------------------------------------------------------
// Checks
// ---------------------------------------------------------------------------
/// A character that may stand in an interface name.
pub open spec fn iface_char_ok(c: char) -> bool {
    is_ascii_alnum(c) || c == '_' || c == '-' || c == '.' || c == ':'
}

pub open spec fn iface_chars_ok(s: Seq<char>) -> bool {
    forall|i: int| 0 <= i < s.len() ==> iface_char_ok(#[trigger] s[i])
}

/// The fault of an interface name, if it has one.
pub open spec fn iface_fault(field: Seq<char>, s: Seq<char>) -> Option<PlanFault> {
    if blank(s) {
        Some(PlanFault::MissingField(field))
    } else if !iface_chars_ok(s) {
        Some(PlanFault::InvalidIfaceChars(field, s))
    } else {
        None
    }
}

/// The fault of an IP address field, given whether the address parses.
pub open spec fn ip_fault(field: Seq<char>, s: Seq<char>, parses: bool) -> Option<PlanFault> {
    if blank(s) {
        Some(PlanFault::MissingField(field))
    } else if !parses {
        Some(PlanFault::InvalidIp(field, s))
    } else {
        None
    }
}

/// `i` is the first managed CIDR that did not parse.
pub open spec fn is_first_unparsed(parsed: Seq<bool>, i: int) -> bool {
    &&& 0 <= i < parsed.len()
    &&& !parsed[i]
    &&& forall|j: int| 0 <= j < i ==> #[trigger] parsed[j]
}

pub open spec fn has_unparsed(parsed: Seq<bool>) -> bool {
    exists|i: int| is_first_unparsed(parsed, i)
}

/// The fault of the fields both roles need, given which managed CIDRs parse.
pub open spec fn common_fault(p: GatewayPolicy, parsed: Seq<bool>) -> Option<PlanFault> {
    if blank(p.policy_id@) {
        Some(PlanFault::MissingPolicyId)
    } else if p.managed_cidrs@.len() == 0 {
        Some(PlanFault::NoManagedCidrs)
    } else if has_unparsed(parsed) {
        Some(
            PlanFault::InvalidCidr(
                p.managed_cidrs@[choose|i: int| is_first_unparsed(parsed, i)]@,
            ),
        )
    } else {
        None
    }
}

/// The first fault, or the plan when there is none.
pub open spec fn unless(fault: Option<PlanFault>, rest: Result<Seq<SpecView>, PlanFault>) -> Result<
    Seq<SpecView>,
    PlanFault,
> {
    match fault {
        Some(f) => Err(f),
        None => rest,
    }
}

// ---------------------------------------------------------------------------
// The commands
// ---------------------------------------------------------------------------
pub open spec fn nft_table() -> Seq<char> {
    "easytier_gw"@
}

/// The fw4 input rule that accepts traffic arriving from the tunnel.
pub open spec fn fw4_input(et: Seq<char>) -> SpecView {
    optional(
        "nft"@,
        seq![
            "insert"@,
            "rule"@,
            "inet"@,
            "fw4"@,
            "input"@,
            "iifname"@,
            et,
            "accept"@,
            "comment"@,
            "easytier_gw"@,
        ],
    )
}

/// The rules a source node adds for one managed CIDR.
pub open spec fn source_cidr_rules(ingress: Seq<char>, et: Seq<char>, cidr: Seq<char>) -> Seq<
    SpecView,
> {
    seq![
        required(
            "nft"@,
            seq![
                "add"@,
                "rule"@,
                "inet"@,
                nft_table(),
                "prerouting"@,
                "iifname"@,
                ingress,
                "ip"@,
                "saddr"@,
                cidr,
                "ip"@,
                "daddr"@,
                "!="@,
                cidr,
                "meta"@,
                "mark"@,
                "set"@,
                "0x7e"@,
            ],
        ),
        optional(
            "nft"@,
            seq![
                "insert"@,
                "rule"@,
                "inet"@,
                "fw4"@,
                "forward"@,
                "iifname"@,
                ingress,
                "oifname"@,
                et,
                "ip"@,
                "saddr"@,
                cidr,
                "counter"@,
                "accept"@,
                "comment"@,
                "easytier_gw"@,
            ],
        ),
        optional(
            "nft"@,
            seq![
                "insert"@,
                "rule"@,
                "inet"@,
                "fw4"@,
                "forward"@,
                "iifname"@,
                et,
                "oifname"@,
                ingress,
                "ct"@,
                "state"@,
                "established,related"@,
                "counter"@,
                "accept"@,
                "comment"@,
                "easytier_gw"@,
            ],
        ),
    ]
}

pub open spec fn source_cidr_fn(ingress: Seq<char>, et: Seq<char>) -> spec_fn(String) -> Seq<
    SpecView,
> {
    |c: String| source_cidr_rules(ingress, et, c@)
}

/// The commands a source node runs: mark managed traffic and route it to the exit peer.
pub open spec fn source_commands(p: GatewayPolicy, et: Seq<char>) -> Seq<SpecView> {
    seq![
        required("nft"@, seq!["add"@, "table"@, "inet"@, nft_table()]),
        required(
            "nft"@,
            seq![
                "add"@,
                "chain"@,
                "inet"@,
                nft_table(),
                "prerouting"@,
                "{"@,
                "type"@,
                "filter"@,
                "hook"@,
                "prerouting"@,
                "priority"@,
                "-150"@,
                ";"@,
                "}"@,
            ],
        ),
        fw4_input(et),
    ] + p.managed_cidrs@.flat_map(source_cidr_fn(p.ingress_iface@, et)) + seq![
        required("ip"@, seq!["rule"@, "add"@, "fwmark"@, "0x7e"@, "table"@, "126"@]),
        required(
            "ip"@,
            seq![
                "route"@,
                "replace"@,
                "default"@,
                "via"@,
                p.exit_peer_tun_ip@,
                "dev"@,
                et,
                "table"@,
                "126"@,
            ],
        ),
    ]
}

/// The rules an exit node adds for one managed CIDR.
pub open spec fn exit_cidr_rules(wan: Seq<char>, et: Seq<char>, cidr: Seq<char>) -> Seq<SpecView> {
    seq![
        required(
            "nft"@,
            seq![
                "add"@,
                "rule"@,
                "inet"@,
                nft_table(),
                "postrouting"@,
                "ip"@,
                "saddr"@,
                cidr,
                "oif"@,
                wan,
                "masquerade"@,
            ],
        ),
        required(
            "nft"@,
            seq![
                "add"@,
                "rule"@,
                "inet"@,
                nft_table(),
                "forward"@,
                "iifname"@,
                et,
                "oifname"@,
                wan,
                "ip"@,
                "saddr"@,
                cidr,
                "counter"@,
                "accept"@,
            ],
        ),
        optional(
            "nft"@,
            seq![
                "insert"@,
                "rule"@,
                "inet"@,
                "fw4"@,
                "forward"@,
                "iifname"@,
                et,
                "oifname"@,
                wan,
                "ip"@,
                "saddr"@,
                cidr,
                "counter"@,
                "accept"@,
                "comment"@,
                "easytier_gw"@,
            ],
        ),
    ]
}

pub open spec fn exit_cidr_fn(wan: Seq<char>, et: Seq<char>) -> spec_fn(String) -> Seq<SpecView> {
    |c: String| exit_cidr_rules(wan, et, c@)
}

/// The commands an exit node runs: forward tunnel traffic and masquerade it out of the WAN.
pub open spec fn exit_commands(p: GatewayPolicy, et: Seq<char>) -> Seq<SpecView> {
    let wan = p.exit_wan_iface@;
    seq![
        required("sysctl"@, seq!["-w"@, "net.ipv4.ip_forward=1"@]),
        required("nft"@, seq!["add"@, "table"@, "inet"@, nft_table()]),
        required(
            "nft"@,
            seq![
                "add"@,
                "chain"@,
                "inet"@,
                nft_table(),
                "forward"@,
                "{"@,
                "type"@,
                "filter"@,
                "hook"@,
                "forward"@,
                "priority"@,
                "-150"@,
                ";"@,
                "}"@,
            ],
        ),
        required(
            "nft"@,
            seq![
                "add"@,
                "chain"@,
                "inet"@,
                nft_table(),
                "postrouting"@,
                "{"@,
                "type"@,
                "nat"@,
                "hook"@,
                "postrouting"@,
                "priority"@,
                "100"@,
                ";"@,
                "}"@,
            ],
        ),
        fw4_input(et),
        required(
            "nft"@,
            seq![
                "add"@,
                "rule"@,
                "inet"@,
                nft_table(),
                "forward"@,
                "iifname"@,
                wan,
                "oifname"@,
                et,
                "ct"@,
                "state"@,
                "established,related"@,
                "counter"@,
                "accept"@,
            ],
        ),
    ] + p.managed_cidrs@.flat_map(exit_cidr_fn(wan, et)) + seq![
        optional(
            "nft"@,
            seq![
                "insert"@,
                "rule"@,
                "inet"@,
                "fw4"@,
                "forward"@,
                "iifname"@,
                wan,
                "oifname"@,
                et,
                "ct"@,
                "state"@,
                "established,related"@,
                "counter"@,
                "accept"@,
                "comment"@,
                "easytier_gw"@,
            ],
        ),
    ]
}

/// The plan for a policy, given which managed CIDRs parse and whether the exit peer address
/// parses: the first fault in the order the checks run, or the role's commands.
pub open spec fn gateway_plan(p: GatewayPolicy, cidrs_parsed: Seq<bool>, exit_ip_parsed: bool) -> Result<
    Seq<SpecView>,
    PlanFault,
> {
    let et = effective_iface(p.easytier_iface@);
    match GatewayRole::spec_from_code(p.role) {
        None => Err(PlanFault::UnknownRole(p.role)),
        Some(GatewayRole::Source) => unless(
            common_fault(p, cidrs_parsed),
            unless(
                iface_fault("ingress_iface"@, p.ingress_iface@),
                unless(
                    iface_fault("easytier_iface"@, et),
                    unless(
                        ip_fault("exit_peer_tun_ip"@, p.exit_peer_tun_ip@, exit_ip_parsed),
                        Ok(source_commands(p, et)),
                    ),
                ),
            ),
        ),
        Some(GatewayRole::Exit) => unless(
            common_fault(p, cidrs_parsed),
            unless(
                iface_fault("exit_wan_iface"@, p.exit_wan_iface@),
                unless(iface_fault("easytier_iface"@, et), Ok(exit_commands(p, et))),
            ),
        ),
    }
}

/// Whether an IP address parses: `cidr` reads a text without `/` as a single address, with the
/// same parser as `IpAddr`, which never accepts `/`.
pub open spec fn ip_address_parses(s: Seq<char>) -> bool {
    !s.contains('/') && ip_cidr_parses(s)
}

pub open spec fn cidr_verdicts(cidrs: Seq<String>) -> Seq<bool> {
    cidrs.map_values(|c: String| ip_cidr_parses(c@))
}

/// The plan `Executor::plan_apply` answers for a policy.
pub open spec fn gateway_plan_apply(p: GatewayPolicy) -> Result<Seq<SpecView>, PlanFault> {
    gateway_plan(p, cidr_verdicts(p.managed_cidrs@), ip_address_parses(p.exit_peer_tun_ip@))
}

/// A planning result, as text.
pub open spec fn plan_view(r: Result<Vec<CommandSpec>, GatewayPlanError>) -> Result<
    Seq<SpecView>,
    PlanFault,
> {
    match r {
        Ok(v) => Ok(specs(v@)),
        Err(e) => Err(e@),
    }
}

/// The commands that remove every rule a gateway policy may have installed.
pub open spec fn cleanup_commands() -> Seq<SpecView> {
    seq![
        optional("sh"@, seq!["-c"@, cleanup_fw4_script()]),
        optional("sh"@, seq!["-c"@, cleanup_fwmark_script()]),
        required("ip"@, seq!["rule"@, "del"@, "fwmark"@, "0x7e"@, "table"@, "126"@]),
        required("ip"@, seq!["route"@, "flush"@, "table"@, "126"@]),
        required("nft"@, seq!["delete"@, "table"@, "inet"@, nft_table()]),
    ]
}

pub open spec fn cleanup_fw4_script() -> Seq<char> {
    "for chain in input forward srcnat; do nft -a list chain inet fw4 \"$chain\" 2>/dev/null | awk '/easytier_gw/ {print $NF}' | while read handle; do nft delete rule inet fw4 \"$chain\" handle \"$handle\" 2>/dev/null || true; done; done"@
}

pub open spec fn cleanup_fwmark_script() -> Seq<char> {
    "while ip rule show | grep -q 'fwmark 0x7e.*lookup 126\\|fwmark 0x7e.*table 126'; do ip rule del fwmark 0x7e table 126 2>/dev/null || break; done"@
}

// ---------------------------------------------------------------------------
// Building the commands
// ---------------------------------------------------------------------------
pub proof fn lemma_specs_push(v: Seq<CommandSpec>, x: CommandSpec)
    ensures
        specs(v.push(x)) == specs(v).push(x@),
{
    assert(specs(v.push(x)) =~= specs(v).push(x@));
}

fn push_spec(out: &mut Vec<CommandSpec>, c: CommandSpec)
    ensures
        specs(final(out)@) == specs(old(out)@).push(c@),
{
    let ghost before = out@;
    out.push(c);
    proof {
        lemma_specs_push(before, c);
    }
}

impl CommandSpec {
    /// A command whose failure fails the plan.
    fn new(cmd: &'static str, args: &[&str]) -> (c: CommandSpec)
        ensures
            c@ == required(cmd@, str_views(args@)),
    {
        CommandSpec { cmd, args: crate::command::strings_of(args), ignore_error: false }
    }

    /// A command whose failure is ignored.
    fn optional(cmd: &'static str, args: &[&str]) -> (c: CommandSpec)
        ensures
            c@ == optional(cmd@, str_views(args@)),
    {
        CommandSpec { cmd, args: crate::command::strings_of(args), ignore_error: true }
    }
}

fn fw4_input_command(et: &str) -> (c: CommandSpec)
    ensures
        c@ == fw4_input(et@),
{
    let c = CommandSpec::optional(
        "nft",
        &["insert", "rule", "inet", "fw4", "input", "iifname", et, "accept", "comment", "easytier_gw"],
    );
    assert(c@ =~~= fw4_input(et@));
    c
}

fn source_cidr_commands(out: &mut Vec<CommandSpec>, ingress: &str, et: &str, cidr: &str)
    ensures
        specs(final(out)@) == specs(old(out)@) + source_cidr_rules(ingress@, et@, cidr@),
{
    let a = CommandSpec::new(
        "nft",
        &[
            "add",
            "rule",
            "inet",
            "easytier_gw",
            "prerouting",
            "iifname",
            ingress,
            "ip",
            "saddr",
            cidr,
            "ip",
            "daddr",
            "!=",
            cidr,
            "meta",
            "mark",
            "set",
            "0x7e",
        ],
    );
    let b = CommandSpec::optional(
        "nft",
        &[
            "insert",
            "rule",
            "inet",
            "fw4",
            "forward",
            "iifname",
            ingress,
            "oifname",
            et,
            "ip",
            "saddr",
            cidr,
            "counter",
            "accept",
            "comment",
            "easytier_gw",
        ],
    );
    let c = CommandSpec::optional(
        "nft",
        &[
            "insert",
            "rule",
            "inet",
            "fw4",
            "forward",
            "iifname",
            et,
            "oifname",
            ingress,
            "ct",
            "state",
            "established,related",
            "counter",
            "accept",
            "comment",
            "easytier_gw",
        ],
    );
    let ghost start = specs(out@);
    push_spec(out, a);
    push_spec(out, b);
    push_spec(out, c);
    assert(specs(out@) =~~= start + source_cidr_rules(ingress@, et@, cidr@));
}

fn exit_cidr_commands(out: &mut Vec<CommandSpec>, wan: &str, et: &str, cidr: &str)
    ensures
        specs(final(out)@) == specs(old(out)@) + exit_cidr_rules(wan@, et@, cidr@),
{
    let a = CommandSpec::new(
        "nft",
        &["add", "rule", "inet", "easytier_gw", "postrouting", "ip", "saddr", cidr, "oif", wan, "masquerade"],
    );
    let b = CommandSpec::new(
        "nft",
        &[
            "add",
            "rule",
            "inet",
            "easytier_gw",
            "forward",
            "iifname",
            et,
            "oifname",
            wan,
            "ip",
            "saddr",
            cidr,
            "counter",
            "accept",
        ],
    );
    let c = CommandSpec::optional(
        "nft",
        &[
            "insert",
            "rule",
            "inet",
            "fw4",
            "forward",
            "iifname",
            et,
            "oifname",
            wan,
            "ip",
            "saddr",
            cidr,
            "counter",
            "accept",
            "comment",
            "easytier_gw",
        ],
    );
    let ghost start = specs(out@);
    push_spec(out, a);
    push_spec(out, b);
    push_spec(out, c);
    assert(specs(out@) =~~= start + exit_cidr_rules(wan@, et@, cidr@));
}

fn source_plan_commands(policy: &GatewayPolicy, et: &str) -> (r: Vec<CommandSpec>)
    ensures
        specs(r@) == source_commands(*policy, et@),
{
    let mut r: Vec<CommandSpec> = Vec::new();
    push_spec(&mut r, CommandSpec::new("nft", &["add", "table", "inet", "easytier_gw"]));
    push_spec(
        &mut r,
        CommandSpec::new(
            "nft",
            &[
                "add",
                "chain",
                "inet",
                "easytier_gw",
                "prerouting",
                "{",
                "type",
                "filter",
                "hook",
                "prerouting",
                "priority",
                "-150",
                ";",
                "}",
            ],
        ),
    );
    push_spec(&mut r, fw4_input_command(et));
    let ghost head = specs(r@);
    let ghost f = source_cidr_fn(policy.ingress_iface@, et@);
    proof {
        lemma_flat_map_empty(f);
        assert(policy.managed_cidrs@.take(0) =~= Seq::<String>::empty());
    }
    let mut i: usize = 0;
    while i < policy.managed_cidrs.len()
        invariant
            0 <= i <= policy.managed_cidrs@.len(),
            f == source_cidr_fn(policy.ingress_iface@, et@),
            specs(r@) == head + policy.managed_cidrs@.take(i as int).flat_map(f),
        decreases policy.managed_cidrs.len() - i,
    {
        proof {
            assert(policy.managed_cidrs@.take(i + 1) =~= policy.managed_cidrs@.take(i as int).push(
                policy.managed_cidrs@[i as int],
            ));
            lemma_flat_map_push(policy.managed_cidrs@.take(i as int), f, policy.managed_cidrs@[i as int]);
        }
        source_cidr_commands(
            &mut r,
            policy.ingress_iface.as_str(),
            et,
            policy.managed_cidrs[i].as_str(),
        );
        i += 1;
    }
    assert(policy.managed_cidrs@.take(policy.managed_cidrs@.len() as int) =~= policy.managed_cidrs@);
    let ghost middle = specs(r@);
    push_spec(&mut r, CommandSpec::new("ip", &["rule", "add", "fwmark", "0x7e", "table", "126"]));
    push_spec(
        &mut r,
        CommandSpec::new(
            "ip",
            &[
                "route",
                "replace",
                "default",
                "via",
                policy.exit_peer_tun_ip.as_str(),
                "dev",
                et,
                "table",
                "126",
            ],
        ),
    );
    assert(specs(r@) =~~= source_commands(*policy, et@));
    r
}

fn exit_plan_commands(policy: &GatewayPolicy, et: &str) -> (r: Vec<CommandSpec>)
    ensures
        specs(r@) == exit_commands(*policy, et@),
{
    let wan = policy.exit_wan_iface.as_str();
    let mut r: Vec<CommandSpec> = Vec::new();
    push_spec(&mut r, CommandSpec::new("sysctl", &["-w", "net.ipv4.ip_forward=1"]));
    push_spec(&mut r, CommandSpec::new("nft", &["add", "table", "inet", "easytier_gw"]));
    push_spec(
        &mut r,
        CommandSpec::new(
            "nft",
            &[
                "add",
                "chain",
                "inet",
                "easytier_gw",
                "forward",
                "{",
                "type",
                "filter",
                "hook",
                "forward",
                "priority",
                "-150",
                ";",
                "}",
            ],
        ),
    );
    push_spec(
        &mut r,
        CommandSpec::new(
            "nft",
            &[
                "add",
                "chain",
                "inet",
                "easytier_gw",
                "postrouting",
                "{",
                "type",
                "nat",
                "hook",
                "postrouting",
                "priority",
                "100",
                ";",
                "}",
            ],
        ),
    );
    push_spec(&mut r, fw4_input_command(et));
    push_spec(
        &mut r,
        CommandSpec::new(
            "nft",
            &[
                "add",
                "rule",
                "inet",
                "easytier_gw",
                "forward",
                "iifname",
                wan,
                "oifname",
                et,
                "ct",
                "state",
                "established,related",
                "counter",
                "accept",
            ],
        ),
    );
    let ghost head = specs(r@);
    let ghost f = exit_cidr_fn(wan@, et@);
    proof {
        lemma_flat_map_empty(f);
        assert(policy.managed_cidrs@.take(0) =~= Seq::<String>::empty());
    }
    let mut i: usize = 0;
    while i < policy.managed_cidrs.len()
        invariant
            0 <= i <= policy.managed_cidrs@.len(),
            wan@ == policy.exit_wan_iface@,
            f == exit_cidr_fn(wan@, et@),
            specs(r@) == head + policy.managed_cidrs@.take(i as int).flat_map(f),
        decreases policy.managed_cidrs.len() - i,
    {
        proof {
            assert(policy.managed_cidrs@.take(i + 1) =~= policy.managed_cidrs@.take(i as int).push(
                policy.managed_cidrs@[i as int],
            ));
            lemma_flat_map_push(policy.managed_cidrs@.take(i as int), f, policy.managed_cidrs@[i as int]);
        }
        exit_cidr_commands(&mut r, wan, et, policy.managed_cidrs[i].as_str());
        i += 1;
    }
    assert(policy.managed_cidrs@.take(policy.managed_cidrs@.len() as int) =~= policy.managed_cidrs@);
    push_spec(
        &mut r,
        CommandSpec::optional(
            "nft",
            &[
                "insert",
                "rule",
                "inet",
                "fw4",
                "forward",
                "iifname",
                wan,
                "oifname",
                et,
                "ct",
                "state",
                "established,related",
                "counter",
                "accept",
                "comment",
                "easytier_gw",
            ],
        ),
    );
    assert(specs(r@) =~~= exit_commands(*policy, et@));
    r
}

// ---------------------------------------------------------------------------
// Checking
// ---------------------------------------------------------------------------
/// A check's outcome, as the fault it found.
pub open spec fn check_view(r: Result<(), GatewayPlanError>) -> Option<PlanFault> {
    match r {
        Ok(()) => None,
        Err(e) => Some(e@),
    }
}

fn iface_chars_valid(s: &str) -> (r: bool)
    ensures
        r == iface_chars_ok(s@),
{
    let chars = chars_of(s);
    let mut i: usize = 0;
    while i < chars.len()
        invariant
            0 <= i <= chars@.len(),
            chars@ == s@,
            forall|k: int| 0 <= k < i ==> iface_char_ok(#[trigger] s@[k]),
        decreases chars.len() - i,
    {
        let c = chars[i];
        if !(char_is_ascii_alnum(c) || c == '_' || c == '-' || c == '.' || c == ':') {
            assert(!iface_char_ok(s@[i as int]));
            return false;
        }
        i += 1;
    }
    true
}

/// Checks an interface name that goes into a command.
fn validate_iface(field: &'static str, iface: &str) -> (r: Result<(), GatewayPlanError>)
    ensures
        check_view(r) == iface_fault(field@, iface@),
{
    if is_blank(iface) {
        return Err(GatewayPlanError::MissingField(field));
    }
    if !iface_chars_valid(iface) {
        return Err(GatewayPlanError::InvalidIfaceChars(field, owned(iface)));
    }
    Ok(())
}

/// Checks an IP address field, given whether the address parses.
fn validate_ip(field: &'static str, ip: &str, parsed: bool) -> (r: Result<(), GatewayPlanError>)
    ensures
        check_view(r) == ip_fault(field@, ip@, parsed),
{
    if is_blank(ip) {
        return Err(GatewayPlanError::MissingField(field));
    }
    if !parsed {
        return Err(GatewayPlanError::InvalidIp(field, owned(ip)));
    }
    Ok(())
}

/// Checks the fields both roles need, given which managed CIDRs parse.
fn validate_common(policy: &GatewayPolicy, cidrs_parsed: &Vec<bool>) -> (r: Result<(), GatewayPlanError>)
    requires
        cidrs_parsed@.len() == policy.managed_cidrs@.len(),
    ensures
        check_view(r) == common_fault(*policy, cidrs_parsed@),
{
    if is_blank(policy.policy_id.as_str()) {
        return Err(GatewayPlanError::MissingPolicyId);
    }
    if policy.managed_cidrs.len() == 0 {
        return Err(GatewayPlanError::NoManagedCidrs);
    }
    let mut i: usize = 0;
    while i < cidrs_parsed.len()
        invariant
            0 <= i <= cidrs_parsed@.len(),
            cidrs_parsed@.len() == policy.managed_cidrs@.len(),
            !blank(policy.policy_id@),
            policy.managed_cidrs@.len() != 0,
            forall|j: int| 0 <= j < i ==> #[trigger] cidrs_parsed@[j],
        decreases cidrs_parsed.len() - i,
    {
        if !cidrs_parsed[i] {
            assert(is_first_unparsed(cidrs_parsed@, i as int));
            assert forall|k: int| is_first_unparsed(cidrs_parsed@, k) implies k == i by {
                if k < i {
                    assert(cidrs_parsed@[k]);
                } else if k > i {
                    assert(cidrs_parsed@[i as int]);
                }
            }
            let bad = policy.managed_cidrs[i].clone();
            proof {
                let k = choose|k: int| is_first_unparsed(cidrs_parsed@, k);
                assert(k == i);
                assert(bad@ == policy.managed_cidrs@[k]@);
            }
            return Err(GatewayPlanError::InvalidCidr(bad));
        }
        i += 1;
    }
    assert(!has_unparsed(cidrs_parsed@));
    Ok(())
}

/// The EasyTier interface of a policy (`tun0` when unset), checked.
fn normalize_easytier_iface(policy: &GatewayPolicy) -> (r: Result<String, GatewayPlanError>)
    ensures
        match r {
            Ok(s) => s@ == effective_iface(policy.easytier_iface@) && iface_fault(
                "easytier_iface"@,
                s@,
            ) is None,
            Err(e) => iface_fault("easytier_iface"@, effective_iface(policy.easytier_iface@))
                == Some(e@),
        },
{
    let iface = easytier_iface(policy);
    match validate_iface("easytier_iface", iface.as_str()) {
        Ok(()) => Ok(iface),
        Err(e) => Err(e),
    }
}

/// Whether each managed CIDR parses, in order.
fn parse_managed_cidrs(cidrs: &Vec<String>) -> (r: Vec<bool>)
    ensures
        r@ == cidr_verdicts(cidrs@),
{
    let mut r: Vec<bool> = Vec::new();
    let mut i: usize = 0;
    while i < cidrs.len()
        invariant
            0 <= i <= cidrs@.len(),
            r@ == cidr_verdicts(cidrs@).take(i as int),
        decreases cidrs.len() - i,
    {
        r.push(parses_as_ip_cidr(cidrs[i].as_str()));
        assert(r@ =~= cidr_verdicts(cidrs@).take(i + 1));
        i += 1;
    }
    assert(r@ =~= cidr_verdicts(cidrs@));
    r
}

/// Whether a text is one IP address.
fn ip_address_valid(text: &str) -> (r: bool)
    ensures
        r == ip_address_parses(text@),
{
    !contains_char(text, '/') && parses_as_ip_cidr(text)
}

/// Plans and checks the rules for gateway policies; running them is left to the caller.
pub struct Executor;

impl Executor {
    pub fn new() -> (r: Executor) {
        Executor
    }

    /// The commands that apply a policy for its role, or the first fault the checks find.
    pub fn plan_apply(&self, policy: &GatewayPolicy) -> (r: Result<Vec<CommandSpec>, GatewayPlanError>)
        ensures
            plan_view(r) == gateway_plan_apply(*policy),
    {
        let cidrs_parsed = parse_managed_cidrs(&policy.managed_cidrs);
        let exit_ip_parsed = ip_address_valid(policy.exit_peer_tun_ip.as_str());
        self.plan_apply_with(policy, &cidrs_parsed, exit_ip_parsed)
    }

    /// `plan_apply`, given whether each managed CIDR parses and whether the exit peer address
    /// parses.
    pub fn plan_apply_with(
        &self,
        policy: &GatewayPolicy,
        cidrs_parsed: &Vec<bool>,
        exit_ip_parsed: bool,
    ) -> (r: Result<Vec<CommandSpec>, GatewayPlanError>)
        requires
            cidrs_parsed@.len() == policy.managed_cidrs@.len(),
        ensures
            plan_view(r) == gateway_plan(*policy, cidrs_parsed@, exit_ip_parsed),
    {
        match GatewayRole::from_code(policy.role) {
            None => Err(GatewayPlanError::UnknownRole(policy.role)),
            Some(GatewayRole::Source) => {
                validate_common(policy, cidrs_parsed)?;
                validate_iface("ingress_iface", policy.ingress_iface.as_str())?;
                let et = normalize_easytier_iface(policy)?;
                validate_ip("exit_peer_tun_ip", policy.exit_peer_tun_ip.as_str(), exit_ip_parsed)?;
                Ok(source_plan_commands(policy, et.as_str()))
            },
            Some(GatewayRole::Exit) => {
                validate_common(policy, cidrs_parsed)?;
                validate_iface("exit_wan_iface", policy.exit_wan_iface.as_str())?;
                let et = normalize_easytier_iface(policy)?;
                Ok(exit_plan_commands(policy, et.as_str()))
            },
        }
    }
}

/// The commands that remove every rule a gateway policy may have installed; the caller runs
/// them all and ignores their failures.
pub fn plan_cleanup() -> (r: Vec<CommandSpec>)
    ensures
        specs(r@) == cleanup_commands(),
{
    let mut r: Vec<CommandSpec> = Vec::new();
    push_spec(
        &mut r,
        CommandSpec::optional(
            "sh",
            &[
                "-c",
                "for chain in input forward srcnat; do nft -a list chain inet fw4 \"$chain\" 2>/dev/null | awk '/easytier_gw/ {print $NF}' | while read handle; do nft delete rule inet fw4 \"$chain\" handle \"$handle\" 2>/dev/null || true; done; done",
            ],
        ),
    );
    push_spec(
        &mut r,
        CommandSpec::optional(
            "sh",
            &[
                "-c",
                "while ip rule show | grep -q 'fwmark 0x7e.*lookup 126\\|fwmark 0x7e.*table 126'; do ip rule del fwmark 0x7e table 126 2>/dev/null || break; done",
            ],
        ),
    );
    push_spec(&mut r, CommandSpec::new("ip", &["rule", "del", "fwmark", "0x7e", "table", "126"]));
    push_spec(&mut r, CommandSpec::new("ip", &["route", "flush", "table", "126"]));
    push_spec(&mut r, CommandSpec::new("nft", &["delete", "table", "inet", "easytier_gw"]));
    assert(specs(r@) =~~= cleanup_commands());
    r
}

// ---------------------------------------------------------------------------
// What the cleanup takes away
// ---------------------------------------------------------------------------
/// A command whose effect the cleanup takes away: it works inside the gateway's own `nft` table
/// (which the cleanup deletes), inserts a rule into fw4's input or forward chain that ends with
/// `comment easytier_gw` (which the cleanup sweeps of that tag), adds the fwmark rule (which the cleanup deletes),
/// or replaces a route of table 126 (which the cleanup flushes).
pub open spec fn cleared_by_cleanup(c: SpecView) -> bool {
    ||| c.cmd == "nft"@ && c.args.len() >= 4 && c.args[2] == "inet"@ && c.args[3] == nft_table()
    ||| c.cmd == "nft"@ && c.args.len() >= 5 && c.args[0] == "insert"@ && c.args[1] == "rule"@
        && c.args[2] == "inet"@ && c.args[3] == "fw4"@ && (c.args[4] == "input"@ || c.args[4]
        == "forward"@) && c.args[c.args.len() - 2] == "comment"@ && c.args.last() == "easytier_gw"@
    ||| c == required("ip"@, seq!["rule"@, "add"@, "fwmark"@, "0x7e"@, "table"@, "126"@])
    ||| c.cmd == "ip"@ && c.args.len() >= 4 && c.args[0] == "route"@ && c.args[1] == "replace"@
        && c.args[c.args.len() - 2] == "table"@ && c.args.last() == "126"@
}

/// The command that turns IPv4 forwarding on, which no cleanup turns off.
pub open spec fn forwarding_on() -> SpecView {
    required("sysctl"@, seq!["-w"@, "net.ipv4.ip_forward=1"@])
}

/// A command whose failure is ignored exactly when it works on fw4's own chains.
pub open spec fn ignored_iff_fw4(c: SpecView) -> bool {
    c.ignore_error <==> (c.args.len() > 3 && c.args[3] == "fw4"@)
}

pub open spec fn cleared_or_forwarding() -> spec_fn(SpecView) -> bool {
    |c: SpecView| (cleared_by_cleanup(c) || c == forwarding_on()) && ignored_iff_fw4(c)
}

/// The cleanup takes away what a plan sets up: each command of an accepted plan is one whose
/// effect the cleanup takes away, or the one that turns forwarding on, and its failure is
/// ignored exactly when it works on fw4's chains; and the cleanup holds the
/// commands that delete the gateway table, sweep fw4's chains of the tag, delete the fwmark rule
/// and flush table 126.
pub proof fn lemma_cleanup_takes_away_plan(p: GatewayPolicy)
    ensures
        gateway_plan_apply(p) matches Ok(a) ==> forall|i: int|
            0 <= i < a.len() ==> (cleared_by_cleanup(#[trigger] a[i]) || a[i] == forwarding_on())
                && ignored_iff_fw4(a[i]),
        cleanup_commands().contains(required("nft"@, seq!["delete"@, "table"@, "inet"@, nft_table()])),
        cleanup_commands().contains(optional("sh"@, seq!["-c"@, cleanup_fw4_script()])),
        cleanup_commands().contains(
            required("ip"@, seq!["rule"@, "del"@, "fwmark"@, "0x7e"@, "table"@, "126"@]),
        ),
        cleanup_commands().contains(required("ip"@, seq!["route"@, "flush"@, "table"@, "126"@])),
{
    let ok = cleared_or_forwarding();
    let et = effective_iface(p.easytier_iface@);
    reveal_strlit("fw4");
    reveal_strlit("easytier_gw");
    reveal_strlit("0x7e");
    reveal_strlit("via");
    assert("easytier_gw"@ != "fw4"@) by {
        assert("easytier_gw"@.len() != "fw4"@.len());
    }
    assert("0x7e"@ != "fw4"@) by {
        assert("0x7e"@.len() != "fw4"@.len());
    }
    assert("via"@ != "fw4"@) by {
        assert("via"@[0] != "fw4"@[0]);
    }
    assert(cleanup_commands()[4] == required("nft"@, seq!["delete"@, "table"@, "inet"@, nft_table()]));
    assert(cleanup_commands()[0] == optional("sh"@, seq!["-c"@, cleanup_fw4_script()]));
    assert(cleanup_commands()[2] == required(
        "ip"@,
        seq!["rule"@, "del"@, "fwmark"@, "0x7e"@, "table"@, "126"@],
    ));
    assert(cleanup_commands()[3] == required("ip"@, seq!["route"@, "flush"@, "table"@, "126"@]));
    if gateway_plan_apply(p) is Ok {
        match GatewayRole::spec_from_code(p.role) {
            Some(GatewayRole::Source) => {
                let head = seq![
                    required("nft"@, seq!["add"@, "table"@, "inet"@, nft_table()]),
                    required(
                        "nft"@,
                        seq![
                            "add"@,
                            "chain"@,
                            "inet"@,
                            nft_table(),
                            "prerouting"@,
                            "{"@,
                            "type"@,
                            "filter"@,
                            "hook"@,
                            "prerouting"@,
                            "priority"@,
                            "-150"@,
                            ";"@,
                            "}"@,
                        ],
                    ),
                    fw4_input(et),
                ];
                let tail = seq![
                    required("ip"@, seq!["rule"@, "add"@, "fwmark"@, "0x7e"@, "table"@, "126"@]),
                    required(
                        "ip"@,
                        seq![
                            "route"@,
                            "replace"@,
                            "default"@,
                            "via"@,
                            p.exit_peer_tun_ip@,
                            "dev"@,
                            et,
                            "table"@,
                            "126"@,
                        ],
                    ),
                ];
                assert(all_of(head, ok));
                assert(all_of(tail, ok));
                assert forall|x: String| all_of(#[trigger] source_cidr_fn(p.ingress_iface@, et)(x), ok) by {}
                let body = p.managed_cidrs@.flat_map(source_cidr_fn(p.ingress_iface@, et));
                lemma_all_of_flat_map(p.managed_cidrs@, source_cidr_fn(p.ingress_iface@, et), ok);
                lemma_all_of_concat(head, body, ok);
                lemma_all_of_concat(head + body, tail, ok);
                assert(source_commands(p, et) == head + body + tail);
                let a = gateway_plan_apply(p)->Ok_0;
                assert(a == source_commands(p, et));
                assert forall|i: int| 0 <= i < a.len() implies (cleared_by_cleanup(#[trigger] a[i])
                    || a[i] == forwarding_on()) && ignored_iff_fw4(a[i]) by {
                    assert(ok(a[i]));
                }
            },
            Some(GatewayRole::Exit) => {
                let wan = p.exit_wan_iface@;
                let a = exit_commands(p, et);
                let body = p.managed_cidrs@.flat_map(exit_cidr_fn(wan, et));
                assert forall|x: String| all_of(#[trigger] exit_cidr_fn(wan, et)(x), ok) by {}
                lemma_all_of_flat_map(p.managed_cidrs@, exit_cidr_fn(wan, et), ok);
                let head = a.take(6);
                let tail = a.skip((6 + body.len()) as int);
                assert(a == head + body + tail);
                assert(all_of(head, ok));
                assert(all_of(tail, ok));
                lemma_all_of_concat(head, body, ok);
                lemma_all_of_concat(head + body, tail, ok);
                let r = gateway_plan_apply(p)->Ok_0;
                assert(r == a);
                assert forall|i: int| 0 <= i < r.len() implies (cleared_by_cleanup(#[trigger] r[i])
                    || r[i] == forwarding_on()) && ignored_iff_fw4(r[i]) by {
                    assert(ok(r[i]));
                }
            },
            None => {},
        }
    }
}

// ---------------------------------------------------------------------------
// Applying a plan, step by step
// ---------------------------------------------------------------------------
/// Where applying a planned policy stands: the old rules are cleaned first, then the planned
/// commands run in order; a failing command has the rules cleaned again before the apply fails.
#[derive(Debug, Clone, Copy, PartialEq, Eq, Structural)]
pub enum ApplyPhase {
    /// Run the cleanup commands before the plan.
    CleanOld,
    /// Run the planned command at this position.
    Run(usize),
    /// Run the cleanup commands after a failed command.
    CleanAfterFailure,
    /// Every planned command ran.
    Succeeded,
    /// A planned command failed and the rules were cleaned.
    Failed,
}

/// The phase after `phase`, for a plan of `n` commands, given whether the phase's work went
/// through (the cleanup always counts as done: its commands' failures are ignored).
pub open spec fn apply_phase_after(n: nat, phase: ApplyPhase, went_through: bool) -> ApplyPhase {
    match phase {
        ApplyPhase::CleanOld => if n == 0 {
            ApplyPhase::Succeeded
        } else {
            ApplyPhase::Run(0)
        },
        ApplyPhase::Run(k) => if !went_through {
            ApplyPhase::CleanAfterFailure
        } else if k + 1 < n {
            ApplyPhase::Run((k + 1) as usize)
        } else {
            ApplyPhase::Succeeded
        },
        ApplyPhase::CleanAfterFailure => ApplyPhase::Failed,
        ApplyPhase::Succeeded => ApplyPhase::Succeeded,
        ApplyPhase::Failed => ApplyPhase::Failed,
    }
}

/// Decides what an apply of a plan of `n` commands does next.
pub fn next_apply_phase(n: usize, phase: ApplyPhase, went_through: bool) -> (r: ApplyPhase)
    requires
        phase matches ApplyPhase::Run(k) ==> k < n,
    ensures
        r == apply_phase_after(n as nat, phase, went_through),
        r matches ApplyPhase::Run(k) ==> k < n,
{
    match phase {
        ApplyPhase::CleanOld => if n == 0 {
            ApplyPhase::Succeeded
        } else {
            ApplyPhase::Run(0)
        },
        ApplyPhase::Run(k) => if !went_through {
            ApplyPhase::CleanAfterFailure
        } else if k + 1 < n {
            ApplyPhase::Run(k + 1)
        } else {
            ApplyPhase::Succeeded
        },
        ApplyPhase::CleanAfterFailure => ApplyPhase::Failed,
        ApplyPhase::Succeeded => ApplyPhase::Succeeded,
        ApplyPhase::Failed => ApplyPhase::Failed,
    }
}

/// The phases an apply goes through when the commands before position `k` go through: the
/// cleanup, then the commands in order, once each.
pub open spec fn phases_reached(n: nat, k: nat) -> ApplyPhase
    decreases k,
{
    if k == 0 {
        ApplyPhase::CleanOld
    } else {
        apply_phase_after(n, phases_reached(n, (k - 1) as nat), true)
    }
}

proof fn lemma_apply_runs_command(n: nat, k: nat)
    requires
        k < n <= usize::MAX,
    ensures
        phases_reached(n, k + 1) == ApplyPhase::Run(k as usize),
    decreases k,
{
    if k > 0 {
        lemma_apply_runs_command(n, (k - 1) as nat);
        assert(phases_reached(n, k + 1) == apply_phase_after(n, phases_reached(n, k), true));
    } else {
        assert(phases_reached(n, 1) == apply_phase_after(n, phases_reached(n, 0), true));
    }
}

/// An apply whose commands all go through cleans the old rules, runs each planned command in
/// order, once each, and succeeds: its phase after `k + 1` steps is command `k`, and after the
/// last command it has succeeded.
pub proof fn lemma_apply_runs_commands_in_order(n: nat)
    requires
        n <= usize::MAX,
    ensures
        forall|k: nat| k < n ==> #[trigger] phases_reached(n, k + 1) == ApplyPhase::Run(k as usize),
        phases_reached(n, n + 1) == ApplyPhase::Succeeded,
{
    assert forall|k: nat| k < n implies #[trigger] phases_reached(n, k + 1) == ApplyPhase::Run(k as usize) by {
        lemma_apply_runs_command(n, k);
    }
    assert(phases_reached(n, n + 1) == apply_phase_after(n, phases_reached(n, n), true));
    if n > 0 {
        lemma_apply_runs_command(n, (n - 1) as nat);
    }
}

// ---------------------------------------------------------------------------
// The source's mark and its route
// ---------------------------------------------------------------------------
/// The packet mark an `nft` rule sets, when the rule ends with `mark set <mark>`.
pub open spec fn mark_set_by(c: SpecView) -> Option<Seq<char>> {
    if c.cmd == "nft"@ && c.args.len() >= 3 && c.args[c.args.len() - 3] == "mark"@
        && c.args[c.args.len() - 2] == "set"@ {
        Some(c.args.last())
    } else {
        None
    }
}

/// The fwmark that an `ip rule add fwmark <mark> table 126` command sends to route table 126.
pub open spec fn fwmark_sent_to_table_126(c: SpecView) -> Option<Seq<char>> {
    if c.cmd == "ip"@ && c.args.len() == 6 && c.args[0] == "rule"@ && c.args[1] == "add"@
        && c.args[2] == "fwmark"@ && c.args[4] == "table"@ && c.args[5] == "126"@ {
        Some(c.args[3])
    } else {
        None
    }
}

/// A source node's plan marks its managed traffic with the very mark it routes through table
/// 126: the plan sends a fwmark to table 126, marks the traffic of each managed CIDR, and every
/// mark its rules set is every fwmark it sends to table 126.
pub proof fn lemma_source_marks_what_it_routes(p: GatewayPolicy)
    requires
        GatewayRole::spec_from_code(p.role) == Some(GatewayRole::Source),
    ensures
        gateway_plan_apply(p) matches Ok(cmds) ==> {
            &&& exists|j: int| 0 <= j < cmds.len() && #[trigger] fwmark_sent_to_table_126(cmds[j]) is Some
            &&& forall|k: int|
                0 <= k < p.managed_cidrs@.len() ==> exists|i: int|
                    0 <= i < cmds.len() && #[trigger] mark_set_by(cmds[i]) is Some
                        && cmds[i].args.contains(#[trigger] p.managed_cidrs@[k]@)
            &&& forall|i: int, j: int|
                0 <= i < cmds.len() && 0 <= j < cmds.len() && #[trigger] mark_set_by(cmds[i]) is Some
                    && #[trigger] fwmark_sent_to_table_126(cmds[j]) is Some ==> mark_set_by(cmds[i])
                    == fwmark_sent_to_table_126(cmds[j])
        },
{
    if gateway_plan_apply(p) is Ok {
        let et = effective_iface(p.easytier_iface@);
        let a = gateway_plan_apply(p)->Ok_0;
        assert(a == source_commands(p, et));
        reveal_strlit("mark");
        reveal_strlit("table");
        reveal_strlit("-150");
        reveal_strlit("accept");
        reveal_strlit("nft");
        reveal_strlit("ip");
        assert("table"@ != "mark"@) by {
            assert("table"@.len() != "mark"@.len());
        }
        assert("accept"@ != "mark"@) by {
            assert("accept"@.len() != "mark"@.len());
        }
        assert("-150"@ != "mark"@) by {
            assert("-150"@[0] != "mark"@[0]);
        }
        assert("nft"@ != "ip"@) by {
            assert("nft"@.len() != "ip"@.len());
        }
        let ok = |c: SpecView|
            (mark_set_by(c) is Some ==> mark_set_by(c) == Some("0x7e"@)) && (fwmark_sent_to_table_126(c)
                is Some ==> fwmark_sent_to_table_126(c) == Some("0x7e"@));
        let head = seq![
            required("nft"@, seq!["add"@, "table"@, "inet"@, nft_table()]),
            required(
                "nft"@,
                seq![
                    "add"@,
                    "chain"@,
                    "inet"@,
                    nft_table(),
                    "prerouting"@,
                    "{"@,
                    "type"@,
                    "filter"@,
                    "hook"@,
                    "prerouting"@,
                    "priority"@,
                    "-150"@,
                    ";"@,
                    "}"@,
                ],
            ),
            fw4_input(et),
        ];
        let fwmark_rule = required("ip"@, seq!["rule"@, "add"@, "fwmark"@, "0x7e"@, "table"@, "126"@]);
        let tail = seq![
            fwmark_rule,
            required(
                "ip"@,
                seq![
                    "route"@,
                    "replace"@,
                    "default"@,
                    "via"@,
                    p.exit_peer_tun_ip@,
                    "dev"@,
                    et,
                    "table"@,
                    "126"@,
                ],
            ),
        ];
        let f = source_cidr_fn(p.ingress_iface@, et);
        let body = p.managed_cidrs@.flat_map(f);
        assert(a == head + body + tail);
        assert(all_of(head, ok));
        assert(all_of(tail, ok));
        assert forall|x: String| all_of(#[trigger] f(x), ok) by {}
        lemma_all_of_flat_map(p.managed_cidrs@, f, ok);
        lemma_all_of_concat(head, body, ok);
        lemma_all_of_concat(head + body, tail, ok);
        let j = (head.len() + body.len()) as int;
        assert(a[j] == fwmark_rule);
        assert(fwmark_sent_to_table_126(a[j]) is Some);
        assert forall|k: int| 0 <= k < p.managed_cidrs@.len() implies exists|i: int|
            0 <= i < a.len() && #[trigger] mark_set_by(a[i]) is Some
                && a[i].args.contains(#[trigger] p.managed_cidrs@[k]@) by {
            let rule = f(p.managed_cidrs@[k])[0];
            lemma_flat_map_contains(p.managed_cidrs@, f, k, 0);
            lemma_concat_contains(head, body, rule);
            lemma_concat_contains(head + body, tail, rule);
            let i = choose|i: int| 0 <= i < a.len() && a[i] == rule;
            assert(rule.args[9] == p.managed_cidrs@[k]@);
            assert(mark_set_by(a[i]) is Some);
        }
        assert forall|i: int, j: int|
            0 <= i < a.len() && 0 <= j < a.len() && #[trigger] mark_set_by(a[i]) is Some
                && #[trigger] fwmark_sent_to_table_126(a[j]) is Some implies mark_set_by(a[i])
                == fwmark_sent_to_table_126(a[j]) by {
            assert(ok(a[i]));
            assert(ok(a[j]));
        }
    }
}

/// An exit node's plan turns IPv4 forwarding on and never sets it any other way: it holds
/// `sysctl -w net.ipv4.ip_forward=1`, and every `sysctl` command in it is that one.
pub proof fn lemma_exit_plan_turns_forwarding_on(p: GatewayPolicy)
    requires
        GatewayRole::spec_from_code(p.role) == Some(GatewayRole::Exit),
    ensures
        gateway_plan_apply(p) matches Ok(cmds) ==> {
            &&& cmds.contains(required("sysctl"@, seq!["-w"@, "net.ipv4.ip_forward=1"@]))
            &&& forall|i: int|
                0 <= i < cmds.len() && #[trigger] cmds[i].cmd == "sysctl"@ ==> cmds[i] == required(
                    "sysctl"@,
                    seq!["-w"@, "net.ipv4.ip_forward=1"@],
                )
        },
{
    if gateway_plan_apply(p) is Ok {
        let et = effective_iface(p.easytier_iface@);
        let wan = p.exit_wan_iface@;
        let a = gateway_plan_apply(p)->Ok_0;
        assert(a == exit_commands(p, et));
        reveal_strlit("sysctl");
        reveal_strlit("nft");
        assert("nft"@ != "sysctl"@) by {
            assert("nft"@.len() != "sysctl"@.len());
        }
        let on = required("sysctl"@, seq!["-w"@, "net.ipv4.ip_forward=1"@]);
        let ok = |c: SpecView| c.cmd == "sysctl"@ ==> c == on;
        let body = p.managed_cidrs@.flat_map(exit_cidr_fn(wan, et));
        assert forall|x: String| all_of(#[trigger] exit_cidr_fn(wan, et)(x), ok) by {}
        lemma_all_of_flat_map(p.managed_cidrs@, exit_cidr_fn(wan, et), ok);
        let head = a.take(6);
        let tail = a.skip((6 + body.len()) as int);
        assert(a == head + body + tail);
        assert(all_of(head, ok));
        assert(all_of(tail, ok));
        lemma_all_of_concat(head, body, ok);
        lemma_all_of_concat(head + body, tail, ok);
        assert(a[0] == on);
        assert forall|i: int| 0 <= i < a.len() && #[trigger] a[i].cmd == "sysctl"@ implies a[i] == on by {
            assert(ok(a[i]));
        }
    }
}

} // verus!
