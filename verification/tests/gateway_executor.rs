use easytier_gateway::gateway::{GatewayPolicy, GatewayRole};
use easytier_gateway::gw_executor::{next_apply_phase, plan_cleanup, ApplyPhase, Executor};

fn source_policy() -> GatewayPolicy {
    GatewayPolicy {
        policy_id: "gw-source".to_string(),
        enabled: true,
        role: GatewayRole::Source.code(),
        managed_cidrs: vec!["192.168.128.0/24".to_string()],
        ingress_iface: "br-lan".to_string(),
        exit_peer_tun_ip: "10.126.126.3".to_string(),
        easytier_iface: "et0".to_string(),
        ..Default::default()
    }
}

fn exit_policy() -> GatewayPolicy {
    GatewayPolicy {
        policy_id: "gw-exit".to_string(),
        enabled: true,
        role: GatewayRole::Exit.code(),
        managed_cidrs: vec!["192.168.128.0/24".to_string()],
        exit_wan_iface: "eth0".to_string(),
        easytier_iface: "tun0".to_string(),
        ..Default::default()
    }
}

const NFT_TABLE: &str = "easytier_gw";

#[test]
fn source_plan_uses_configured_tunnel_iface_and_replace_route() {
    let executor = Executor::new();
    let commands = executor.plan_apply(&source_policy()).unwrap();

    assert!(commands.iter().any(|cmd| {
        cmd.cmd == "ip"
            && cmd.args
                == vec![
                    "route",
                    "replace",
                    "default",
                    "via",
                    "10.126.126.3",
                    "dev",
                    "et0",
                    "table",
                    "126",
                ]
    }));
}

#[test]
fn source_plan_allows_openwrt_forward_between_lan_and_tunnel() {
    let executor = Executor::new();
    let commands = executor.plan_apply(&source_policy()).unwrap();

    assert!(commands.iter().any(|cmd| {
        cmd.cmd == "nft"
            && cmd.args
                == vec![
                    "insert",
                    "rule",
                    "inet",
                    "fw4",
                    "input",
                    "iifname",
                    "et0",
                    "accept",
                    "comment",
                    "easytier_gw",
                ]
    }));
    assert!(commands.iter().any(|cmd| {
        cmd.cmd == "nft"
            && cmd.args
                == vec![
                    "insert",
                    "rule",
                    "inet",
                    "fw4",
                    "forward",
                    "iifname",
                    "br-lan",
                    "oifname",
                    "et0",
                    "ip",
                    "saddr",
                    "192.168.128.0/24",
                    "counter",
                    "accept",
                    "comment",
                    "easytier_gw",
                ]
    }));
    assert!(commands.iter().any(|cmd| {
        cmd.cmd == "nft"
            && cmd.args
                == vec![
                    "insert",
                    "rule",
                    "inet",
                    "fw4",
                    "forward",
                    "iifname",
                    "et0",
                    "oifname",
                    "br-lan",
                    "ct",
                    "state",
                    "established,related",
                    "counter",
                    "accept",
                    "comment",
                    "easytier_gw",
                ]
    }));
}

#[test]
fn source_plan_rejects_empty_exit_peer() {
    let executor = Executor::new();
    let mut policy = source_policy();
    policy.exit_peer_tun_ip.clear();

    let err = executor.plan_apply(&policy).unwrap_err().message();
    assert!(err.contains("exit_peer_tun_ip"));
}

#[test]
fn plan_rejects_invalid_cidr_before_cleanup() {
    let executor = Executor::new();
    let mut policy = source_policy();
    policy.managed_cidrs = vec!["not-a-cidr".to_string()];

    let err = executor.plan_apply(&policy).unwrap_err().message();
    assert!(err.contains("非法 CIDR"));
}

#[test]
fn exit_plan_adds_masquerade_for_managed_cidr() {
    let executor = Executor::new();
    let commands = executor.plan_apply(&exit_policy()).unwrap();

    assert!(commands.iter().any(|cmd| {
        cmd.cmd == "nft"
            && cmd.args
                == vec![
                    "add",
                    "rule",
                    "inet",
                    NFT_TABLE,
                    "postrouting",
                    "ip",
                    "saddr",
                    "192.168.128.0/24",
                    "oif",
                    "eth0",
                    "masquerade",
                ]
    }));
}

#[test]
fn exit_plan_allows_forwarding_between_tunnel_and_wan() {
    let executor = Executor::new();
    let commands = executor.plan_apply(&exit_policy()).unwrap();

    assert!(commands.iter().any(|cmd| {
        cmd.cmd == "nft"
            && cmd.args
                == vec![
                    "add",
                    "rule",
                    "inet",
                    NFT_TABLE,
                    "forward",
                    "iifname",
                    "tun0",
                    "oifname",
                    "eth0",
                    "ip",
                    "saddr",
                    "192.168.128.0/24",
                    "counter",
                    "accept",
                ]
    }));
    assert!(commands.iter().any(|cmd| {
        cmd.cmd == "nft"
            && cmd.args
                == vec![
                    "add",
                    "rule",
                    "inet",
                    NFT_TABLE,
                    "forward",
                    "iifname",
                    "eth0",
                    "oifname",
                    "tun0",
                    "ct",
                    "state",
                    "established,related",
                    "counter",
                    "accept",
                ]
    }));
}

#[test]
fn exit_plan_allows_openwrt_input_from_tunnel() {
    let executor = Executor::new();
    let commands = executor.plan_apply(&exit_policy()).unwrap();

    assert!(commands.iter().any(|cmd| {
        cmd.cmd == "nft"
            && cmd.args
                == vec![
                    "insert",
                    "rule",
                    "inet",
                    "fw4",
                    "input",
                    "iifname",
                    "tun0",
                    "accept",
                    "comment",
                    "easytier_gw",
                ]
    }));
}

#[test]
fn plan_rejects_unknown_role() {
    let executor = Executor::new();
    let mut policy = source_policy();
    policy.role = 99;

    let err = executor.plan_apply(&policy).unwrap_err().message();
    assert!(err.contains("未知网关角色"));
}

#[test]
fn cleanup_plan_removes_policy_route_and_nft_table() {
    let commands = plan_cleanup();

    assert!(commands.iter().any(|cmd| {
        cmd.cmd == "ip" && cmd.args == vec!["rule", "del", "fwmark", "0x7e", "table", "126"]
    }));
    assert!(commands
        .iter()
        .any(|cmd| { cmd.cmd == "nft" && cmd.args == vec!["delete", "table", "inet", NFT_TABLE] }));
}

#[test]
fn cleanup_plan_removes_all_duplicate_fwmark_rules() {
    let commands = plan_cleanup();

    assert!(commands.iter().any(|cmd| {
        cmd.cmd == "sh"
            && cmd.args.iter().any(|arg| {
                arg.contains("while ip rule show")
                    && arg.contains("fwmark 0x7e")
                    && arg.contains("ip rule del fwmark 0x7e table 126")
            })
    }));
}

#[test]
fn cleanup_plan_removes_openwrt_fw4_gateway_rules_from_all_used_chains() {
    let commands = plan_cleanup();

    assert!(commands.iter().any(|cmd| {
        cmd.cmd == "sh"
            && cmd.args.iter().any(|arg| {
                arg.contains("for chain in input forward srcnat")
                    && arg.contains("/easytier_gw/")
                    && arg.contains("nft delete rule inet fw4 \"$chain\" handle")
            })
    }));
}

#[test]
fn cleanup_takes_away_everything_a_plan_sets_up() {
    let executor = Executor::new();
    let cleanup = plan_cleanup();
    assert!(cleanup
        .iter()
        .any(|c| c.cmd == "nft" && c.args == vec!["delete", "table", "inet", NFT_TABLE]));
    assert!(cleanup
        .iter()
        .any(|c| c.cmd == "ip" && c.args == vec!["route", "flush", "table", "126"]));
    assert!(cleanup
        .iter()
        .any(|c| c.cmd == "ip" && c.args == vec!["rule", "del", "fwmark", "0x7e", "table", "126"]));
    assert!(cleanup
        .iter()
        .any(|c| c.cmd == "sh" && c.args[1].contains("for chain in input forward srcnat")));
    for policy in [source_policy(), exit_policy()] {
        for c in executor.plan_apply(&policy).unwrap() {
            let in_own_table = c.cmd == "nft" && c.args.len() >= 4 && c.args[2] == "inet" && c.args[3] == NFT_TABLE;
            let tagged_fw4 = c.cmd == "nft"
                && c.args[0] == "insert"
                && c.args[3] == "fw4"
                && (c.args[4] == "input" || c.args[4] == "forward")
                && c.args.last().map(|s| s.as_str()) == Some("easytier_gw");
            let fwmark = c.cmd == "ip" && c.args == vec!["rule", "add", "fwmark", "0x7e", "table", "126"];
            let route126 = c.cmd == "ip"
                && c.args[0] == "route"
                && c.args[1] == "replace"
                && c.args[c.args.len() - 2] == "table"
                && c.args[c.args.len() - 1] == "126";
            let forwarding = c.cmd == "sysctl" && c.args == vec!["-w", "net.ipv4.ip_forward=1"];
            assert!(in_own_table || tagged_fw4 || fwmark || route126 || forwarding, "{:?}", c);
            assert_eq!(c.ignore_error, c.args.len() > 3 && c.args[3] == "fw4", "{:?}", c);
            if tagged_fw4 {
                assert_eq!(c.args[c.args.len() - 2], "comment");
            }
        }
    }
}

#[test]
fn apply_cleans_first_runs_in_order_and_cleans_after_a_failure() {
    let mut phase = ApplyPhase::CleanOld;
    let mut seen = Vec::new();
    while phase != ApplyPhase::Succeeded {
        seen.push(phase);
        phase = next_apply_phase(3, phase, true);
    }
    assert_eq!(
        seen,
        vec![ApplyPhase::CleanOld, ApplyPhase::Run(0), ApplyPhase::Run(1), ApplyPhase::Run(2)]
    );
    assert_eq!(next_apply_phase(0, ApplyPhase::CleanOld, true), ApplyPhase::Succeeded);
    assert_eq!(next_apply_phase(3, ApplyPhase::Run(1), false), ApplyPhase::CleanAfterFailure);
    assert_eq!(next_apply_phase(3, ApplyPhase::CleanAfterFailure, true), ApplyPhase::Failed);
}
