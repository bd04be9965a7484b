use easytier_gateway::command::CommandPlan;
use easytier_gateway::linux::LinuxBackend;
use easytier_gateway::openwrt::OpenWrtBackend;
use easytier_gateway::policy::{DevicePolicy, DevicePolicyRole, ExitEgress, ExitEgressMode};

fn policy(role: DevicePolicyRole) -> DevicePolicy {
    DevicePolicy {
        policy_id: "p1".to_string(),
        device_policy_id: "p1/source".to_string(),
        enabled: true,
        version: 1,
        role,
        network_instance_id: 0,
        source_machine_id: "node-a".to_string(),
        managed_cidrs: vec!["192.168.10.0/24".to_string()],
        ingress_ifaces: vec!["br-lan".to_string()],
        include_device_traffic: true,
        exit_machine_id: "node-b".to_string(),
        exit_peer_ipv4: Some("10.126.126.3".to_string()),
        source_peer_ipv4: Some("10.126.126.2".to_string()),
        easytier_iface: "easytier0".to_string(),
        exit_egress: ExitEgress {
            mode: ExitEgressMode::Auto,
            iface: None,
        },
        protect_control_plane: true,
        rollback_enabled: true,
    }
}

fn shell_lines(commands: &[CommandPlan]) -> Vec<String> {
    commands
        .iter()
        .filter(|cmd| cmd.program == "sh")
        .map(|cmd| cmd.args.join(" "))
        .collect()
}

fn text_of(commands: &[CommandPlan]) -> String {
    commands
        .iter()
        .map(|cmd| format!("{} {}", cmd.program, cmd.args.join(" ")))
        .collect::<Vec<_>>()
        .join("\n")
}

#[test]
fn source_apply_plan_is_idempotent_shape() {
    let backend = LinuxBackend::default();
    let commands = backend
        .plan_apply(&policy(DevicePolicyRole::ClientGatewayViaPeer))
        .unwrap();
    assert!(commands.iter().any(|cmd| {
        cmd.program == "ip"
            && cmd
                .args
                .starts_with(&["route".to_string(), "replace".to_string()])
    }));
    assert!(!commands.iter().any(|cmd| {
        cmd.program == "ip"
            && cmd
                .args
                .starts_with(&["rule".to_string(), "replace".to_string()])
    }));
    let shell_commands = shell_lines(&commands);
    assert!(shell_commands.iter().any(|cmd| {
        cmd.contains("ip rule del from 192.168.10.0/24 lookup 126 2>/dev/null || true")
            && cmd.contains("ip rule add from 192.168.10.0/24 lookup 126")
    }));
    assert!(shell_commands.iter().any(|cmd| {
        cmd.contains("ip -4 -o addr show dev 'br-lan'")
            && cmd.contains("ip rule add pref 100 from \"$cidr\" lookup 126")
    }));
    assert!(shell_commands.iter().any(|cmd| {
        cmd.contains("ip rule del fwmark 0x7e lookup 126 2>/dev/null || true")
            && cmd.contains("ip rule add fwmark 0x7e lookup 126")
    }));
}

#[test]
fn source_apply_adds_blackhole_and_forward_kill_switch() {
    let backend = LinuxBackend::default();
    let commands = backend
        .plan_apply(&policy(DevicePolicyRole::ClientGatewayViaPeer))
        .unwrap();
    let command_text = text_of(&commands);

    assert!(command_text.contains("ip route replace blackhole default table 126 metric 32767"));
    assert!(command_text.contains("nft add rule inet easytier_agent forward ip saddr 192.168.10.0/24 oifname easytier0 accept comment p1/source"));
    assert!(command_text.contains("nft add rule inet easytier_agent forward ip saddr 192.168.10.0/24 oifname != easytier0 drop comment p1/source"));
}

#[test]
fn source_cleanup_only_targets_this_policy_shape() {
    let backend = LinuxBackend::default();
    let commands = backend
        .plan_cleanup(&policy(DevicePolicyRole::ClientGatewayViaPeer))
        .unwrap();
    assert!(commands.iter().any(|cmd| {
        cmd.program == "sh"
            && cmd
                .args
                .join(" ")
                .contains("ip rule del from 192.168.10.0/24 lookup 126 2>/dev/null || true")
    }));
    assert!(commands.iter().any(|cmd| {
        cmd.program == "sh"
            && cmd.args.join(" ").contains("ip -4 -o addr show dev 'br-lan'")
            && cmd
                .args
                .join(" ")
                .contains("ip rule del pref 100 from \"$cidr\" lookup 126")
    }));
    assert!(commands.iter().any(|cmd| {
        cmd.program == "sh"
            && cmd
                .args
                .join(" ")
                .contains("ip route flush table 126 2>/dev/null || true")
    }));
    assert!(commands.iter().any(|cmd| {
        cmd.program == "sh"
            && cmd
                .args
                .join(" ")
                .contains("list chain inet easytier_agent output")
            && cmd.args.contains(&"p1/source".to_string())
    }));
}

#[test]
fn exit_apply_adds_nat_for_managed_cidr() {
    let backend = LinuxBackend::default();
    let commands = backend
        .plan_apply(&policy(DevicePolicyRole::ProvideExitForGateway))
        .unwrap();
    assert!(commands.iter().any(|cmd| cmd.program == "sysctl"));
    assert!(commands
        .iter()
        .any(|cmd| { cmd.program == "nft" && cmd.args.contains(&"192.168.10.0/24".to_string()) }));
    assert!(commands.iter().any(|cmd| {
        cmd.program == "sh"
            && cmd
                .args
                .join(" ")
                .contains("ip rule add pref 100 iif easytier0 lookup main")
    }));
}

#[test]
fn mod_exit_apply_adds_nat_for_source_peer_when_device_traffic_enabled() {
    let backend = LinuxBackend::default();
    let mut policy = policy(DevicePolicyRole::ProvideExitForGateway);
    policy.managed_cidrs.clear();
    policy.include_device_traffic = true;

    let commands = backend.plan_apply(&policy).unwrap();

    assert!(commands
        .iter()
        .any(|cmd| { cmd.program == "nft" && cmd.args.contains(&"10.126.126.2/32".to_string()) }));
}

#[test]
fn mod_exit_apply_routes_managed_cidrs_back_to_source_peer() {
    let backend = LinuxBackend::default();
    let commands = backend
        .plan_apply(&policy(DevicePolicyRole::ProvideExitForGateway))
        .unwrap();

    assert!(commands.iter().any(|cmd| {
        cmd.program == "ip"
            && cmd.args
                == [
                    "route".to_string(),
                    "replace".to_string(),
                    "192.168.10.0/24".to_string(),
                    "via".to_string(),
                    "10.126.126.2".to_string(),
                    "dev".to_string(),
                    "easytier0".to_string(),
                ]
    }));
}

#[test]
fn exit_apply_prepares_nft_table_and_chain_idempotently() {
    let backend = LinuxBackend::default();
    let commands = backend
        .plan_apply(&policy(DevicePolicyRole::ProvideExitForGateway))
        .unwrap();
    let shell_commands = shell_lines(&commands);

    assert!(shell_commands.iter().any(|cmd| {
        cmd.contains("nft list table inet easytier_agent")
            && cmd.contains("|| nft add table inet easytier_agent")
    }));
    assert!(shell_commands.iter().any(|cmd| {
        cmd.contains("nft list chain inet easytier_agent postrouting")
            && cmd.contains("|| nft add chain inet easytier_agent postrouting")
    }));
}

#[test]
fn source_apply_marks_device_traffic_when_enabled() {
    let backend = LinuxBackend::default();
    let commands = backend
        .plan_apply(&policy(DevicePolicyRole::ClientGatewayViaPeer))
        .unwrap();
    let shell_commands = shell_lines(&commands);

    assert!(shell_commands
        .iter()
        .any(|cmd| cmd.contains("nft list chain inet easytier_agent output")));
    assert!(commands.iter().any(|cmd| {
        cmd.program == "nft"
            && cmd.args.contains(&"output".to_string())
            && cmd.args.windows(4).any(|window| {
                window
                    == [
                        "meta".to_string(),
                        "mark".to_string(),
                        "set".to_string(),
                        "0x7e".to_string(),
                    ]
            })
    }));
}

#[test]
fn exit_apply_allows_forwarding_from_configured_easytier_interface() {
    let backend = LinuxBackend::default();
    let mut policy = policy(DevicePolicyRole::ProvideExitForGateway);
    policy.easytier_iface = "easytierw0".to_string();
    let commands = backend.plan_apply(&policy).unwrap();
    let shell_commands = shell_lines(&commands);

    assert!(shell_commands
        .iter()
        .any(|cmd| cmd.contains("nft list chain inet easytier_agent forward")));
    assert!(commands.iter().any(|cmd| {
        cmd.program == "nft"
            && cmd.args.contains(&"forward".to_string())
            && cmd.args.windows(3).any(|window| {
                window
                    == [
                        "iifname".to_string(),
                        "easytierw0".to_string(),
                        "accept".to_string(),
                    ]
            })
    }));
}

#[test]
fn exit_cleanup_targets_policy_comment() {
    let backend = LinuxBackend::default();
    let commands = backend
        .plan_cleanup(&policy(DevicePolicyRole::ProvideExitForGateway))
        .unwrap();
    assert!(commands.len() >= 2);
    assert!(commands
        .iter()
        .filter(|command| command.program == "sh")
        .filter(|command| command.args.join(" ").contains("nft"))
        .all(|command| command.args.contains(&"p1/source".to_string())));
    assert!(commands.iter().any(|command| {
        command.program == "sh"
            && command
                .args
                .join(" ")
                .contains("ip route del 192.168.10.0/24 2>/dev/null || true")
    }));
    assert!(commands.iter().any(|command| {
        command.program == "sh"
            && command
                .args
                .join(" ")
                .contains("ip rule del pref 100 iif easytier0 lookup main")
    }));
    assert!(commands
        .iter()
        .any(|command| command.args.join(" ").contains("postrouting")));
    assert!(commands
        .iter()
        .any(|command| command.args.join(" ").contains("forward")));
}

#[test]
fn exit_cleanup_deletes_nft_rules_by_handle_for_policy_comment() {
    let backend = LinuxBackend::default();
    let commands = backend
        .plan_cleanup(&policy(DevicePolicyRole::ProvideExitForGateway))
        .unwrap();

    assert_eq!(commands[0].program, "sh");
    assert!(commands[0].args.iter().any(|arg| arg.contains("nft -a list chain")
        && arg.contains("index($0, c)")
        && !arg.contains(r#"comment \\\""#)));
    assert!(commands[0].args.iter().any(|arg| arg.contains("handle")));
    assert!(commands[0].args.contains(&"p1/source".to_string()));
}

#[test]
fn exit_apply_uses_uci_firewall_and_fw4_reload() {
    let backend = OpenWrtBackend::default();
    let commands = backend
        .plan_apply(&policy(DevicePolicyRole::ProvideExitForGateway))
        .unwrap();
    let shell_commands = shell_lines(&commands);

    assert!(shell_commands
        .iter()
        .any(|cmd| cmd.contains("uci -q batch") && cmd.contains("=nat")));
    assert!(shell_commands
        .iter()
        .any(|cmd| cmd.contains("=nat") && cmd.contains("MASQUERADE")));
    assert!(commands
        .iter()
        .any(|cmd| cmd.program == "fw4" && cmd.args == ["reload"]));
    assert!(shell_commands
        .iter()
        .any(|cmd| cmd.contains("nft insert rule inet fw4 forward")));
    assert!(!shell_commands.iter().any(|cmd| cmd.contains(".extra=")));
}

#[test]
fn exit_apply_adds_nat_for_source_peer_when_device_traffic_enabled() {
    let backend = OpenWrtBackend::default();
    let mut policy = policy(DevicePolicyRole::ProvideExitForGateway);
    policy.device_policy_id = "p1/exit".to_string();
    policy.managed_cidrs.clear();
    policy.include_device_traffic = true;

    let commands = backend.plan_apply(&policy).unwrap();
    let command_text = text_of(&commands);

    assert!(command_text
        .contains("set firewall.easytier_agent_nat_0_p1_exit.src_ip='10.126.126.2/32'"));
}

#[test]
fn exit_apply_inserts_forward_rule_before_fw4_reject_tail() {
    let backend = OpenWrtBackend::default();
    let commands = backend
        .plan_apply(&policy(DevicePolicyRole::ProvideExitForGateway))
        .unwrap();
    let add_forward_rule = commands
        .iter()
        .filter(|cmd| cmd.program == "sh")
        .map(|cmd| cmd.args.join(" "))
        .find(|cmd| cmd.contains("nft") && cmd.contains("iifname"))
        .expect("missing nft forward accept rule");

    assert!(
        add_forward_rule.contains("nft insert rule inet fw4 forward"),
        "forward accept rule must be inserted before fw4 handle_reject tail: {add_forward_rule}"
    );
}

#[test]
fn exit_apply_routes_managed_cidrs_back_to_source_peer() {
    let backend = OpenWrtBackend::default();
    let commands = backend
        .plan_apply(&policy(DevicePolicyRole::ProvideExitForGateway))
        .unwrap();
    let command_text = text_of(&commands);

    assert!(
        command_text.contains("ip route replace 192.168.10.0/24 via 10.126.126.2 dev easytier0"),
        "exit node must route managed client CIDRs back to the source EasyTier peer: {command_text}"
    );
}

#[test]
fn source_apply_keeps_policy_routing_outside_firewall_zones() {
    let backend = OpenWrtBackend::default();
    let commands = backend
        .plan_apply(&policy(DevicePolicyRole::ClientGatewayViaPeer))
        .unwrap();
    let command_text = text_of(&commands);

    assert!(command_text.contains("ip route replace default via 10.126.126.3"));
    assert!(command_text.contains("ip rule add from 192.168.10.0/24 lookup 126"));
    assert!(!command_text.contains("set firewall.@zone"));
    assert!(!command_text.contains("network.wan"));
    assert!(!command_text.contains("network.lan"));
}

#[test]
fn source_apply_routes_full_tunnel_by_ingress_interface_not_all_sources() {
    let backend = OpenWrtBackend::default();
    let mut policy = policy(DevicePolicyRole::ClientGatewayViaPeer);
    policy.managed_cidrs = vec!["0.0.0.0/0".to_string()];
    policy.ingress_ifaces = vec!["br-lan".to_string()];

    let commands = backend.plan_apply(&policy).unwrap();
    let command_text = text_of(&commands);

    assert!(command_text.contains("ip rule add iif br-lan lookup 126"));
    assert!(command_text.contains("ip rule del from 0.0.0.0/0 lookup 126"));
    assert!(!command_text.contains("ip rule add from 0.0.0.0/0 lookup 126"));
}

#[test]
fn source_cleanup_flushes_policy_route_table() {
    let backend = OpenWrtBackend::default();
    let commands = backend
        .plan_cleanup(&policy(DevicePolicyRole::ClientGatewayViaPeer))
        .unwrap();

    assert!(commands.iter().any(|cmd| {
        cmd.program == "sh"
            && cmd
                .args
                .join(" ")
                .contains("ip route flush table 126 2>/dev/null || true")
    }));
}

#[test]
fn exit_cleanup_flushes_policy_route_table() {
    let backend = OpenWrtBackend::default();
    let commands = backend
        .plan_cleanup(&policy(DevicePolicyRole::ProvideExitForGateway))
        .unwrap();

    assert!(commands.iter().any(|cmd| {
        cmd.program == "sh"
            && cmd
                .args
                .join(" ")
                .contains("ip route flush table 126 2>/dev/null || true")
    }));
}

#[test]
fn apply_uses_configured_easytier_interface() {
    let backend = OpenWrtBackend::default();
    let mut source_policy = policy(DevicePolicyRole::ClientGatewayViaPeer);
    source_policy.easytier_iface = "easytierw0".to_string();
    let source_text = text_of(&backend.plan_apply(&source_policy).unwrap());
    assert!(source_text.contains("dev easytierw0 table 126"));

    let mut exit_policy = policy(DevicePolicyRole::ProvideExitForGateway);
    exit_policy.easytier_iface = "easytierw0".to_string();
    let exit_text = text_of(&backend.plan_apply(&exit_policy).unwrap());
    assert!(exit_text.contains("iifname \\\"easytierw0\\\""));
}

fn added_rules(commands: &[CommandPlan], table: &str) -> Vec<(String, String)> {
    commands
        .iter()
        .filter(|cmd| {
            cmd.program == "nft"
                && cmd.args.len() >= 7
                && cmd.args[0] == "add"
                && cmd.args[1] == "rule"
                && cmd.args[2] == "inet"
                && cmd.args[3] == table
                && cmd.args[cmd.args.len() - 2] == "comment"
        })
        .map(|cmd| (cmd.args[4].clone(), cmd.args[cmd.args.len() - 1].clone()))
        .collect()
}

fn clears_chain_of_comment(commands: &[CommandPlan], chain: &str, comment: &str) -> bool {
    commands.iter().any(|cmd| {
        cmd.program == "sh"
            && cmd.args.len() == 4
            && cmd.args[1].contains(&format!("nft -a list chain inet easytier_agent {chain} "))
            && cmd.args[3] == comment
    })
}

#[test]
fn linux_cleanup_clears_every_rule_its_apply_adds() {
    let backend = LinuxBackend::default();
    for role in [DevicePolicyRole::ClientGatewayViaPeer, DevicePolicyRole::ProvideExitForGateway] {
        for cidrs in [vec!["192.168.10.0/24".to_string()], vec!["0.0.0.0/0".to_string()]] {
            let mut p = policy(role);
            p.managed_cidrs = cidrs;
            let apply = backend.plan_apply(&p).unwrap();
            let cleanup = backend.plan_cleanup(&p).unwrap();
            let rules = added_rules(&apply, "easytier_agent");
            assert!(!rules.is_empty());
            for (chain, comment) in rules {
                assert_eq!(comment, "p1/source");
                assert!(clears_chain_of_comment(&cleanup, &chain, &comment), "{chain}");
            }
        }
    }
}

#[test]
fn linux_source_cleanup_deletes_the_ip_rules_its_apply_adds() {
    let backend = LinuxBackend::default();
    let mut p = policy(DevicePolicyRole::ClientGatewayViaPeer);
    p.managed_cidrs = vec!["192.168.10.0/24".to_string(), "10.0.0.0/8".to_string()];
    p.ingress_ifaces = vec!["br-lan".to_string(), "wlan0".to_string()];
    let apply = shell_lines(&backend.plan_apply(&p).unwrap());
    let cleanup = shell_lines(&backend.plan_cleanup(&p).unwrap());
    for cidr in ["192.168.10.0/24", "10.0.0.0/8"] {
        let add = format!("ip rule add from {cidr} lookup 126");
        assert!(apply.iter().any(|l| l.ends_with(&add)));
        let del = format!("-c ip rule del from {cidr} lookup 126 2>/dev/null || true");
        assert!(cleanup.iter().any(|l| *l == del), "{del}");
        for iface in ["br-lan", "wlan0"] {
            let del = format!("-c ip rule del iif {iface} from {cidr} lookup 126 2>/dev/null || true");
            assert!(cleanup.iter().any(|l| *l == del), "{del}");
        }
    }
    assert!(cleanup.iter().any(|l| l == "-c ip rule del fwmark 0x7e lookup 126 2>/dev/null || true"));
    assert!(cleanup.iter().any(|l| l == "-c ip route flush table 126 2>/dev/null || true"));
}

#[test]
fn linux_source_cleanup_only_takes_away() {
    let backend = LinuxBackend::default();
    let p = policy(DevicePolicyRole::ClientGatewayViaPeer);
    for cmd in backend.plan_cleanup(&p).unwrap() {
        let script = cmd.args.join(" ");
        assert!(
            script.contains(" del ") || script.contains("rule del") || script.contains("route flush")
                || script.contains("nft delete rule"),
            "{script}"
        );
        assert!(!script.contains("nft add") && !script.contains("ip rule add"), "{script}");
    }
}
