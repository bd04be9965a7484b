use easytier_gateway::node_views::{
    build_gateway_node_views, build_quick_apply_gateway_policy,
    build_quick_apply_gateway_policy_for_network, GatewayNodeAgentView, GatewayNodeMachineSnapshot,
    GatewayNodeView, ManagedCidrsMode, QuickApplyGatewayPolicyRequest,
};
use easytier_gateway::policy::{DevicePolicyRole, ExitEgress};
use easytier_gateway::policy_store::PolicyStore;
use easytier_gateway::web_credential::instant_nanos;
use easytier_gateway::web_policy::{
    apply_gateway_policy_to_native_network_configs, default_easytier_iface, optional_role_field,
    optional_uuid_field, validate_policy_conflicts, DevicePolicy, GatewayFullTunnelPolicy,
    HealthcheckConfig, NativeNetworkSettings, PolicyError, RollbackConfig, RuntimeReport,
};
use uuid::Uuid;

const SECOND_NANOS: i128 = 1_000_000_000;

fn new_id() -> u128 {
    Uuid::new_v4().as_u128()
}

fn at(text: &str) -> i128 {
    let t = chrono::DateTime::parse_from_rfc3339(text).unwrap();
    instant_nanos(t.timestamp(), t.timestamp_subsec_nanos())
}

fn base_policy(source: u128, exit: u128) -> GatewayFullTunnelPolicy {
    GatewayFullTunnelPolicy {
        policy_id: new_id(),
        enabled: true,
        network_instance_id: new_id(),
        source_machine_id: source,
        managed_cidrs: vec!["192.168.10.0/24".to_string()],
        ingress_ifaces: vec!["br-lan".to_string()],
        include_device_traffic: true,
        exit_machine_id: exit,
        exit_egress: ExitEgress::default(),
        desired_version: 1,
        protect_control_plane: true,
        healthcheck: HealthcheckConfig::default(),
        rollback: RollbackConfig::default(),
    }
}

fn report(machine_id: u128, easytier_ipv4: Option<&str>) -> RuntimeReport {
    RuntimeReport {
        machine_id,
        agent_version: "0.1.0".to_string(),
        easytier_ipv4: easytier_ipv4.map(str::to_string),
        ..Default::default()
    }
}

#[test]
fn device_policy_defaults_to_tun0() {
    let policy = DevicePolicy {
        policy_id: new_id(),
        device_policy_id: "p1/source".to_string(),
        enabled: true,
        version: 1,
        role: DevicePolicyRole::ClientGatewayViaPeer,
        machine_id: new_id(),
        network_instance_id: 0,
        source_machine_id: new_id(),
        managed_cidrs: vec!["192.168.10.0/24".to_string()],
        ingress_ifaces: vec!["br-lan".to_string()],
        include_device_traffic: true,
        exit_machine_id: new_id(),
        exit_peer_ipv4: Some("10.126.126.3".to_string()),
        source_peer_ipv4: None,
        easytier_iface: default_easytier_iface(),
        exit_egress: ExitEgress::default(),
        protect_control_plane: true,
        rollback_enabled: true,
    };

    assert_eq!(policy.easytier_iface, "tun0");
}

#[test]
fn rejects_source_equal_to_exit() {
    let machine_id = new_id();
    let policy = base_policy(machine_id, machine_id);

    assert_eq!(policy.validate(), Err(PolicyError::SourceEqualsExit));
}

#[test]
fn gateway_policy_rejects_policy_without_managed_traffic() {
    let mut policy = base_policy(new_id(), new_id());
    policy.managed_cidrs.clear();
    policy.include_device_traffic = false;

    assert_eq!(policy.validate(), Err(PolicyError::NoManagedTraffic));
}

#[test]
fn source_can_have_only_one_enabled_policy() {
    let source = new_id();
    let existing = vec![base_policy(source, new_id())];
    let candidate = base_policy(source, new_id());

    assert_eq!(
        validate_policy_conflicts(&existing, &candidate),
        Err(PolicyError::SourceAlreadyHasEnabledPolicy)
    );
}

#[test]
fn exit_can_serve_multiple_sources() {
    let exit = new_id();
    let existing = vec![base_policy(new_id(), exit)];
    let candidate = base_policy(new_id(), exit);

    validate_policy_conflicts(&existing, &candidate).unwrap();
}

#[test]
fn disabled_candidate_does_not_conflict_with_enabled_policy_of_its_source() {
    let source = new_id();
    let existing = vec![base_policy(source, new_id())];
    let mut candidate = base_policy(source, new_id());
    candidate.enabled = false;

    validate_policy_conflicts(&existing, &candidate).unwrap();
}

#[test]
fn builds_source_and_exit_device_policies() {
    let source = new_id();
    let exit = new_id();
    let policy = base_policy(source, exit);

    let source_policy = policy
        .source_device_policy("10.126.126.3".to_string())
        .unwrap();
    let exit_policy = policy
        .exit_device_policy("10.126.126.2".to_string())
        .unwrap();

    assert_eq!(source_policy.role, DevicePolicyRole::ClientGatewayViaPeer);
    assert_eq!(source_policy.machine_id, source);
    assert_eq!(source_policy.exit_peer_ipv4.as_deref(), Some("10.126.126.3"));
    assert_eq!(exit_policy.role, DevicePolicyRole::ProvideExitForGateway);
    assert_eq!(exit_policy.machine_id, exit);
    assert_eq!(exit_policy.source_peer_ipv4.as_deref(), Some("10.126.126.2"));
}

fn settings(
    proxy_cidrs: Vec<&str>,
    exit_nodes: Vec<&str>,
    enable_exit_node: Option<bool>,
    proxy_forward_by_system: Option<bool>,
) -> NativeNetworkSettings {
    NativeNetworkSettings {
        proxy_cidrs: proxy_cidrs.into_iter().map(str::to_string).collect(),
        exit_nodes: exit_nodes.into_iter().map(str::to_string).collect(),
        enable_exit_node,
        proxy_forward_by_system,
    }
}

#[test]
fn native_network_config_sync_announces_source_cidrs_and_prepares_exit() {
    let policy = base_policy(new_id(), new_id());
    let mut source_config = settings(vec!["10.10.0.0/24"], vec!["10.126.126.9"], Some(true), Some(true));
    let mut exit_config = settings(vec!["192.168.10.0/24"], vec!["10.126.126.2"], None, None);

    apply_gateway_policy_to_native_network_configs(
        &policy,
        &mut source_config,
        &mut exit_config,
        "10.126.126.3",
    );

    assert!(source_config
        .proxy_cidrs
        .contains(&"192.168.10.0/24".to_string()));
    assert_eq!(source_config.exit_nodes, vec!["10.126.126.3"]);
    assert_eq!(source_config.enable_exit_node, Some(false));
    assert_eq!(source_config.proxy_forward_by_system, Some(false));
    assert!(exit_config.proxy_cidrs.is_empty());
    assert!(exit_config.exit_nodes.is_empty());
    assert_eq!(exit_config.enable_exit_node, Some(true));
    assert_eq!(exit_config.proxy_forward_by_system, Some(true));
}

#[test]
fn native_network_config_sync_cleans_gateway_settings_when_policy_disabled() {
    let mut policy = base_policy(new_id(), new_id());
    policy.enabled = false;
    let mut source_config = settings(
        vec!["192.168.10.0/24", "10.10.0.0/24"],
        vec!["10.126.126.3"],
        None,
        None,
    );
    let mut exit_config = settings(vec![], vec![], Some(true), Some(true));

    apply_gateway_policy_to_native_network_configs(
        &policy,
        &mut source_config,
        &mut exit_config,
        "10.126.126.3",
    );

    assert_eq!(source_config.proxy_cidrs, vec!["10.10.0.0/24"]);
    assert!(source_config.exit_nodes.is_empty());
    assert_eq!(exit_config.enable_exit_node, Some(false));
    assert_eq!(exit_config.proxy_forward_by_system, Some(false));
}

fn prepared_report(machine_id: u128, ipv4: &str, last_report_at: &str, lan: &str) -> RuntimeReport {
    RuntimeReport {
        machine_id,
        agent_version: "0.1.0".to_string(),
        easytier_ipv4: Some(ipv4.to_string()),
        last_report_at: Some(last_report_at.to_string()),
        status: Some("prepared".to_string()),
        observed_policy_status: Some("prepared".to_string()),
        easytier_iface: Some("easytier0".to_string()),
        lan_cidrs: vec![lan.to_string()],
        ingress_ifaces: vec!["br-lan".to_string()],
        default_route: Some("default via 192.168.64.1 dev eth0".to_string()),
        firewall_backend: Some("fw4-nftables".to_string()),
        ..Default::default()
    }
}

#[test]
fn node_list_uses_native_machines_as_primary_source() {
    let machine = new_id();
    let orphan = new_id();
    let now = at("2026-05-22T10:00:00+00:00");
    let views = build_gateway_node_views(
        vec![GatewayNodeMachineSnapshot {
            machine_id: machine,
            hostname: Some("r3s-a".to_string()),
            public_ip: Some("182.105.22.12".to_string()),
            running_network_instances: vec![0],
        }],
        vec![
            prepared_report(machine, "10.126.126.2", "2026-05-22T09:59:50+00:00", "192.168.100.0/24"),
            prepared_report(orphan, "10.126.126.9", "2026-05-22T09:59:50+00:00", "192.168.200.0/24"),
        ],
        now,
        30 * SECOND_NANOS,
    );

    assert_eq!(views.len(), 1);
    assert_eq!(views[0].machine_id, machine);
    assert!(views[0].machine_online);
    assert!(views[0].agent.online);
    assert_eq!(views[0].agent.easytier_ipv4.as_deref(), Some("10.126.126.2"));
    assert_eq!(views[0].agent.lan_cidrs, vec!["192.168.100.0/24"]);
}

#[test]
fn node_list_marks_agent_report_stale() {
    let machine = new_id();
    let now = at("2026-05-22T10:00:00+00:00");
    let views = build_gateway_node_views(
        vec![GatewayNodeMachineSnapshot {
            machine_id: machine,
            hostname: Some("r3s-a".to_string()),
            public_ip: Some("182.105.22.12".to_string()),
            running_network_instances: vec![],
        }],
        vec![prepared_report(machine, "10.126.126.2", "2026-05-22T09:58:00+00:00", "192.168.100.0/24")],
        now,
        30 * SECOND_NANOS,
    );

    assert_eq!(views.len(), 1);
    assert!(views[0].machine_online);
    assert!(!views[0].agent.online);
    assert_eq!(views[0].agent.policy_status.as_deref(), Some("prepared"));
}

#[test]
fn node_list_sorts_by_machine_id_and_keeps_newest_report() {
    let now = at("2026-05-22T10:00:00+00:00");
    let machines = vec![
        GatewayNodeMachineSnapshot {
            machine_id: 9,
            hostname: None,
            public_ip: None,
            running_network_instances: vec![],
        },
        GatewayNodeMachineSnapshot {
            machine_id: 3,
            hostname: None,
            public_ip: None,
            running_network_instances: vec![],
        },
    ];
    let reports = vec![
        prepared_report(3, "10.0.0.2", "2026-05-22T09:59:59+00:00", "10.1.0.0/24"),
        prepared_report(3, "10.0.0.3", "2026-05-22T09:00:00+00:00", "10.2.0.0/24"),
    ];
    let views = build_gateway_node_views(machines, reports, now, 30 * SECOND_NANOS);
    assert_eq!(views.iter().map(|v| v.machine_id).collect::<Vec<_>>(), vec![3, 9]);
    assert_eq!(views[0].agent.easytier_ipv4.as_deref(), Some("10.0.0.2"));
    assert!(views[0].agent.online);
    assert_eq!(views[1].agent, GatewayNodeAgentView::default());
}

fn gateway_node_view(
    machine_id: u128,
    network_instance_id: u128,
    online: bool,
    lan_cidrs: Vec<&str>,
) -> GatewayNodeView {
    GatewayNodeView {
        machine_id,
        hostname: Some(Uuid::from_u128(machine_id).to_string()),
        public_ip: None,
        machine_online: true,
        running_network_instances: vec![network_instance_id],
        agent: GatewayNodeAgentView {
            online,
            last_report_at: Some("2026-05-22T10:00:00+00:00".to_string()),
            agent_version: Some("0.1.0".to_string()),
            easytier_ipv4: Some("10.126.126.2".to_string()),
            easytier_iface: Some("easytier0".to_string()),
            lan_cidrs: lan_cidrs.into_iter().map(str::to_string).collect(),
            ingress_ifaces: vec!["br-lan".to_string()],
            default_route: None,
            firewall_backend: Some("fw4-nftables".to_string()),
            policy_status: Some("prepared".to_string()),
            last_error: None,
            protected_routes: vec![],
        },
    }
}

fn auto_request(source: u128, exit: u128, managed_cidrs: Vec<&str>) -> QuickApplyGatewayPolicyRequest {
    QuickApplyGatewayPolicyRequest {
        source_machine_id: source,
        exit_machine_id: exit,
        network_instance_id: None,
        managed_cidrs_mode: ManagedCidrsMode::Auto,
        managed_cidrs: managed_cidrs.into_iter().map(str::to_string).collect(),
        include_device_traffic: false,
    }
}

#[test]
fn quick_apply_rejects_same_source_exit() {
    let machine = new_id();
    let request = auto_request(machine, machine, vec![]);

    assert_eq!(
        build_quick_apply_gateway_policy(&request, &[], new_id(), 1),
        Err(PolicyError::SourceEqualsExit)
    );
}

#[test]
fn quick_apply_rejects_stale_agent_report() {
    let source = new_id();
    let exit = new_id();
    let network = new_id();
    let request = auto_request(source, exit, vec![]);
    let nodes = vec![
        gateway_node_view(source, network, false, vec!["192.168.100.0/24"]),
        gateway_node_view(exit, network, true, vec!["192.168.200.0/24"]),
    ];

    assert_eq!(
        build_quick_apply_gateway_policy(&request, &nodes, new_id(), 1),
        Err(PolicyError::AgentReportStale(source))
    );
}

#[test]
fn quick_apply_builds_default_gateway_policy_from_node_reports() {
    let source = new_id();
    let exit = new_id();
    let network = new_id();
    let policy_id = new_id();
    let request = auto_request(source, exit, vec![]);
    let nodes = vec![
        gateway_node_view(source, network, true, vec!["192.168.100.0/24"]),
        gateway_node_view(exit, network, true, vec!["192.168.200.0/24"]),
    ];

    let policy = build_quick_apply_gateway_policy(&request, &nodes, policy_id, 7).unwrap();

    assert_eq!(policy.policy_id, policy_id);
    assert_eq!(policy.network_instance_id, network);
    assert_eq!(policy.source_machine_id, source);
    assert_eq!(policy.exit_machine_id, exit);
    assert_eq!(policy.managed_cidrs, vec!["192.168.100.0/24"]);
    assert_eq!(policy.ingress_ifaces, vec!["br-lan"]);
    assert!(!policy.include_device_traffic);
    assert!(policy.enabled);
    assert_eq!(policy.desired_version, 7);
}

#[test]
fn quick_apply_prefers_explicit_managed_cidrs_override() {
    let source = new_id();
    let exit = new_id();
    let network = new_id();
    let policy_id = new_id();
    let request = auto_request(source, exit, vec!["192.168.100.0/24"]);
    let nodes = vec![
        gateway_node_view(source, network, true, vec!["192.168.64.2/24"]),
        gateway_node_view(exit, network, true, vec!["192.168.64.3/24"]),
    ];

    let policy = build_quick_apply_gateway_policy(&request, &nodes, policy_id, 11).unwrap();

    assert_eq!(policy.managed_cidrs, vec!["192.168.100.0/24"]);
    assert_eq!(policy.ingress_ifaces, vec!["br-lan"]);
}

#[test]
fn quick_apply_can_build_policy_for_prepared_gateway_default_network() {
    let source = new_id();
    let exit = new_id();
    let prepared_network = new_id();
    let policy_id = new_id();
    let request = auto_request(source, exit, vec![]);
    let mut source_node = gateway_node_view(source, new_id(), true, vec!["192.168.100.0/24"]);
    let mut exit_node = gateway_node_view(exit, new_id(), true, vec!["192.168.200.0/24"]);
    source_node.running_network_instances.clear();
    exit_node.running_network_instances.clear();
    source_node.agent.easytier_ipv4 = None;
    exit_node.agent.easytier_ipv4 = None;
    let nodes = vec![source_node, exit_node];

    let policy =
        build_quick_apply_gateway_policy_for_network(&request, &nodes, policy_id, 3, prepared_network)
            .unwrap();

    assert_eq!(policy.network_instance_id, prepared_network);
    assert_eq!(policy.source_machine_id, source);
    assert_eq!(policy.exit_machine_id, exit);
    assert_eq!(policy.managed_cidrs, vec!["192.168.100.0/24"]);
    assert!(!policy.include_device_traffic);
}

#[test]
fn quick_apply_picks_smallest_shared_network() {
    let request = auto_request(1, 2, vec![]);
    let mut source_node = gateway_node_view(1, 50, true, vec!["192.168.100.0/24"]);
    let mut exit_node = gateway_node_view(2, 40, true, vec![]);
    source_node.running_network_instances = vec![70, 50, 40];
    exit_node.running_network_instances = vec![40, 50];
    let nodes = vec![source_node, exit_node];

    let policy = build_quick_apply_gateway_policy(&request, &nodes, 9, 1).unwrap();
    assert_eq!(policy.network_instance_id, 40);
}

#[test]
fn quick_apply_errors() {
    let mut request = auto_request(1, 2, vec![]);
    let nodes = vec![
        gateway_node_view(1, 5, true, vec![]),
        gateway_node_view(2, 6, true, vec![]),
    ];
    assert_eq!(
        build_quick_apply_gateway_policy(&request, &nodes[..1], 9, 1),
        Err(PolicyError::MachineOffline(2))
    );
    assert_eq!(
        build_quick_apply_gateway_policy(&request, &nodes, 9, 1),
        Err(PolicyError::NetworkInstanceNotReady)
    );
    request.network_instance_id = Some(5);
    assert_eq!(
        build_quick_apply_gateway_policy(&request, &nodes, 9, 1),
        Err(PolicyError::NetworkInstanceNotReady)
    );
    assert_eq!(
        build_quick_apply_gateway_policy_for_network(&request, &nodes, 9, 1, 5),
        Err(PolicyError::MissingManagedCidrs)
    );
    let mut offline = nodes.clone();
    offline[1].machine_online = false;
    assert_eq!(
        build_quick_apply_gateway_policy_for_network(&request, &offline, 9, 1, 5),
        Err(PolicyError::MachineOffline(2))
    );
}

#[test]
fn store_returns_native_sync_ready_policies_when_both_peer_ips_are_known() {
    let source = new_id();
    let exit = new_id();
    let policy = base_policy(source, exit);
    let policy_id = policy.policy_id;
    let mut store = PolicyStore::default();
    store.upsert_policy(1, policy).unwrap();

    store.update_report(1, report(source, Some("10.126.126.2")));
    assert!(store
        .native_sync_ready_policies_for_machine(1, source)
        .is_empty());

    store.update_report(1, report(exit, Some("10.126.126.3")));

    let ready = store.native_sync_ready_policies_for_machine(1, source);
    assert_eq!(ready.len(), 1);
    assert_eq!(ready[0].policy_id, policy_id);
    assert_eq!(
        store.native_sync_ready_policies_for_machine(1, exit)[0].policy_id,
        policy_id
    );
}

#[test]
fn store_returns_no_device_policy_until_peer_ips_are_known() {
    let source = new_id();
    let exit = new_id();
    let policy = base_policy(source, exit);
    let mut store = PolicyStore::default();
    store.upsert_policy(1, policy).unwrap();

    store.update_report(1, report(source, Some("10.126.126.2")));

    assert_eq!(store.device_policies_for_machine(1, source), Ok(vec![]));
    assert_eq!(store.device_policies_for_machine(1, exit).unwrap().len(), 1);
}

#[test]
fn store_returns_device_policies_after_reports_are_ready() {
    let source = new_id();
    let exit = new_id();
    let mut store = PolicyStore::default();
    store.upsert_policy(1, base_policy(source, exit)).unwrap();

    assert_eq!(store.device_policies_for_machine(1, source), Ok(vec![]));

    let mut source_report = report(source, Some("10.126.126.2"));
    source_report.last_report_at = Some("2026-05-16T10:00:00+00:00".to_string());
    store.update_report(1, source_report);
    let mut exit_report = report(exit, Some("10.126.126.3"));
    exit_report.last_report_at = Some("2026-05-16T10:00:00+00:00".to_string());
    store.update_report(1, exit_report);

    let source_policies = store.device_policies_for_machine(1, source).unwrap();
    let exit_policies = store.device_policies_for_machine(1, exit).unwrap();

    assert_eq!(source_policies.len(), 1);
    assert!(source_policies[0].enabled);
    assert_eq!(source_policies[0].role, DevicePolicyRole::ClientGatewayViaPeer);
    assert_eq!(source_policies[0].exit_peer_ipv4.as_deref(), Some("10.126.126.3"));
    assert_eq!(exit_policies.len(), 1);
    assert!(exit_policies[0].enabled);
    assert_eq!(exit_policies[0].role, DevicePolicyRole::ProvideExitForGateway);
    assert_eq!(exit_policies[0].source_peer_ipv4.as_deref(), Some("10.126.126.2"));
}

#[test]
fn disabled_policy_still_returns_cleanup_device_policies() {
    let source = new_id();
    let exit = new_id();
    let mut policy = base_policy(source, exit);
    policy.enabled = false;
    let mut store = PolicyStore::default();
    store.upsert_policy(1, policy).unwrap();

    for (machine_id, easytier_ipv4) in [(source, "10.126.126.2"), (exit, "10.126.126.3")] {
        store.update_report(1, report(machine_id, Some(easytier_ipv4)));
    }

    let source_policies = store.device_policies_for_machine(1, source).unwrap();
    let exit_policies = store.device_policies_for_machine(1, exit).unwrap();

    assert_eq!(source_policies.len(), 1);
    assert_eq!(exit_policies.len(), 1);
    assert!(!source_policies[0].enabled);
    assert!(!exit_policies[0].enabled);
}

fn policy_report(
    machine_id: u128,
    easytier_ipv4: Option<&str>,
    last_report_at: &str,
    policy: &GatewayFullTunnelPolicy,
    role: DevicePolicyRole,
    status: &str,
) -> RuntimeReport {
    let side = match role {
        DevicePolicyRole::ClientGatewayViaPeer => "source",
        DevicePolicyRole::ProvideExitForGateway => "exit",
    };
    RuntimeReport {
        machine_id,
        agent_version: "0.1.0".to_string(),
        easytier_ipv4: easytier_ipv4.map(str::to_string),
        last_report_at: Some(last_report_at.to_string()),
        policy_id: Some(policy.policy_id),
        device_policy_id: Some(format!("{}/{}", Uuid::from_u128(policy.policy_id), side)),
        version: Some(policy.desired_version),
        role: Some(role),
        status: Some(status.to_string()),
        observed_policy_id: Some(policy.policy_id),
        observed_policy_version: Some(policy.desired_version),
        observed_policy_status: Some(status.to_string()),
        last_error: None,
        ..Default::default()
    }
}

#[test]
fn store_keeps_machine_easytier_ip_when_policy_report_omits_it() {
    let source = new_id();
    let exit = new_id();
    let policy = base_policy(source, exit);
    let mut store = PolicyStore::default();
    store.upsert_policy(1, policy.clone()).unwrap();

    let mut first = report(exit, Some("10.126.126.3"));
    first.last_report_at = Some("2026-05-16T10:00:00+00:00".to_string());
    store.update_report(1, first);
    store.update_report(
        1,
        policy_report(
            exit,
            None,
            "2026-05-16T10:01:00+00:00",
            &policy,
            DevicePolicyRole::ProvideExitForGateway,
            "prepared",
        ),
    );

    let source_policies = store.device_policies_for_machine(1, source).unwrap();

    assert_eq!(source_policies[0].exit_peer_ipv4.as_deref(), Some("10.126.126.3"));
}

#[test]
fn store_scopes_policies_by_user() {
    let source = new_id();
    let mut store = PolicyStore::default();
    store.upsert_policy(1, base_policy(source, new_id())).unwrap();
    store.upsert_policy(2, base_policy(source, new_id())).unwrap();

    assert_eq!(store.list_policies(1).len(), 1);
    assert_eq!(store.list_policies(2).len(), 1);
}

#[test]
fn store_refuses_second_enabled_policy_of_a_source() {
    let source = new_id();
    let mut store = PolicyStore::default();
    store.upsert_policy(1, base_policy(source, new_id())).unwrap();
    assert_eq!(
        store.upsert_policy(1, base_policy(source, new_id())),
        Err(PolicyError::SourceAlreadyHasEnabledPolicy)
    );
    assert_eq!(store.list_policies(1).len(), 1);
}

#[test]
fn runtime_report_accepts_empty_policy_fields_from_idle_agent() {
    let report = RuntimeReport {
        machine_id: Uuid::parse_str("9e466b97-623f-4cea-b072-d5f7b002d446")
            .unwrap()
            .as_u128(),
        agent_version: "0.1.0".to_string(),
        easytier_ipv4: Some("10.126.126.20".to_string()),
        policy_id: optional_uuid_field(Some("")).unwrap(),
        device_policy_id: Some(String::new()),
        version: Some(0),
        role: optional_role_field(Some("")).unwrap(),
        status: Some("prepared".to_string()),
        observed_policy_id: optional_uuid_field(Some("")).unwrap(),
        observed_policy_version: Some(0),
        observed_policy_status: Some("prepared".to_string()),
        last_error: None,
        ..Default::default()
    };

    assert_eq!(
        report.machine_id,
        Uuid::parse_str("9e466b97-623f-4cea-b072-d5f7b002d446")
            .unwrap()
            .as_u128()
    );
    assert_eq!(report.policy_id, None);
    assert_eq!(report.role, None);
    assert_eq!(report.observed_policy_id, None);
    assert_eq!(report.status.as_deref(), Some("prepared"));
}

#[test]
fn optional_report_fields_read_values_and_refuse_garbage() {
    let id = Uuid::new_v4();
    assert_eq!(
        optional_uuid_field(Some(&format!(" {id} "))),
        Ok(Some(id.as_u128()))
    );
    assert_eq!(optional_uuid_field(None), Ok(None));
    assert_eq!(
        optional_uuid_field(Some("not-a-uuid")),
        Err("not-a-uuid".to_string())
    );
    assert_eq!(
        optional_role_field(Some("provide_exit_for_gateway")),
        Ok(Some(DevicePolicyRole::ProvideExitForGateway))
    );
    assert_eq!(
        optional_role_field(Some("gateway")),
        Err("unknown device policy role: gateway".to_string())
    );
}

#[test]
fn store_returns_policy_snapshot_with_observed_state() {
    let source = new_id();
    let exit = new_id();
    let policy = base_policy(source, exit);
    let mut store = PolicyStore::default();
    store.upsert_policy(1, policy.clone()).unwrap();
    store.update_report(
        1,
        policy_report(
            source,
            Some("10.126.126.2"),
            "2026-05-16T10:00:00+00:00",
            &policy,
            DevicePolicyRole::ClientGatewayViaPeer,
            "active",
        ),
    );
    store.update_report(
        1,
        policy_report(
            exit,
            Some("10.126.126.3"),
            "2026-05-16T10:00:00+00:00",
            &policy,
            DevicePolicyRole::ProvideExitForGateway,
            "prepared",
        ),
    );

    let snapshot = store.policy_snapshot(1, policy.policy_id).unwrap();

    assert_eq!(snapshot.desired, policy);
    assert_eq!(
        snapshot.observed.source.as_ref().map(|node| node.status.as_str()),
        Some("active")
    );
    assert_eq!(
        snapshot.observed.exit.as_ref().map(|node| node.status.as_str()),
        Some("prepared")
    );
}

#[test]
fn store_keeps_observed_state_per_policy_role_when_machine_has_multiple_roles() {
    let node_a = new_id();
    let node_b = new_id();
    let policy_a_to_b = base_policy(node_a, node_b);
    let policy_b_to_a = base_policy(node_b, node_a);
    let mut store = PolicyStore::default();
    store.upsert_policy(1, policy_a_to_b.clone()).unwrap();
    store.upsert_policy(1, policy_b_to_a.clone()).unwrap();

    store.update_report(
        1,
        policy_report(
            node_a,
            Some("10.77.77.2"),
            "2026-05-16T10:00:01+00:00",
            &policy_a_to_b,
            DevicePolicyRole::ClientGatewayViaPeer,
            "active",
        ),
    );
    store.update_report(
        1,
        policy_report(
            node_a,
            Some("10.77.77.2"),
            "2026-05-16T10:00:02+00:00",
            &policy_b_to_a,
            DevicePolicyRole::ProvideExitForGateway,
            "prepared",
        ),
    );
    store.update_report(
        1,
        policy_report(
            node_b,
            Some("10.77.77.3"),
            "2026-05-16T10:00:03+00:00",
            &policy_a_to_b,
            DevicePolicyRole::ProvideExitForGateway,
            "prepared",
        ),
    );

    let snapshot = store.policy_snapshot(1, policy_a_to_b.policy_id).unwrap();

    assert_eq!(
        snapshot.observed.source.as_ref().and_then(|node| node.policy_id),
        Some(policy_a_to_b.policy_id)
    );
    assert_eq!(
        snapshot.observed.source.as_ref().and_then(|node| node.version),
        Some(policy_a_to_b.desired_version)
    );
    assert_eq!(
        snapshot.observed.source.as_ref().map(|node| node.status.as_str()),
        Some("active")
    );
}

#[test]
fn snapshots_list_each_policy_of_the_user() {
    let mut store = PolicyStore::default();
    let first = base_policy(new_id(), new_id());
    let second = base_policy(new_id(), new_id());
    store.upsert_policy(1, first.clone()).unwrap();
    store.upsert_policy(1, second.clone()).unwrap();
    store.upsert_policy(2, base_policy(new_id(), new_id())).unwrap();
    let snapshots = store.list_policy_snapshots(1);
    assert_eq!(snapshots.len(), 2);
    assert!(snapshots.iter().any(|s| s.desired == first));
    assert!(snapshots.iter().any(|s| s.desired == second));
    assert!(snapshots.iter().all(|s| s.observed.source.is_none() && s.observed.exit.is_none()));
}
