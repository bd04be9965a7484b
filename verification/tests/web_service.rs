use easytier_gateway::gateway::GatewayRole;
use easytier_gateway::location::{
    client_location, is_local_address, CityRecord, IpValue, PlaceNames,
};
use easytier_gateway::node_views::{
    disabled_policy, machine_snapshot, quick_apply_identity, select_or_prepare_network,
    GatewayNodeAgentView, GatewayNodeView, ManagedCidrsMode, QuickApplyGatewayPolicyRequest,
};
use easytier_gateway::pair::{
    first_pair_step, next_pair_step, pair_exit_policy, pair_removal, pair_source_policy,
    undo_after_failure, GatewayPolicyPairRequest, PairStep, PairUndo,
};
use easytier_gateway::policy::{DevicePolicyRole, ExitEgress};
use easytier_gateway::policy_store::PolicyStore;
use easytier_gateway::text::parse_i64;
use easytier_gateway::web_credential::{
    credential_access, enroll_agent, find_valid_bootstrap_token, EnrollDecision, HttpRefusal, hash_token, route_access, machine_auth_outcome,
    read_machine_auth_headers, BootstrapToken, RouteAccess, MachineAuthHeaders, MachineCredential,
    RotationError, RotationStatus, TokenMatch,
};
use easytier_gateway::web_policy::{
    find_gateway_default_network_config, gateway_default_network_config, gateway_default_peer_urls, gateway_network_template,
    load_gateway_default_network_template, NetworkConfigFields, StoredConfigError,
    StoredNetworkConfig, native_settings_need_sync, GatewayFullTunnelPolicy, HealthcheckConfig, NativeNetworkSettings,
    PolicyError, RollbackConfig, RuntimeReport,
};
use uuid::Uuid;

fn policy(id: u128, source: u128, exit: u128, enabled: bool, version: u64) -> GatewayFullTunnelPolicy {
    GatewayFullTunnelPolicy {
        policy_id: id,
        enabled,
        network_instance_id: 77,
        source_machine_id: source,
        managed_cidrs: vec!["192.168.10.0/24".to_string()],
        ingress_ifaces: vec!["br-lan".to_string()],
        include_device_traffic: false,
        exit_machine_id: exit,
        exit_egress: ExitEgress::default(),
        desired_version: version,
        protect_control_plane: true,
        healthcheck: HealthcheckConfig::default(),
        rollback: RollbackConfig::default(),
    }
}

fn pair_request() -> GatewayPolicyPairRequest {
    GatewayPolicyPairRequest {
        policy_id: "utm-gw-001".to_string(),
        source_machine_id: Uuid::parse_str("aaaaaaaa-aaaa-aaaa-aaaa-aaaaaaaaaaaa").unwrap().as_u128(),
        exit_machine_id: Uuid::parse_str("bbbbbbbb-bbbb-bbbb-bbbb-bbbbbbbbbbbb").unwrap().as_u128(),
        managed_cidrs: vec!["192.168.128.0/24".to_string()],
        ingress_iface: "br-lan".to_string(),
        exit_peer_tun_ip: "10.126.126.3".to_string(),
        exit_wan_iface: "eth0".to_string(),
        easytier_iface: "tun0".to_string(),
    }
}

#[test]
fn pair_request_builds_exit_and_source_policies() {
    let req = pair_request();
    let exit = pair_exit_policy(&req);
    let source = pair_source_policy(&req);

    assert_eq!(exit.role, GatewayRole::Exit.code());
    assert!(exit.enabled);
    assert_eq!(exit.source_machine_id, "aaaaaaaa-aaaa-aaaa-aaaa-aaaaaaaaaaaa");
    assert_eq!(exit.exit_machine_id, "bbbbbbbb-bbbb-bbbb-bbbb-bbbbbbbbbbbb");
    assert_eq!(exit.exit_wan_iface, "eth0");
    assert_eq!(exit.ingress_iface, "");
    assert_eq!(exit.exit_peer_tun_ip, "");
    assert_eq!(source.role, GatewayRole::Source.code());
    assert_eq!(source.ingress_iface, "br-lan");
    assert_eq!(source.exit_peer_tun_ip, "10.126.126.3");
    assert_eq!(source.exit_wan_iface, "");
    assert_eq!(source.managed_cidrs, vec!["192.168.128.0/24".to_string()]);
    assert_eq!(source.easytier_iface, "tun0");
}

#[test]
fn pair_steps_run_exit_before_source_and_undo_in_reverse() {
    let first = first_pair_step();
    assert_eq!(first, PairStep::PatchSourceNetwork);
    assert_eq!(next_pair_step(first), Some(PairStep::ApplyExit));
    assert_eq!(next_pair_step(PairStep::ApplyExit), Some(PairStep::ApplySource));
    assert_eq!(next_pair_step(PairStep::ApplySource), None);

    assert!(undo_after_failure(PairStep::PatchSourceNetwork).is_empty());
    assert_eq!(
        undo_after_failure(PairStep::ApplyExit),
        vec![PairUndo::UnpatchSourceNetwork]
    );
    assert_eq!(
        undo_after_failure(PairStep::ApplySource),
        vec![PairUndo::RemoveExitPolicy, PairUndo::UnpatchSourceNetwork]
    );
    assert_eq!(
        pair_removal(),
        vec![
            PairUndo::RemoveSourcePolicy,
            PairUndo::RemoveExitPolicy,
            PairUndo::UnpatchSourceNetwork
        ]
    );
}

#[test]
fn local_addresses_get_no_lookup() {
    let v4 = |a: u8, b: u8, c: u8, d: u8| IpValue::V4(u32::from_be_bytes([a, b, c, d]));
    assert!(is_local_address(v4(10, 1, 2, 3)));
    assert!(is_local_address(v4(172, 16, 0, 1)));
    assert!(is_local_address(v4(172, 31, 255, 255)));
    assert!(!is_local_address(v4(172, 32, 0, 1)));
    assert!(is_local_address(v4(192, 168, 1, 1)));
    assert!(is_local_address(v4(127, 0, 0, 1)));
    assert!(is_local_address(v4(0, 0, 0, 0)));
    assert!(!is_local_address(v4(8, 8, 8, 8)));
    assert!(is_local_address(IpValue::V6(1)));
    assert!(is_local_address(IpValue::V6(0)));
    assert!(!is_local_address(IpValue::V6(2)));

    let local = client_location(v4(192, 168, 1, 1), &None);
    assert_eq!(local.country, "本地网络");
    assert_eq!(local.city, None);
}

#[test]
fn looked_up_location_prefers_chinese_names() {
    let names = |zh: Option<&str>, en: Option<&str>| PlaceNames {
        zh_cn: zh.map(str::to_string),
        en: en.map(str::to_string),
    };
    let record = CityRecord {
        country: Some(names(Some("日本"), Some("Japan"))),
        city: Some(names(None, Some("Tokyo"))),
        subdivisions: Some(vec![
            Some(names(Some("东京都"), None)),
            None,
            Some(names(None, Some("Kanto"))),
            Some(names(None, None)),
        ]),
    };
    let public = IpValue::V4(u32::from_be_bytes([203, 0, 113, 5]));
    let location = client_location(public, &Some(record));
    assert_eq!(location.country, "日本");
    assert_eq!(location.city.as_deref(), Some("Tokyo"));
    assert_eq!(location.region.as_deref(), Some("东京都,Kanto"));

    let unknown = client_location(public, &None);
    assert_eq!(unknown.country, "海外");
    assert_eq!(unknown.region, None);

    let no_country = client_location(
        public,
        &Some(CityRecord {
            country: None,
            city: None,
            subdivisions: None,
        }),
    );
    assert_eq!(no_country.country, "海外");
}

#[test]
fn machine_request_headers_are_read_in_order() {
    let id = Uuid::new_v4();
    let ok = read_machine_auth_headers(
        Some(&id.to_string()),
        Some("7"),
        Some("3"),
        Some("Bearer tok"),
    )
    .unwrap();
    assert_eq!(
        ok,
        MachineAuthHeaders {
            machine_id: id.as_u128(),
            user_id: 7,
            credential_version: 3,
            token: "tok".to_string()
        }
    );
    let missing_machine = read_machine_auth_headers(Some("x"), Some("7"), Some("3"), Some("Bearer tok"));
    assert_eq!(missing_machine.unwrap_err().message, "missing X-Machine-Id");
    let missing_user = read_machine_auth_headers(Some(&id.to_string()), None, Some("3"), Some("Bearer tok"));
    assert_eq!(missing_user.unwrap_err().message, "missing X-User-Id");
    let missing_version =
        read_machine_auth_headers(Some(&id.to_string()), Some("7"), Some("v3"), Some("Bearer tok"));
    assert_eq!(missing_version.unwrap_err().message, "missing X-Credential-Version");
    let missing_token = read_machine_auth_headers(Some(&id.to_string()), Some("7"), Some("3"), None);
    assert_eq!(missing_token.unwrap_err().status, 401);
}

#[test]
fn machine_auth_outcome_refuses_missing_or_wrong_credentials() {
    let headers = MachineAuthHeaders {
        machine_id: 5,
        user_id: 7,
        credential_version: 2,
        token: "current-token".to_string(),
    };
    assert_eq!(
        machine_auth_outcome(None, &headers, 0).unwrap_err().message,
        "credential not found"
    );
    let credential = MachineCredential::active(7, 5, 2, hash_token("current-token"));
    assert_eq!(
        machine_auth_outcome(Some(&credential), &headers, 0),
        Ok(TokenMatch::Current)
    );
    let other = MachineCredential::active(7, 6, 2, hash_token("current-token"));
    let refused = machine_auth_outcome(Some(&other), &headers, 0).unwrap_err();
    assert_eq!(refused.status, 403);
    assert_eq!(refused.message, "invalid machine token");
}

#[test]
fn route_access_checks_path_token_and_credential() {
    let id = Uuid::new_v4();
    let path = format!("/api/internal/users/7/machines/{id}/gateway-policies");
    assert_eq!(
        route_access(Some("legacy"), Some("legacy"), "/anything", None, None),
        RouteAccess::Pass
    );
    assert_eq!(
        route_access(Some("legacy"), Some("other"), "/api/internal/agent", None, None),
        RouteAccess::Forbidden
    );
    assert_eq!(
        route_access(None, None, &path, None, Some("1")),
        RouteAccess::Unauthorized
    );
    let gate = route_access(None, None, &path, Some("Bearer current-token"), Some("2"));
    let claim = match gate {
        RouteAccess::CheckCredential(claim) => claim,
        other => panic!("expected a credential check, got {other:?}"),
    };
    assert_eq!(claim.user_id, 7);
    assert_eq!(claim.machine_id, id.as_u128());
    let credential = MachineCredential::active(7, id.as_u128(), 2, hash_token("current-token"));
    assert_eq!(credential_access(Some(&credential), &claim, 0), RouteAccess::Pass);
    assert_eq!(credential_access(None, &claim, 0), RouteAccess::Unauthorized);
    let moved = MachineCredential::active(7, 1, 2, hash_token("current-token"));
    assert_eq!(credential_access(Some(&moved), &claim, 0), RouteAccess::Forbidden);
}

#[test]
fn parses_i64_like_std() {
    assert_eq!(parse_i64("42"), Some(42));
    assert_eq!(parse_i64("-9223372036854775808"), Some(i64::MIN));
    assert_eq!(parse_i64("9223372036854775807"), Some(i64::MAX));
    assert_eq!(parse_i64("9223372036854775808"), None);
    assert_eq!(parse_i64("+7"), Some(7));
    assert_eq!(parse_i64(""), None);
    assert_eq!(parse_i64("-"), None);
    assert_eq!(parse_i64("1a"), None);
}

#[test]
fn quick_apply_reuses_the_enabled_policy_of_the_source() {
    let policies = vec![
        policy(1, 10, 20, false, 4),
        policy(2, 10, 30, true, 8),
        policy(3, 11, 30, true, 1),
    ];
    assert_eq!(quick_apply_identity(&policies, 10), Some((2, 9)));
    assert_eq!(quick_apply_identity(&policies, 12), None);
    let at_max = vec![policy(4, 10, 20, true, u64::MAX)];
    assert_eq!(quick_apply_identity(&at_max, 10), Some((4, u64::MAX)));
}

#[test]
fn disabling_a_policy_bumps_its_version() {
    let policies = vec![policy(1, 10, 20, true, 4)];
    let disabled = disabled_policy(&policies, 1).unwrap();
    assert!(!disabled.enabled);
    assert_eq!(disabled.desired_version, 5);
    assert_eq!(disabled.source_machine_id, 10);
    assert_eq!(disabled_policy(&policies, 2), Err(PolicyError::PolicyNotFound));
}

fn node(machine_id: u128, networks: Vec<u128>, online: bool) -> GatewayNodeView {
    GatewayNodeView {
        machine_id,
        hostname: None,
        public_ip: None,
        machine_online: true,
        running_network_instances: networks,
        agent: GatewayNodeAgentView {
            online,
            ..GatewayNodeAgentView::default()
        },
    }
}

#[test]
fn network_selection_prepares_a_network_when_none_is_shared() {
    let request = QuickApplyGatewayPolicyRequest {
        source_machine_id: 1,
        exit_machine_id: 2,
        network_instance_id: None,
        managed_cidrs_mode: ManagedCidrsMode::default(),
        managed_cidrs: vec![],
        include_device_traffic: false,
    };
    let nodes = vec![node(1, vec![5, 3], true), node(2, vec![6], true)];
    assert_eq!(select_or_prepare_network(&request, &nodes), Ok(None));
    let shared = vec![node(1, vec![5, 3], true), node(2, vec![3, 5], true)];
    assert_eq!(select_or_prepare_network(&request, &shared), Ok(Some(3)));
    let stale = vec![node(1, vec![5], true), node(2, vec![5], false)];
    assert_eq!(
        select_or_prepare_network(&request, &stale),
        Err(PolicyError::AgentReportStale(2))
    );
}

#[test]
fn machine_snapshot_drops_blank_hostname() {
    let snapshot = machine_snapshot(9, "  ".to_string(), "udp://1.2.3.4:1".to_string(), vec![1]);
    assert_eq!(snapshot.hostname, None);
    assert_eq!(snapshot.public_ip.as_deref(), Some("udp://1.2.3.4:1"));
    let named = machine_snapshot(9, "r3s".to_string(), "udp://1.2.3.4:1".to_string(), vec![]);
    assert_eq!(named.hostname.as_deref(), Some("r3s"));
}

fn ip_report(machine_id: u128, ip: &str) -> RuntimeReport {
    RuntimeReport {
        machine_id,
        agent_version: "0.1.0".to_string(),
        easytier_ipv4: Some(ip.to_string()),
        ..Default::default()
    }
}

#[test]
fn store_from_records_and_exit_peer_lookup() {
    let p = policy(1, 10, 20, true, 1);
    let store = PolicyStore::from_records(
        3,
        vec![p.clone()],
        vec![ip_report(10, "10.0.0.2"), ip_report(20, "10.0.0.3")],
    )
    .unwrap();
    assert_eq!(store.list_policies(3), vec![p.clone()]);
    assert_eq!(
        store.exit_peer_for_policy(3, &p),
        Ok(Some("10.0.0.3".to_string()))
    );
    let devices = store.device_policies_for_machine(3, 20).unwrap();
    assert_eq!(devices[0].role, DevicePolicyRole::ProvideExitForGateway);

    let early = PolicyStore::from_records(3, vec![p.clone()], vec![]).unwrap();
    assert_eq!(early.exit_peer_for_policy(3, &p), Ok(None));

    let conflicting = PolicyStore::from_records(
        3,
        vec![p.clone(), policy(2, 10, 30, true, 1)],
        vec![],
    );
    assert_eq!(
        conflicting.err(),
        Some(PolicyError::SourceAlreadyHasEnabledPolicy)
    );
}

#[test]
fn native_sync_is_needed_only_until_applied() {
    let p = policy(1, 10, 20, true, 1);
    let source = NativeNetworkSettings {
        proxy_cidrs: vec!["10.10.0.0/24".to_string()],
        exit_nodes: vec![],
        enable_exit_node: None,
        proxy_forward_by_system: None,
    };
    let exit = NativeNetworkSettings {
        proxy_cidrs: vec![],
        exit_nodes: vec![],
        enable_exit_node: None,
        proxy_forward_by_system: None,
    };
    assert!(native_settings_need_sync(&p, &source, &exit, "10.0.0.3"));

    let synced_source = NativeNetworkSettings {
        proxy_cidrs: vec!["10.10.0.0/24".to_string(), "192.168.10.0/24".to_string()],
        exit_nodes: vec!["10.0.0.3".to_string()],
        enable_exit_node: Some(false),
        proxy_forward_by_system: Some(false),
    };
    let synced_exit = NativeNetworkSettings {
        proxy_cidrs: vec![],
        exit_nodes: vec![],
        enable_exit_node: Some(true),
        proxy_forward_by_system: Some(true),
    };
    assert!(!native_settings_need_sync(&p, &synced_source, &synced_exit, "10.0.0.3"));
}

#[test]
fn peer_url_lists_split_on_commas_semicolons_and_spaces() {
    assert_eq!(
        gateway_default_peer_urls(None),
        vec!["udp://137.220.194.19:22020/admin".to_string()]
    );
    assert_eq!(
        gateway_default_peer_urls(Some(" tcp://a:1, udp://b:2;;\nwg://c:3 ")),
        vec![
            "tcp://a:1".to_string(),
            "udp://b:2".to_string(),
            "wg://c:3".to_string()
        ]
    );
    assert!(gateway_default_peer_urls(Some(" ,; ")).is_empty());
}

#[test]
fn network_template_keeps_what_the_existing_network_has() {
    let defaults = vec!["udp://peer:1".to_string()];
    let fresh = gateway_network_template(None, 5, "s".to_string(), defaults.clone());
    assert_eq!(fresh.instance_id, 5);
    assert_eq!(fresh.network_secret, "s");
    assert_eq!(fresh.peer_urls, defaults);

    let kept = gateway_network_template(
        Some((9, Some("old".to_string()), vec!["tcp://x:2".to_string()])),
        5,
        "s".to_string(),
        defaults.clone(),
    );
    assert_eq!(kept.instance_id, 9);
    assert_eq!(kept.network_secret, "old");
    assert_eq!(kept.peer_urls, vec!["tcp://x:2".to_string()]);

    let filled = gateway_network_template(Some((9, Some("  ".to_string()), vec![])), 5, "s".to_string(), defaults.clone());
    assert_eq!(filled.network_secret, "s");
    assert_eq!(filled.peer_urls, defaults);
}

#[test]
fn rotation_hands_the_machine_over_to_its_new_token() {
    let old_hash = hash_token("old-token");
    let new_hash = hash_token("new-token");
    let c = MachineCredential::active(7, 42, 3, old_hash.clone());

    let rotating = c.mark_rotating(1_000);
    assert_eq!(rotating.credential_version, 4);
    assert_eq!(rotating.rotation_status, RotationStatus::Rotating);
    assert_eq!(rotating.grace_until, Some(1_000));
    assert_eq!(rotating.current_token_hash, old_hash);

    let with_next = rotating.with_next_token_hash(new_hash.clone());
    assert_eq!(with_next.next_token_hash, Some(new_hash.clone()));
    assert_eq!(with_next.verify_machine_token("old-token", 500), TokenMatch::Current);
    assert_eq!(with_next.verify_machine_token("new-token", 500), TokenMatch::Next);

    let confirmed = with_next.confirm_rotation().unwrap();
    assert_eq!(confirmed.rotation_status, RotationStatus::Confirmed);
    assert_eq!(confirmed.current_token_hash, new_hash);
    assert_eq!(confirmed.previous_token_hash, Some(old_hash));
    assert_eq!(confirmed.next_token_hash, None);
    assert_eq!(confirmed.verify_machine_token("new-token", 500), TokenMatch::Current);
    assert_eq!(confirmed.verify_machine_token("old-token", 500), TokenMatch::Previous);
    assert_eq!(confirmed.verify_machine_token("old-token", 1_001), TokenMatch::Unmatched);
}

#[test]
fn rotation_cannot_be_confirmed_without_a_next_token() {
    let c = MachineCredential::active(7, 42, 3, hash_token("old-token")).mark_rotating(1_000);
    let err = c.confirm_rotation().unwrap_err();
    assert_eq!(err, RotationError::NoNextToken);
    assert_eq!(err.message(), "agent machine credential has no next token");
}

fn bootstrap(id: i64, token: &str, expires_at: Option<i128>, revoked_at: Option<i128>) -> BootstrapToken {
    BootstrapToken {
        id,
        user_id: 7,
        token_hash: hash_token(token),
        name: format!("token-{id}"),
        expires_at,
        revoked_at,
    }
}

#[test]
fn bootstrap_lookup_skips_revoked_expired_and_other_tokens() {
    let tokens = vec![
        bootstrap(1, "enrol", None, Some(5)),
        bootstrap(2, "enrol", Some(10), None),
        bootstrap(3, "other", None, None),
        bootstrap(4, "enrol", Some(100), None),
        bootstrap(5, "enrol", None, None),
    ];
    assert_eq!(find_valid_bootstrap_token(&tokens, "enrol", 50), Some(3));
    assert_eq!(find_valid_bootstrap_token(&tokens, "enrol", 10), Some(1));
    assert_eq!(find_valid_bootstrap_token(&tokens, "enrol", 200), Some(4));
    assert_eq!(find_valid_bootstrap_token(&tokens, "other", 0), Some(2));
    assert_eq!(find_valid_bootstrap_token(&tokens, "unknown", 0), None);
    assert_eq!(find_valid_bootstrap_token(&[], "enrol", 0), None);
}

#[test]
fn enrolment_is_refused_created_or_answered_from_the_stored_credential() {
    let tokens = vec![bootstrap(1, "expired", Some(10), None), bootstrap(2, "enrol", None, None)];
    let refused = |auth: Option<&str>, user: i32, connected: bool| {
        enroll_agent(auth, &tokens, 50, user, 42, "plain-sha256:abc".to_string(), connected, None)
    };
    assert_eq!(
        refused(None, 7, true),
        EnrollDecision::Refused(HttpRefusal { status: 401, message: "missing bearer token" })
    );
    assert_eq!(
        refused(Some("Bearer expired"), 7, true),
        EnrollDecision::Refused(HttpRefusal { status: 401, message: "invalid bootstrap token" })
    );
    assert_eq!(
        refused(Some("Bearer enrol"), 8, true),
        EnrollDecision::Refused(HttpRefusal { status: 403, message: "bootstrap token does not match user" })
    );
    assert_eq!(
        refused(Some("Bearer enrol"), 7, false),
        EnrollDecision::Refused(HttpRefusal { status: 409, message: "machine_not_connected" })
    );
    assert_eq!(
        refused(Some("Bearer enrol"), 7, true),
        EnrollDecision::Create(MachineCredential::active(7, 42, 1, "plain-sha256:abc".to_string()))
    );
    let existing = MachineCredential::active(7, 42, 5, hash_token("machine"));
    assert_eq!(
        enroll_agent(
            Some("Bearer enrol"),
            &tokens,
            50,
            7,
            42,
            "plain-sha256:abc".to_string(),
            true,
            Some(&existing)
        ),
        EnrollDecision::AlreadyEnrolled(5)
    );
}


fn stored(id: &str, name: Option<&str>, secret: Option<&str>, peers: &[&str]) -> StoredNetworkConfig {
    StoredNetworkConfig {
        instance_id: id.to_string(),
        config: Some(NetworkConfigFields {
            network_name: name.map(|n| n.to_string()),
            network_secret: secret.map(|s| s.to_string()),
            peer_urls: peers.iter().map(|p| p.to_string()).collect(),
        }),
    }
}

#[test]
fn gateway_network_is_found_by_name_in_stored_order() {
    let a = "11111111-1111-1111-1111-111111111111";
    let b = "22222222-2222-2222-2222-222222222222";
    let rows = vec![
        stored(a, Some("home"), None, &[]),
        stored(b, Some("gateway-default"), Some("s"), &[]),
        stored(a, Some("gateway-default"), None, &[]),
    ];
    assert_eq!(
        find_gateway_default_network_config(&rows),
        Ok(Some((0x2222_2222_2222_2222_2222_2222_2222_2222, 1)))
    );
    assert_eq!(find_gateway_default_network_config(&rows[..1]), Ok(None));
    assert_eq!(find_gateway_default_network_config(&[]), Ok(None));

    let unreadable = vec![StoredNetworkConfig { instance_id: a.to_string(), config: None }, rows[1].clone()];
    assert_eq!(
        find_gateway_default_network_config(&unreadable),
        Err(StoredConfigError::UnreadableConfig)
    );
    let bad_id = vec![rows[0].clone(), stored("not-a-uuid", Some("gateway-default"), None, &[])];
    assert_eq!(
        find_gateway_default_network_config(&bad_id),
        Err(StoredConfigError::InvalidInstanceId)
    );
}

#[test]
fn gateway_network_template_prefers_the_source_machines_network() {
    let a = "11111111-1111-1111-1111-111111111111";
    let b = "22222222-2222-2222-2222-222222222222";
    let source = vec![stored(a, Some("gateway-default"), Some("  "), &[])];
    let exit = vec![stored(b, Some("gateway-default"), Some("exit-secret"), &["tcp://peer:1"])];

    let t = load_gateway_default_network_template(&source, &exit, None).unwrap();
    assert_eq!(t.instance_id, 0x1111_1111_1111_1111_1111_1111_1111_1111);
    assert_eq!(t.network_secret.len(), 36);
    assert_ne!(t.network_secret.trim(), "");
    assert_eq!(t.peer_urls, vec!["udp://137.220.194.19:22020/admin".to_string()]);

    let t = load_gateway_default_network_template(&[], &exit, Some("tcp://a:1, tcp://b:2")).unwrap();
    assert_eq!(t.instance_id, 0x2222_2222_2222_2222_2222_2222_2222_2222);
    assert_eq!(t.network_secret, "exit-secret");
    assert_eq!(t.peer_urls, vec!["tcp://peer:1".to_string()]);

    let fresh = load_gateway_default_network_template(&[], &[], Some("tcp://a:1;tcp://b:2")).unwrap();
    assert_eq!(fresh.peer_urls, vec!["tcp://a:1".to_string(), "tcp://b:2".to_string()]);
    assert_eq!(fresh.network_secret.len(), 36);
    let again = load_gateway_default_network_template(&[], &[], None).unwrap();
    assert_ne!(fresh.instance_id, again.instance_id);

    let broken = vec![StoredNetworkConfig { instance_id: b.to_string(), config: None }];
    assert_eq!(
        load_gateway_default_network_template(&source, &broken, None),
        Err(StoredConfigError::UnreadableConfig)
    );
}

#[test]
fn gateway_default_network_config_sets_manual_peer_config() {
    let network_id = Uuid::new_v4();
    let config = gateway_default_network_config(
        network_id.as_u128(),
        "secret-1".to_string(),
        Some("r3s-a".to_string()),
        vec!["udp://137.220.194.19:11010".to_string()],
    );

    assert_eq!(config.instance_id, network_id.to_string());
    assert_eq!(config.network_name, "gateway-default");
    assert_eq!(config.network_secret, "secret-1");
    assert_eq!(config.hostname.as_deref(), Some("r3s-a"));
    assert_eq!(config.peer_urls, vec!["udp://137.220.194.19:11010"]);
    assert!(config.manual_networking);
    assert!(config.dhcp);
    assert!(!config.enable_exit_node);
    assert!(!config.proxy_forward_by_system);
    assert_eq!(config.network_length, 24);
    assert_eq!(
        config.listener_urls,
        vec!["tcp://0.0.0.0:11010", "udp://0.0.0.0:11010", "wg://0.0.0.0:11011"]
    );
}
