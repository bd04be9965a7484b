use easytier_gateway::credential::{start_rotation, CredentialStatusResponse, RotationStart};
use easytier_gateway::credential::MachineCredentialFile;
use easytier_gateway::policy::{
    default_easytier_iface, default_true, DevicePolicy, DevicePolicyRole, ExitEgress, PolicyError,
};
use easytier_gateway::runner::{
    apply_commands_for_policy, report_target_from_flags, PlatformKind, RunnerError,
};

fn source_policy() -> DevicePolicy {
    DevicePolicy {
        policy_id: "p1".to_string(),
        device_policy_id: "p1/source".to_string(),
        enabled: default_true(),
        version: 1,
        role: DevicePolicyRole::ClientGatewayViaPeer,
        network_instance_id: 0,
        source_machine_id: "node-a".to_string(),
        managed_cidrs: vec!["192.168.10.0/24".to_string()],
        ingress_ifaces: vec!["br-lan".to_string()],
        include_device_traffic: true,
        exit_machine_id: "node-b".to_string(),
        exit_peer_ipv4: Some("10.126.126.3".to_string()),
        source_peer_ipv4: None,
        easytier_iface: default_easytier_iface(),
        exit_egress: ExitEgress::default(),
        protect_control_plane: true,
        rollback_enabled: true,
    }
}

fn exit_policy() -> DevicePolicy {
    DevicePolicy {
        policy_id: "p1".to_string(),
        device_policy_id: "p1/exit".to_string(),
        enabled: default_true(),
        version: 1,
        role: DevicePolicyRole::ProvideExitForGateway,
        network_instance_id: 0,
        source_machine_id: "node-a".to_string(),
        managed_cidrs: vec!["192.168.10.0/24".to_string()],
        ingress_ifaces: Vec::new(),
        include_device_traffic: false,
        exit_machine_id: "node-b".to_string(),
        exit_peer_ipv4: None,
        source_peer_ipv4: Some("10.126.126.2".to_string()),
        easytier_iface: default_easytier_iface(),
        exit_egress: ExitEgress::default(),
        protect_control_plane: true,
        rollback_enabled: true,
    }
}

#[test]
fn parses_source_device_policy() {
    let policy = source_policy();
    assert_eq!(policy.role, DevicePolicyRole::ClientGatewayViaPeer);
    assert_eq!(policy.managed_cidrs, vec!["192.168.10.0/24"]);
    policy.validate().unwrap();
    assert_eq!(policy.easytier_iface, "easytier0");
}

#[test]
fn rejects_source_equals_exit() {
    let mut policy = source_policy();
    policy.exit_machine_id = policy.source_machine_id.clone();
    assert_eq!(policy.validate(), Err(PolicyError::SourceEqualsExit));
}

#[test]
fn mod_rejects_policy_without_managed_traffic() {
    let mut policy = source_policy();
    policy.managed_cidrs.clear();
    policy.include_device_traffic = false;
    assert_eq!(policy.validate(), Err(PolicyError::NoManagedTraffic));
}

#[test]
fn accepts_exit_policy_for_source_device_traffic_only() {
    let mut policy = source_policy();
    policy.role = DevicePolicyRole::ProvideExitForGateway;
    policy.device_policy_id = "p1/exit".to_string();
    policy.managed_cidrs.clear();
    policy.include_device_traffic = true;
    policy.exit_peer_ipv4 = None;
    policy.source_peer_ipv4 = Some("10.126.126.2".to_string());

    policy.validate().unwrap();
}

#[test]
fn rejects_source_policy_without_exit_peer() {
    let mut policy = source_policy();
    policy.exit_peer_ipv4 = None;
    assert_eq!(
        policy.validate(),
        Err(PolicyError::MissingField("exit_peer_ipv4"))
    );
}

#[test]
fn rejects_blank_managed_cidr() {
    let mut policy = source_policy();
    policy.managed_cidrs = vec!["192.168.10.0/24".to_string(), "  ".to_string()];
    assert_eq!(
        policy.validate(),
        Err(PolicyError::InvalidManagedCidr("  ".to_string()))
    );
}

#[test]
fn report_target_requires_all_web_report_flags() {
    let err = report_target_from_flags(
        Some("http://127.0.0.1:11211".to_string()),
        None,
        Some("secret".to_string()),
        None,
        "00000000-0000-0000-0000-000000000001".to_string(),
    )
    .unwrap_err();

    assert!(err.message().contains("all web report flags"));
}

#[test]
fn report_target_prefers_credential_api_base_url() {
    let credential = MachineCredentialFile {
        machine_id: "00000000-0000-0000-0000-000000000001".to_string(),
        credential_version: 1,
        current_token: "machine-token".to_string(),
        next_token: None,
        next_token_status: None,
        api_base_url: Some("http://10.126.126.1:11212".to_string()),
        updated_at: "2026-05-20T10:00:00Z".to_string(),
    };

    let target = report_target_from_flags(
        Some("http://137.220.194.19:11212".to_string()),
        Some(2),
        None,
        Some(credential),
        "00000000-0000-0000-0000-000000000001".to_string(),
    )
    .unwrap()
    .unwrap();

    assert_eq!(target.web_base_url, "http://10.126.126.1:11212");
}

#[test]
fn report_target_refuses_credential_of_another_machine() {
    let credential = MachineCredentialFile {
        machine_id: "00000000-0000-0000-0000-000000000002".to_string(),
        credential_version: 1,
        current_token: "machine-token".to_string(),
        next_token: None,
        next_token_status: None,
        api_base_url: None,
        updated_at: "0".to_string(),
    };
    let err = report_target_from_flags(
        Some("http://127.0.0.1:11211".to_string()),
        Some(1),
        None,
        Some(credential),
        "00000000-0000-0000-0000-000000000001".to_string(),
    )
    .unwrap_err();
    assert_eq!(err, RunnerError::CredentialMachineMismatch);
}

#[test]
fn report_target_is_absent_without_web_flags() {
    let target = report_target_from_flags(None, None, None, None, "m".to_string()).unwrap();
    assert!(target.is_none());
}

#[test]
fn apply_plan_protects_web_control_plane_before_gateway_rules() {
    let policy = source_policy();

    let commands = apply_commands_for_policy(
        &policy,
        Some("http://192.168.64.4:11211".to_string()),
        PlatformKind::Linux,
    )
    .unwrap();

    assert_eq!(commands[0].program, "sh");
    assert!(commands[0].args.join(" ").contains("host='192.168.64.4'"));
    assert!(commands[0]
        .args
        .join(" ")
        .contains("ip route get \"$host\""));
    assert!(commands[0]
        .args
        .join(" ")
        .contains("ip route replace \"$host/32\""));
    assert!(commands.iter().skip(1).any(|command| {
        command.program == "ip"
            && command
                .args
                .starts_with(&["route".to_string(), "replace".to_string()])
    }));
}

#[test]
fn openwrt_apply_plan_uses_fw4_backend() {
    let policy = exit_policy();

    let commands = apply_commands_for_policy(&policy, None, PlatformKind::OpenWrt).unwrap();

    assert!(commands
        .iter()
        .any(|cmd| cmd.program == "fw4" && cmd.args == ["reload"]));
    assert!(!commands.iter().any(|cmd| cmd.program == "nft"));
}

#[test]
fn rotation_starts_only_when_the_web_service_requires_it() {
    let credential = MachineCredentialFile {
        machine_id: "00000000-0000-0000-0000-000000000001".to_string(),
        credential_version: 2,
        current_token: "machine-token".to_string(),
        next_token: None,
        next_token_status: None,
        api_base_url: None,
        updated_at: "0".to_string(),
    };
    let status = |rotate_required| CredentialStatusResponse {
        status: "rotating".to_string(),
        credential_version: 2,
        rotate_required,
        grace_until: None,
    };
    assert_eq!(
        start_rotation(credential.clone(), &status(false)),
        RotationStart::Keep(credential.clone())
    );
    assert_eq!(
        start_rotation(credential.clone(), &status(true)),
        RotationStart::Rotate(credential)
    );
}
