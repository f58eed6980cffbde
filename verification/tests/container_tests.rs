use nxfutil::container::{
    AppAzMgmtContainerInstance, DeploymentAction, DeploymentEvent, DeploymentMonitor, OsType, ProvisioningState,
    RestartPolicy,
};
use nxfutil::settings::{AppSecrets, AppVariables};

const ALL: [ProvisioningState; 6] = [
    ProvisioningState::Succeeded,
    ProvisioningState::Failed,
    ProvisioningState::Canceled,
    ProvisioningState::InProgress,
    ProvisioningState::Deleting,
    ProvisioningState::WhatIf,
];

#[test]
fn provisioning_state_names_round_trip() {
    for p in ALL {
        assert_eq!(ProvisioningState::from_str(&p.to_string()), Some(p));
    }
    assert_eq!(ProvisioningState::WhatIf.to_string(), "WhatIf");
    assert_eq!(ProvisioningState::from_str("succeeded"), None);
    assert_eq!(ProvisioningState::from_str("Pending"), None);
}

#[test]
fn what_if_finishes_without_submitting() {
    let (m, a) = DeploymentMonitor::start("ci".to_string(), true);
    assert_eq!(a, DeploymentAction::Finish);
    assert!(m.finished);
    assert_eq!(m.outcome(), ("ci".to_string(), "WhatIf".to_string()));
}

#[test]
fn deployment_polls_until_end_state() {
    let (m, a) = DeploymentMonitor::start("ci".to_string(), false);
    assert_eq!(a, DeploymentAction::Submit);
    let (m, a) = m.step(DeploymentEvent::Reported("Pending".to_string()));
    assert_eq!(a, DeploymentAction::Poll(15));
    let (m, a) = m.step(DeploymentEvent::Reported("InProgress".to_string()));
    assert_eq!(a, DeploymentAction::Poll(15));
    let (m, a) = m.step(DeploymentEvent::Reported("Succeeded".to_string()));
    assert_eq!(a, DeploymentAction::Finish);
    assert_eq!(m.outcome(), ("ci".to_string(), "Succeeded".to_string()));
}

#[test]
fn failed_call_ends_as_failed() {
    let (m, _) = DeploymentMonitor::start("ci".to_string(), false);
    let (m, a) = m.step(DeploymentEvent::CallFailed);
    assert_eq!(a, DeploymentAction::Finish);
    assert_eq!(m.result, "Failed");
}

#[test]
fn canceled_ends_deployment() {
    let (m, _) = DeploymentMonitor::start("ci".to_string(), false);
    let (m, a) = m.step(DeploymentEvent::Reported("Canceled".to_string()));
    assert_eq!(a, DeploymentAction::Finish);
    assert!(m.finished);
}

#[test]
fn ci_name_joins_parts() {
    assert_eq!(
        AppAzMgmtContainerInstance::ci_name("20240131", "67e55044-10b1-426f-9247-bb680e5fe0c8"),
        "nextflow-20240131-67e55044-10b1-426f-9247-bb680e5fe0c8"
    );
}

fn valid_name(s: &str) -> bool {
    let b = s.as_bytes();
    !b.is_empty()
        && b.len() <= 63
        && b.iter().all(|c| c.is_ascii_lowercase() || c.is_ascii_digit() || *c == b'-')
        && b[0] != b'-'
        && b[b.len() - 1] != b'-'
        && !s.contains("--")
}

#[test]
fn unique_ci_name_is_valid_and_dated() {
    let a = AppAzMgmtContainerInstance::unique_ci_name(0).unwrap();
    assert!(a.starts_with("nextflow-19700101-"));
    assert_eq!(a.len(), 54);
    assert!(valid_name(&a));
    let b = AppAzMgmtContainerInstance::unique_ci_name(1706659200).unwrap();
    assert!(b.starts_with("nextflow-20240131-"));
    assert!(valid_name(&b));
    assert_ne!(a[18..], b[18..]);
}

#[test]
fn unique_ci_name_holds_a_version_4_uuid() {
    let n = AppAzMgmtContainerInstance::unique_ci_name(1706659200).unwrap();
    let u: Vec<char> = n[18..].chars().collect();
    assert_eq!(u.len(), 36);
    assert_eq!(u[14], '4');
    assert!(matches!(u[19], '8' | '9' | 'a' | 'b'));
}

#[test]
fn unique_ci_name_last_four_digit_year() {
    let n = AppAzMgmtContainerInstance::unique_ci_name(253402300799).unwrap();
    assert!(n.starts_with("nextflow-99991231-"));
    assert!(valid_name(&n));
}

#[test]
fn unique_ci_name_rejects_out_of_range_time() {
    assert!(AppAzMgmtContainerInstance::unique_ci_name(i64::MAX).is_none());
}

#[test]
fn identity_json_names_identity() {
    let mut v = AppVariables::new();
    v.sub_id = "sub".to_string();
    v.rg_name = "rg".to_string();
    v.msi_name = "msi".to_string();
    assert_eq!(
        AppAzMgmtContainerInstance::user_assigned_identities_json(&v),
        "{\"/subscriptions/sub/resourcegroups/rg/providers/Microsoft.ManagedIdentity/userAssignedIdentities/msi\":{}}"
    );
}

#[test]
fn container_definition_runs_command() {
    let mut v = AppVariables::new();
    v.cr_name = "reg".to_string();
    v.msi_client_id = "cid".to_string();
    v.kv_name = "kv".to_string();
    v.fn_name = "fa".to_string();
    let mut s = AppSecrets::new();
    s.cr_server = "reg.azurecr.io".to_string();
    s.cr_username = "user".to_string();
    s.cr_password = "pw".to_string();
    let d = AppAzMgmtContainerInstance::container_definition(&v, &s, "nextflow-1", "nxfutil -d", "westeurope");
    assert_eq!(d.image, "reg.azurecr.io/default/nextflow:latest");
    assert_eq!(d.command, vec!["/bin/bash".to_string(), "-c".to_string(), "cd /.nextflow && ./nxfutil -d".to_string()]);
    let env: Vec<(String, String)> = d.environment_variables.iter().map(|e| (e.name.clone(), e.value.clone())).collect();
    assert_eq!(
        env,
        vec![
            ("AZURE_CLIENT_ID".to_string(), "cid".to_string()),
            ("AZURE_KEYVAULT_NAME".to_string(), "kv".to_string()),
            ("AZURE_FUNCAPP_NAME".to_string(), "fa".to_string()),
            ("NXFUTIL_DISPATCHER".to_string(), "nextflow-1".to_string()),
        ]
    );
    assert_eq!((d.registry_server.as_str(), d.registry_username.as_str()), ("reg.azurecr.io", "user"));
    assert_eq!(d.location, "westeurope");
    assert_eq!(d.restart_policy, RestartPolicy::Never);
    assert_eq!(d.os_type, OsType::Linux);
    assert_eq!((d.cpu_cores, d.memory_gb), (1, 1));
}

#[test]
fn what_if_state_reported_keeps_polling() {
    let (m, _) = DeploymentMonitor::start("ci".to_string(), false);
    let (m, a) = m.step(DeploymentEvent::Reported("WhatIf".to_string()));
    assert_eq!(a, DeploymentAction::Poll(15));
    assert!(!m.finished);
}
