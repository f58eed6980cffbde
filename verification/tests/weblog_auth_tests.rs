use nxfutil::auth::{extract_roles, roles_from_payload, AuthorizationHeader, RolesStep};
use nxfutil::weblog::{decimal_string, Weblog};

#[test]
fn started_message_names_dispatcher() {
    let m = Weblog::started_message("disp", "t");
    assert_eq!((m.event.as_str(), m.runId.as_str(), m.runName.as_str(), m.utcTime.as_str()), ("started", "disp", "disp", "t"));
    assert_eq!(m.metadata.parameters.dispatcher, "disp");
    assert!(m.metadata.workflow.errorMessage.is_none());
    assert_eq!(Weblog::completed_message("d", "t").event, "completed");
}

#[test]
fn error_message_is_completed_with_output() {
    let m = Weblog::error_message("d", "t", "msg", "out", "err");
    assert_eq!(m.event, "completed");
    assert_eq!(m.metadata.workflow.errorMessage.as_deref(), Some("msg\nout\nerr"));
}

#[test]
fn exit_code_message_writes_code() {
    assert_eq!(Weblog::exit_code_message(1), "Nextflow process did not run cleanly. ExitCode: 1");
    assert_eq!(Weblog::exit_code_message(-127), "Nextflow process did not run cleanly. ExitCode: -127");
}

#[test]
fn decimal_string_matches_to_string() {
    for n in [0, 7, 10, 255, -1, i32::MAX, i32::MIN] {
        assert_eq!(decimal_string(n), n.to_string());
    }
}

#[test]
fn utc_time_is_rfc3339() {
    assert_eq!(Weblog::utc_time(0, 0).as_deref(), Some("1970-01-01T00:00:00+00:00"));
    assert_eq!(Weblog::utc_time(1706659200, 500_000_000).as_deref(), Some("2024-01-31T00:00:00.500+00:00"));
    assert!(Weblog::utc_time(i64::MAX, 0).is_none());
}

fn roles(step: RolesStep) -> Vec<String> {
    match step {
        RolesStep::Roles(r) => r,
        RolesStep::ParsePayload(_) => panic!("payload not expected"),
    }
}

#[test]
fn missing_header_is_admin() {
    assert_eq!(roles(extract_roles(&AuthorizationHeader::Missing)), vec!["admin".to_string()]);
    assert!(roles(extract_roles(&AuthorizationHeader::Unreadable)).is_empty());
}

#[test]
fn header_without_space_or_dot_grants_nothing() {
    assert!(roles(extract_roles(&AuthorizationHeader::Value("Bearer".to_string()))).is_empty());
    assert!(roles(extract_roles(&AuthorizationHeader::Value("Bearer token".to_string()))).is_empty());
}

#[test]
fn bearer_payload_is_decoded() {
    // {"roles":["admin"]} in unpadded URL-safe Base64.
    let h = AuthorizationHeader::Value("Bearer eyJhbGciOiJub25lIn0.eyJyb2xlcyI6WyJhZG1pbiJdfQ.sig".to_string());
    assert!(h.is_splittable());
    match extract_roles(&h) {
        RolesStep::ParsePayload(t) => assert_eq!(t, r#"{"roles":["admin"]}"#),
        RolesStep::Roles(_) => panic!("payload expected"),
    }
}

#[test]
fn bad_base64_grants_nothing() {
    let h = AuthorizationHeader::Value("Bearer a.!!!.c".to_string());
    assert!(roles(extract_roles(&h)).is_empty());
}

#[test]
fn token_without_dot_is_not_splittable() {
    assert!(!AuthorizationHeader::Value("Bear.er token".to_string()).is_splittable());
}

#[test]
fn roles_from_payload_defaults_to_none() {
    assert_eq!(roles_from_payload(Some(Some(vec!["a".to_string()]))), vec!["a".to_string()]);
    assert!(roles_from_payload(Some(None)).is_empty());
    assert!(roles_from_payload(None).is_empty());
}
