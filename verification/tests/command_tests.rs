use nxfutil::command::{DispatchRequestPayload, QueryMap};
use nxfutil::payloads::{
    queue_read_count, DispatchResponsePayload, QueryParameters, StatusRequestPayload, TerminateRequestPayload,
    TerminateResponsePayload,
};
use nxfutil::server::{App, AppServer};
use nxfutil::settings::{AppSecrets, AppVariables};

fn payload(config: &str, pipeline: &str, parameters: &str, json: Option<&str>, auto_delete: bool) -> DispatchRequestPayload {
    DispatchRequestPayload {
        config_uri: config.to_string(),
        pipeline_uri: pipeline.to_string(),
        parameters_uri: parameters.to_string(),
        parameters_json: json.map(|j| j.to_string()),
        auto_delete,
    }
}

fn query(pairs: &[(&str, &str)]) -> QueryMap {
    QueryMap { pairs: pairs.iter().map(|(k, v)| (k.to_string(), v.to_string())).collect() }
}

#[test]
fn server_cmd_with_everything() {
    let p = payload("c.config", "p.nf", "a.json", Some(r#"[{"name":"foo","value":"bar"}]"#), true);
    assert_eq!(
        AppServer::generate_nxfutil_cmd(&p),
        r#"nxfutil -c c.config -p p.nf -a a.json -d -j '[{"name":"foo","value":"bar"}]'"#
    );
}

#[test]
fn server_cmd_with_nothing_is_bare() {
    let p = payload("", "", "", None, false);
    assert_eq!(AppServer::generate_nxfutil_cmd(&p), "nxfutil");
}

#[test]
fn server_cmd_skips_empty_uris() {
    let p = payload("", "p.nf", "", None, false);
    assert_eq!(AppServer::generate_nxfutil_cmd(&p), "nxfutil -p p.nf");
}

#[test]
fn app_cmd_prefers_payload_over_url() {
    let p = payload("body.config", "", "", None, false);
    let q = query(&[("config_uri", "url.config"), ("pipeline_uri", "url.nf")]);
    assert_eq!(App::generate_nxfutil_cmd(&p, &q), "nxfutil -c body.config -p url.nf");
}

#[test]
fn app_cmd_ignores_parameters_json() {
    let p = payload("", "", "a.json", Some("[]"), true);
    assert_eq!(App::generate_nxfutil_cmd(&p, &query(&[])), "nxfutil -a a.json -d");
}

#[test]
fn query_map_get_finds_value() {
    let q = query(&[("a", "1"), ("b", "2")]);
    assert_eq!(q.get("b"), Some("2".to_string()));
    assert_eq!(q.get("c"), None);
}

#[test]
fn query_map_repeated_key_keeps_last_value() {
    let q = query(&[("whatif", "false"), ("a", "1"), ("whatif", "true")]);
    assert_eq!(q.get("whatif"), Some("true".to_string()));
    assert!(App::what_if(&q));
}

#[test]
fn what_if_is_true_in_any_case() {
    assert!(App::what_if(&query(&[("whatif", "TRUE")])));
    assert!(App::what_if(&query(&[("whatif", "true")])));
    assert!(!App::what_if(&query(&[("whatif", "yes")])));
    assert!(!App::what_if(&query(&[])));
}

#[test]
fn query_parameters_what_if_defaults_to_false() {
    assert!(!QueryParameters { whatif: None }.what_if());
    assert!(QueryParameters { whatif: Some(true) }.what_if());
    assert!(!QueryParameters { whatif: Some(false) }.what_if());
}

#[test]
fn help_payloads() {
    let d = DispatchRequestPayload::help();
    assert_eq!(d.config_uri, "String");
    assert_eq!(d.parameters_json.as_deref(), Some(r#"[{"name":"String","value":"Value"}]"#));
    assert!(d.auto_delete);
    assert_eq!(TerminateRequestPayload::help().ci_name, "String");
    let s = StatusRequestPayload::help();
    assert!(s.summary && s.dequeue);
    assert_eq!(s.message_count, 1);
}

#[test]
fn response_payloads_carry_deployment() {
    let mut v = AppVariables::new();
    v.sub_id = "sub".to_string();
    v.rg_name = "rg".to_string();
    let d = DispatchResponsePayload::new(&v, ("ci".to_string(), "Succeeded".to_string()), "nxfutil".to_string());
    assert_eq!((d.sub_id.as_str(), d.rg_name.as_str(), d.ci_name.as_str()), ("sub", "rg", "ci"));
    assert_eq!((d.ci_cmd.as_str(), d.provisioning_state.as_str()), ("nxfutil", "Succeeded"));
    let t = TerminateResponsePayload::new(&v, ("ci".to_string(), "WhatIf".to_string()));
    assert_eq!(t.provisioning_state, "WhatIf");
}

#[test]
fn settings_start_empty() {
    let v = AppVariables::new();
    assert_eq!(v.q_name, "nextflow");
    assert_eq!(v.sub_id, "");
    let s = AppSecrets::new();
    assert_eq!(s.cr_password, "");
}

#[test]
fn queue_read_count_skips_zero() {
    assert_eq!(queue_read_count(0), None);
    assert_eq!(queue_read_count(3), Some(3));
}
