use nxfutil::server::{App, AppServer};
use nxfutil::status::{Message, QueueMessage};

fn qm(event: &str, run: &str, em: Option<&str>, er: Option<&str>) -> QueueMessage {
    QueueMessage {
        event: Some(event.to_string()),
        run_key: format!("\"{}\"", run),
        run_id: Some(run.to_string()),
        run_name: Some(format!("name-{}", run)),
        utc_time: Some("2023-01-01T00:00:00+00:00".to_string()),
        dispatcher: Some(run.to_string()),
        has_workflow: true,
        error_message: em.map(|s| s.to_string()),
        error_report: er.map(|s| s.to_string()),
    }
}

fn events(ms: &[Message]) -> Vec<(String, String)> {
    ms.iter().map(|m| (m.runId.clone(), m.event.clone())).collect()
}

#[test]
fn clean_marks_report_as_error() {
    let c = AppServer::clean_nextflow_message(&qm("completed", "r1", None, Some("boom")));
    assert_eq!(c.event.as_deref(), Some("error"));
    assert_eq!(c.error_message.as_deref(), Some("boom"));
    assert_eq!(c.error_report.as_deref(), Some("boom"));
}

#[test]
fn clean_keeps_existing_error_message() {
    let c = AppServer::clean_nextflow_message(&qm("completed", "r1", Some("msg"), Some("report")));
    assert_eq!(c.event.as_deref(), Some("error"));
    assert_eq!(c.error_message.as_deref(), Some("msg"));
}

#[test]
fn clean_leaves_clean_message() {
    let c = AppServer::clean_nextflow_message(&qm("started", "r1", None, None));
    assert_eq!(c.event.as_deref(), Some("started"));
    assert!(c.error_message.is_none());
}

#[test]
fn clean_twice_is_clean_once() {
    let once = AppServer::clean_nextflow_message(&qm("completed", "r1", None, Some("boom")));
    let twice = AppServer::clean_nextflow_message(&once);
    assert_eq!(twice.event, once.event);
    assert_eq!(twice.error_message, once.error_message);
}

#[test]
fn get_status_message_cleans_each() {
    let raws = vec![qm("started", "a", None, None), qm("completed", "a", None, Some("x"))];
    let out = AppServer::get_status_message(&raws);
    assert_eq!(out.len(), 2);
    assert_eq!(out[0].event.as_deref(), Some("started"));
    assert_eq!(out[1].event.as_deref(), Some("error"));
}

#[test]
fn summary_keeps_latest_per_run_in_queue_order() {
    let raws = vec![
        qm("started", "a", None, None),
        qm("started", "b", None, None),
        qm("process_submitted", "a", None, None),
        qm("completed", "a", None, None),
        qm("completed", "b", None, Some("failed")),
    ];
    assert!(AppServer::status_summary_ready(&raws));
    let out = AppServer::get_status_summary(&raws);
    assert_eq!(events(&out), vec![("a".to_string(), "completed".to_string()), ("b".to_string(), "error".to_string())]);
    assert_eq!(out[1].metadata.workflow.errorMessage.as_deref(), Some("failed"));
}

#[test]
fn summary_of_empty_queue_is_empty() {
    assert!(AppServer::get_status_summary(&vec![]).is_empty());
}

#[test]
fn summary_not_ready_when_pick_lacks_member() {
    let mut m = qm("started", "a", None, None);
    m.utc_time = None;
    assert!(!AppServer::status_summary_ready(&vec![m.copy()]));
    // A message the summary does not pick may lack members.
    let mut other = qm("process_started", "b", None, None);
    other.run_name = None;
    assert!(AppServer::status_summary_ready(&vec![other, qm("started", "a", None, None)]));
}

#[test]
fn status_update_is_latest_first_and_fills_error() {
    let raws = vec![
        qm("started", "a", None, None),
        qm("started", "b", None, None),
        qm("completed", "a", None, Some("report")),
    ];
    assert!(App::status_update_ready(&raws));
    let out = App::generate_status_update(&raws);
    assert_eq!(events(&out), vec![("a".to_string(), "completed".to_string()), ("b".to_string(), "started".to_string())]);
    assert_eq!(out[0].metadata.workflow.errorMessage.as_deref(), Some("report"));
}

#[test]
fn status_update_skips_error_events() {
    let raws = vec![qm("error", "a", Some("x"), None)];
    assert!(App::generate_status_update(&raws).is_empty());
}

#[test]
fn only_started_and_completed_are_forwarded() {
    assert!(AppServer::forwards_status_message(&Some("started".to_string())));
    assert!(AppServer::forwards_status_message(&Some("completed".to_string())));
    assert!(!AppServer::forwards_status_message(&Some("error".to_string())));
    assert!(!AppServer::forwards_status_message(&Some("process_completed".to_string())));
    assert!(!AppServer::forwards_status_message(&None));
}

#[test]
fn as_message_needs_every_member() {
    let m = qm("started", "a", None, None).as_message().unwrap();
    assert_eq!(m.runName, "name-a");
    assert_eq!(m.metadata.parameters.dispatcher, "a");
    let mut w = qm("started", "a", None, None);
    w.has_workflow = false;
    assert!(w.as_message().is_none());
}
