use nxfutil::nxfutil::{
    default_config_uri, nextflow_config_args, nextflow_param_strings, nextflow_run_args, resolve_params, Cli,
    NextflowParam, NxfutilRun, ParamValue, RunAction, RunEvent, RunPhase,
};
use nxfutil::server::AppServer;

fn cli(auto_delete: bool) -> Cli {
    Cli {
        config_uri: "c".to_string(),
        pipeline_uri: "p".to_string(),
        parameters_uri: "a".to_string(),
        parameters_json: None,
        auto_delete,
    }
}

fn s(v: &[&str]) -> Vec<String> {
    v.iter().map(|x| x.to_string()).collect()
}

#[test]
fn param_strings_flatten_params_then_nxfutil_args() {
    let params = vec![
        NextflowParam { name: "foo".to_string(), value: ParamValue::Text("bar".to_string()) },
        NextflowParam { name: "n".to_string(), value: ParamValue::Json("3".to_string()) },
    ];
    assert_eq!(
        nextflow_param_strings(&params, &cli(true)),
        s(&[
            "--foo", "bar", "--n", "3", "--nxfutil_config_uri", "c", "--nxfutil_pipeline_uri", "p",
            "--nxfutil_parameters_uri", "a", "--nxfutil_auto_delete", "true",
        ])
    );
}

#[test]
fn param_strings_without_params() {
    assert_eq!(nextflow_param_strings(&vec![], &cli(false))[7], "false");
}

#[test]
fn run_args_start_with_pipeline() {
    let args = nextflow_run_args("disp", &s(&["--x", "1"]));
    assert_eq!(
        args,
        s(&[
            "run", "pipeline.nf", "-params-file", "parameters.json", "-w", "az://batch/work", "-with-weblog",
            "http://localhost:3000/api/nxfutild", "--dispatcher", "disp", "--x", "1",
        ])
    );
    assert_eq!(nextflow_config_args(), s(&["config"]));
}

#[test]
fn secrets_commands_are_redacted() {
    assert!(AppServer::redacts_args(&s(&["secrets", "set", "k", "v"])));
    assert!(AppServer::redacts_args(&s(&["SeCrEtS"])));
    assert!(!AppServer::redacts_args(&s(&["config"])));
}

#[test]
fn resolve_params_cases() {
    let p = || NextflowParam { name: "x".to_string(), value: ParamValue::Text("y".to_string()) };
    assert_eq!(resolve_params(false, None, None).unwrap().len(), 0);
    assert_eq!(resolve_params(true, Some(vec![p(), p()]), None).unwrap().len(), 2);
    assert_eq!(resolve_params(true, None, Some(p())).unwrap().len(), 1);
    assert!(resolve_params(true, None, None).is_none());
}

#[test]
fn default_uris() {
    assert!(default_config_uri().ends_with("/nextflow/pipelines/nextflow.config"));
}

fn drive(auto_delete: bool, events: &[RunEvent]) -> (NxfutilRun, Vec<RunAction>) {
    let (mut run, first) = NxfutilRun::new(auto_delete);
    let mut actions = vec![first];
    for e in events {
        let (next, a) = run.step(*e);
        run = next;
        actions.push(a);
    }
    (run, actions)
}

#[test]
fn clean_run_with_auto_delete() {
    let (run, actions) = drive(true, &[
        RunEvent::DaemonStarted,
        RunEvent::DaemonStatus(404),
        RunEvent::DaemonStatus(200),
        RunEvent::MessageSent,
        RunEvent::NextflowExited(0),
        RunEvent::NextflowExited(0),
        RunEvent::Terminated,
        RunEvent::MessageSent,
        RunEvent::DaemonStopped,
    ]);
    assert_eq!(actions, vec![
        RunAction::StartDaemon,
        RunAction::PollDaemon,
        RunAction::PollDaemon,
        RunAction::SendStarted,
        RunAction::ShowConfig,
        RunAction::RunPipeline,
        RunAction::Terminate,
        RunAction::SendCompleted,
        RunAction::StopDaemon,
        RunAction::Done,
    ]);
    assert_eq!(run.phase, RunPhase::Finished);
}

#[test]
fn failing_config_reports_and_aborts() {
    let (run, actions) = drive(false, &[
        RunEvent::DaemonStarted,
        RunEvent::DaemonStatus(200),
        RunEvent::MessageSent,
        RunEvent::NextflowExited(1),
        RunEvent::MessageSent,
    ]);
    assert_eq!(actions[4], RunAction::SendError);
    assert_eq!(actions[5], RunAction::Abort);
    assert_eq!(run.exit_code, 1);
    assert_eq!(run.phase, RunPhase::Aborted);
}

#[test]
fn failing_pipeline_with_auto_delete_terminates_then_aborts() {
    let (_, actions) = drive(true, &[
        RunEvent::DaemonStarted,
        RunEvent::DaemonStatus(200),
        RunEvent::MessageSent,
        RunEvent::NextflowExited(0),
        RunEvent::NextflowExited(2),
        RunEvent::MessageSent,
        RunEvent::Terminated,
    ]);
    assert_eq!(&actions[5..], &[RunAction::SendError, RunAction::Terminate, RunAction::Abort]);
}

#[test]
fn daemon_that_never_answers_is_given_up_after_25_polls() {
    let mut events = vec![RunEvent::DaemonStarted];
    events.extend(std::iter::repeat(RunEvent::DaemonStatus(404)).take(25));
    let (run, actions) = drive(false, &events);
    assert_eq!(actions.iter().filter(|a| **a == RunAction::PollDaemon).count(), 25);
    assert_eq!(actions.last(), Some(&RunAction::Abort));
    assert_eq!(run.phase, RunPhase::Aborted);
}

#[test]
fn daemon_answering_on_last_poll_is_accepted() {
    let mut events = vec![RunEvent::DaemonStarted];
    events.extend(std::iter::repeat(RunEvent::DaemonStatus(404)).take(24));
    events.push(RunEvent::DaemonStatus(200));
    let (_, actions) = drive(false, &events);
    assert_eq!(actions.last(), Some(&RunAction::SendStarted));
}

#[test]
fn unexpected_event_aborts() {
    let (run, actions) = drive(false, &[RunEvent::MessageSent]);
    assert_eq!(actions[1], RunAction::Abort);
    assert_eq!(run.phase, RunPhase::Aborted);
}

#[test]
fn run_without_auto_delete_never_terminates() {
    let (_, actions) = drive(false, &[
        RunEvent::DaemonStarted,
        RunEvent::DaemonStatus(200),
        RunEvent::MessageSent,
        RunEvent::NextflowExited(0),
        RunEvent::NextflowExited(0),
        RunEvent::MessageSent,
        RunEvent::DaemonStopped,
    ]);
    assert!(!actions.contains(&RunAction::Terminate));
    assert_eq!(actions.last(), Some(&RunAction::Done));
}
