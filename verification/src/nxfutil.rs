use vstd::prelude::*;
use crate::command::{lowercase, to_lowercase};
use crate::server::AppServer;
use crate::text::{concat, owned, str_eq, views};

verus! {

/// The config file `nxfutil` runs with when none is given.
pub fn default_config_uri() -> (r: String)
    ensures
        r@ == "https://raw.githubusercontent.com/axgonz/azure-nextflow/main/nextflow/pipelines/nextflow.config"@,
{
    owned("https://raw.githubusercontent.com/axgonz/azure-nextflow/main/nextflow/pipelines/nextflow.config")
}

/// The pipeline `nxfutil` runs when none is given.
pub fn default_pipeline_uri() -> (r: String)
    ensures
        r@ == "https://raw.githubusercontent.com/axgonz/azure-nextflow/main/nextflow/pipelines/helloWorld/pipeline.nf"@,
{
    owned("https://raw.githubusercontent.com/axgonz/azure-nextflow/main/nextflow/pipelines/helloWorld/pipeline.nf")
}

/// The parameters file `nxfutil` runs with when none is given.
pub fn default_parameters_uri() -> (r: String)
    ensures
        r@ == "https://raw.githubusercontent.com/axgonz/azure-nextflow/main/nextflow/pipelines/helloWorld/parameters.json"@,
{
    owned("https://raw.githubusercontent.com/axgonz/azure-nextflow/main/nextflow/pipelines/helloWorld/parameters.json")
}

/// The command-line options of `nxfutil`.
pub struct Cli {
    /// Uri to nextflow config ('.config') file
    pub config_uri: String,
    /// Uri to nextflow pipeline ('.nf') file
    pub pipeline_uri: String,
    /// Uri to nextflow parameters ('.json') file
    pub parameters_uri: String,
    /// Nextflow parameters as a serialized JSON string '[{"name": "foo", "value": "bar"}]'.
    pub parameters_json: Option<String>,
    /// Try to delete parent container instance once complete
    pub auto_delete: bool,
}

/// The value of a Nextflow parameter: a JSON string, or any other JSON value written as JSON.
pub enum ParamValue {
    Text(String),
    Json(String),
}

/// A Nextflow parameter passed to `nxfutil`.
pub struct NextflowParam {
    pub name: String,
    pub value: ParamValue,
}

/// How a parameter's value is written on Nextflow's command line: a string as it is, any
/// other value as JSON.
pub open spec fn value_text(v: ParamValue) -> Seq<char> {
    match v {
        ParamValue::Text(s) => s@,
        ParamValue::Json(j) => j@,
    }
}

/// The command-line arguments for the parameters `ps`: `--NAME VALUE` for each, in order.
pub open spec fn param_args(ps: Seq<NextflowParam>) -> Seq<Seq<char>>
    decreases ps.len(),
{
    if ps.len() == 0 {
        Seq::empty()
    } else {
        param_args(ps.drop_last()) + seq!["--"@ + ps.last().name@, value_text(ps.last().value)]
    }
}

/// `true` or `false`, as Rust writes a `bool`.
pub open spec fn bool_text(b: bool) -> Seq<char> {
    if b { "true"@ } else { "false"@ }
}

/// The arguments `nxfutil` adds so that a run's log shows how it was started.
pub open spec fn nxfutil_args(cli_config: Seq<char>, cli_pipeline: Seq<char>, cli_parameters: Seq<char>, auto_delete: bool) -> Seq<Seq<char>> {
    seq![
        "--nxfutil_config_uri"@, cli_config,
        "--nxfutil_pipeline_uri"@, cli_pipeline,
        "--nxfutil_parameters_uri"@, cli_parameters,
        "--nxfutil_auto_delete"@, bool_text(auto_delete),
    ]
}

/// The arguments of `nextflow run` before the parameters: the downloaded pipeline and
/// parameters, the Batch work directory, the local weblog and the dispatcher's name.
pub open spec fn run_prefix(dispatcher: Seq<char>) -> Seq<Seq<char>> {
    seq![
        "run"@, "pipeline.nf"@,
        "-params-file"@, "parameters.json"@,
        "-w"@, "az://batch/work"@,
        "-with-weblog"@, "http://localhost:3000/api/nxfutild"@,
        "--dispatcher"@, dispatcher,
    ]
}

/// The parameters given to `nxfutil`: none without `--parameters_json`; else the list the JSON
/// holds, or the single parameter it holds; `None` when it holds neither.
pub open spec fn resolve_params_spec(given: bool, as_list: Option<Seq<NextflowParam>>, as_single: Option<NextflowParam>) -> Option<Seq<NextflowParam>> {
    if !given {
        Some(Seq::empty())
    } else {
        match as_list {
            Some(l) => Some(l),
            None => match as_single {
                Some(p) => Some(seq![p]),
                None => None,
            },
        }
    }
}

/// How `value` is written on Nextflow's command line.
fn param_value_text(value: &ParamValue) -> (r: String)
    ensures
        r@ == value_text(*value),
{
    match value {
        ParamValue::Text(s) => s.clone(),
        ParamValue::Json(j) => j.clone(),
    }
}

/// The parameters given to `nxfutil`. `given` tells whether `--parameters_json` was passed;
/// `as_list` and `as_single` are its text read as a list of parameters and as one parameter.
/// `None` when the text is neither, where `nxfutil` stops.
pub fn resolve_params(given: bool, as_list: Option<Vec<NextflowParam>>, as_single: Option<NextflowParam>) -> (r: Option<Vec<NextflowParam>>)
    ensures
        match r {
            None => resolve_params_spec(given, match as_list { Some(l) => Some(l@), None => None }, as_single) is None,
            Some(v) => resolve_params_spec(given, match as_list { Some(l) => Some(l@), None => None }, as_single) == Some(v@),
        },
{
    if !given {
        return Some(Vec::new());
    }
    match as_list {
        Some(l) => Some(l),
        None => match as_single {
            Some(p) => {
                let mut v: Vec<NextflowParam> = Vec::new();
                v.push(p);
                assert(v@ =~= seq![p]);
                Some(v)
            },
            None => None,
        },
    }
}

/// The arguments `nxfutil` hands to `nextflow run` after its own: `--NAME VALUE` for each
/// parameter, then how `nxfutil` was started.
pub fn nextflow_param_strings(params: &Vec<NextflowParam>, cli: &Cli) -> (r: Vec<String>)
    ensures
        views(r@) == param_args(params@) + nxfutil_args(
            cli.config_uri@,
            cli.pipeline_uri@,
            cli.parameters_uri@,
            cli.auto_delete,
        ),
{
    let mut out: Vec<String> = Vec::new();
    let n = params.len();
    let mut i: usize = 0;
    while i < n
        invariant
            n == params@.len(),
            i <= n,
            views(out@) == param_args(params@.take(i as int)),
        decreases n - i,
    {
        let ghost before = out@;
        let p = &params[i];
        let name = concat("--", p.name.as_str());
        let value = param_value_text(&p.value);
        out.push(name);
        out.push(value);
        proof {
            let t = params@.take(i + 1);
            assert(t.drop_last() =~= params@.take(i as int));
            assert(t.last() == params@[i as int]);
            assert(views(out@) =~= views(before) + seq!["--"@ + p.name@, value_text(p.value)]);
        }
        i += 1;
    }
    assert(params@.take(n as int) =~= params@);
    let ghost before = out@;
    out.push(owned("--nxfutil_config_uri"));
    out.push(cli.config_uri.clone());
    out.push(owned("--nxfutil_pipeline_uri"));
    out.push(cli.pipeline_uri.clone());
    out.push(owned("--nxfutil_parameters_uri"));
    out.push(cli.parameters_uri.clone());
    out.push(owned("--nxfutil_auto_delete"));
    out.push(if cli.auto_delete { owned("true") } else { owned("false") });
    assert(views(out@) =~= views(before) + nxfutil_args(
        cli.config_uri@,
        cli.pipeline_uri@,
        cli.parameters_uri@,
        cli.auto_delete,
    ));
    out
}

/// The arguments of `nextflow run` for the dispatcher `dispatcher` and the parameters
/// `param_strings`.
pub fn nextflow_run_args(dispatcher: &str, param_strings: &Vec<String>) -> (r: Vec<String>)
    ensures
        views(r@) == run_prefix(dispatcher@) + views(param_strings@),
{
    let mut out: Vec<String> = Vec::new();
    out.push(owned("run"));
    out.push(owned("pipeline.nf"));
    out.push(owned("-params-file"));
    out.push(owned("parameters.json"));
    out.push(owned("-w"));
    out.push(owned("az://batch/work"));
    out.push(owned("-with-weblog"));
    out.push(owned("http://localhost:3000/api/nxfutild"));
    out.push(owned("--dispatcher"));
    out.push(owned(dispatcher));
    assert(views(out@) =~= run_prefix(dispatcher@));
    let n = param_strings.len();
    let mut i: usize = 0;
    while i < n
        invariant
            n == param_strings@.len(),
            i <= n,
            views(out@) == run_prefix(dispatcher@) + views(param_strings@).take(i as int),
        decreases n - i,
    {
        let ghost before = out@;
        out.push(param_strings[i].clone());
        assert(views(out@) =~= views(before).push(param_strings@[i as int]@));
        assert(views(param_strings@).take(i + 1) =~= views(param_strings@).take(i as int).push(param_strings@[i as int]@));
        i += 1;
    }
    assert(views(param_strings@).take(n as int) =~= views(param_strings@));
    out
}

/// The arguments of `nextflow config`.
pub fn nextflow_config_args() -> (r: Vec<String>)
    ensures
        views(r@) == seq!["config"@],
{
    let mut out: Vec<String> = Vec::new();
    out.push(owned("config"));
    assert(views(out@) =~= seq!["config"@]);
    out
}

/// Some argument is `secrets` in some letter case: the command handles secrets.
pub open spec fn handles_secrets(args: Seq<Seq<char>>) -> bool {
    exists|i: int| 0 <= i < args.len() && lowercase(#[trigger] args[i]) == "secrets"@
}

impl AppServer {
    /// Whether the log must not show the arguments of a `nextflow` command: when one of them
    /// is `secrets`, in any letter case.
    pub fn redacts_args(args: &Vec<String>) -> (r: bool)
        ensures
            r == handles_secrets(views(args@)),
    {
        let n = args.len();
        let mut i: usize = 0;
        let mut omit = false;
        while i < n
            invariant
                n == args@.len(),
                i <= n,
                omit == exists|j: int| 0 <= j < i && lowercase(#[trigger] views(args@)[j]) == "secrets"@,
            decreases n - i,
        {
            let l = to_lowercase(args[i].as_str());
            assert(views(args@)[i as int] == args@[i as int]@);
            if str_eq(l.as_str(), "secrets") {
                omit = true;
            }
            i += 1;
        }
        omit
    }
}

/// Where a run of `nxfutil` stands once the Nextflow files are downloaded and the config is parsed.
#[derive(Clone, Copy, Debug, PartialEq, Eq, Structural)]
pub enum RunPhase {
    StartingDaemon,
    WaitingForDaemon,
    AnnouncingStart,
    ShowingConfig,
    RunningPipeline,
    ReportingFailure,
    TerminatingAfterFailure,
    Terminating,
    Completing,
    StoppingDaemon,
    Finished,
    Aborted,
}

/// What the caller reports after doing what the run asked.
#[derive(Clone, Copy, Debug, PartialEq, Eq, Structural)]
pub enum RunEvent {
    /// The `nxfutild` service was started.
    DaemonStarted,
    /// `nxfutild` answered a status request with this HTTP status (`404` when it did not answer),
    /// and the caller has waited the poll delay.
    DaemonStatus(u16),
    /// A weblog message was posted.
    MessageSent,
    /// `nextflow` exited with this code.
    NextflowExited(i32),
    /// The container instance was asked to delete itself.
    Terminated,
    /// `nxfutild` was stopped.
    DaemonStopped,
}

/// What the run asks the caller to do next.
#[derive(Clone, Copy, Debug, PartialEq, Eq, Structural)]
pub enum RunAction {
    StartDaemon,
    /// Ask `nxfutild` for its status, then wait the poll delay.
    PollDaemon,
    SendStarted,
    /// Run `nextflow config`.
    ShowConfig,
    /// Run `nextflow run` with the pipeline's arguments.
    RunPipeline,
    /// Post a weblog error naming the last exit code, with Nextflow's output.
    SendError,
    /// Delete the container instance the run is in.
    Terminate,
    SendCompleted,
    StopDaemon,
    Done,
    /// Stop the program as failed.
    Abort,
}

/// The state of a run of `nxfutil`.
#[derive(Clone, Copy, Debug, PartialEq, Eq, Structural)]
pub struct NxfutilRun {
    pub phase: RunPhase,
    /// The status requests `nxfutild` may still be sent before the run gives up on it.
    pub polls_left: u32,
    pub auto_delete: bool,
    /// The exit code of the last `nextflow` command.
    pub exit_code: i32,
}

/// The number of status requests `nxfutil` sends `nxfutild` before it gives up on it.
pub open spec fn daemon_poll_limit() -> u32 {
    25
}

/// The seconds `nxfutil` waits after each status request to `nxfutild`.
pub open spec fn daemon_poll_delay() -> u64 {
    5
}

/// What a run does on an event: its next state and what it asks for. An event that does not
/// answer what was asked ends the run.
pub open spec fn next_run(s: NxfutilRun, e: RunEvent) -> (NxfutilRun, RunAction) {
    let abort = (NxfutilRun { phase: RunPhase::Aborted, ..s }, RunAction::Abort);
    match s.phase {
        RunPhase::StartingDaemon => match e {
            RunEvent::DaemonStarted => (
                NxfutilRun { phase: RunPhase::WaitingForDaemon, polls_left: daemon_poll_limit(), ..s },
                RunAction::PollDaemon,
            ),
            _ => abort,
        },
        RunPhase::WaitingForDaemon => match e {
            RunEvent::DaemonStatus(code) => if code == 200 {
                (
                    NxfutilRun {
                        phase: RunPhase::AnnouncingStart,
                        polls_left: if s.polls_left > 0 { (s.polls_left - 1) as u32 } else { 0 },
                        ..s
                    },
                    RunAction::SendStarted,
                )
            } else if s.polls_left <= 1 {
                (NxfutilRun { phase: RunPhase::Aborted, polls_left: 0, ..s }, RunAction::Abort)
            } else {
                (NxfutilRun { polls_left: (s.polls_left - 1) as u32, ..s }, RunAction::PollDaemon)
            },
            _ => abort,
        },
        RunPhase::AnnouncingStart => match e {
            RunEvent::MessageSent => (NxfutilRun { phase: RunPhase::ShowingConfig, ..s }, RunAction::ShowConfig),
            _ => abort,
        },
        RunPhase::ShowingConfig => match e {
            RunEvent::NextflowExited(code) => if code > 0 {
                (NxfutilRun { phase: RunPhase::ReportingFailure, exit_code: code, ..s }, RunAction::SendError)
            } else {
                (NxfutilRun { phase: RunPhase::RunningPipeline, exit_code: code, ..s }, RunAction::RunPipeline)
            },
            _ => abort,
        },
        RunPhase::RunningPipeline => match e {
            RunEvent::NextflowExited(code) => if code > 0 {
                (NxfutilRun { phase: RunPhase::ReportingFailure, exit_code: code, ..s }, RunAction::SendError)
            } else if s.auto_delete {
                (NxfutilRun { phase: RunPhase::Terminating, exit_code: code, ..s }, RunAction::Terminate)
            } else {
                (NxfutilRun { phase: RunPhase::Completing, exit_code: code, ..s }, RunAction::SendCompleted)
            },
            _ => abort,
        },
        RunPhase::ReportingFailure => match e {
            RunEvent::MessageSent => if s.auto_delete {
                (NxfutilRun { phase: RunPhase::TerminatingAfterFailure, ..s }, RunAction::Terminate)
            } else {
                abort
            },
            _ => abort,
        },
        RunPhase::TerminatingAfterFailure => abort,
        RunPhase::Terminating => match e {
            RunEvent::Terminated => (NxfutilRun { phase: RunPhase::Completing, ..s }, RunAction::SendCompleted),
            _ => abort,
        },
        RunPhase::Completing => match e {
            RunEvent::MessageSent => (NxfutilRun { phase: RunPhase::StoppingDaemon, ..s }, RunAction::StopDaemon),
            _ => abort,
        },
        RunPhase::StoppingDaemon => match e {
            RunEvent::DaemonStopped => (NxfutilRun { phase: RunPhase::Finished, ..s }, RunAction::Done),
            _ => abort,
        },
        RunPhase::Finished => (s, RunAction::Done),
        RunPhase::Aborted => (s, RunAction::Abort),
    }
}

/// A run's state is consistent: it never has more status requests left than the limit, and
/// while it waits for `nxfutild` it has at least one.
pub open spec fn run_wf(s: NxfutilRun) -> bool {
    &&& s.polls_left <= daemon_poll_limit()
    &&& s.phase == RunPhase::WaitingForDaemon ==> s.polls_left >= 1
}

impl NxfutilRun {
    /// A run about to start `nxfutild`.
    pub fn new(auto_delete: bool) -> (r: (NxfutilRun, RunAction))
        ensures
            r.0 == (NxfutilRun { phase: RunPhase::StartingDaemon, polls_left: daemon_poll_limit(), auto_delete, exit_code: 0 }),
            r.1 == RunAction::StartDaemon,
            run_wf(r.0),
    {
        (NxfutilRun { phase: RunPhase::StartingDaemon, polls_left: 25, auto_delete, exit_code: 0 }, RunAction::StartDaemon)
    }

    /// The run's next state and request after `event`.
    pub fn step(&self, event: RunEvent) -> (r: (NxfutilRun, RunAction))
        ensures
            r == next_run(*self, event),
    {
        let s = *self;
        let abort = (NxfutilRun { phase: RunPhase::Aborted, ..s }, RunAction::Abort);
        match s.phase {
            RunPhase::StartingDaemon => match event {
                RunEvent::DaemonStarted => (
                    NxfutilRun { phase: RunPhase::WaitingForDaemon, polls_left: 25, ..s },
                    RunAction::PollDaemon,
                ),
                _ => abort,
            },
            RunPhase::WaitingForDaemon => match event {
                RunEvent::DaemonStatus(code) => if code == 200 {
                    let left = if s.polls_left > 0 { s.polls_left - 1 } else { 0 };
                    (NxfutilRun { phase: RunPhase::AnnouncingStart, polls_left: left, ..s }, RunAction::SendStarted)
                } else if s.polls_left <= 1 {
                    (NxfutilRun { phase: RunPhase::Aborted, polls_left: 0, ..s }, RunAction::Abort)
                } else {
                    (NxfutilRun { polls_left: s.polls_left - 1, ..s }, RunAction::PollDaemon)
                },
                _ => abort,
            },
            RunPhase::AnnouncingStart => match event {
                RunEvent::MessageSent => (NxfutilRun { phase: RunPhase::ShowingConfig, ..s }, RunAction::ShowConfig),
                _ => abort,
            },
            RunPhase::ShowingConfig => match event {
                RunEvent::NextflowExited(code) => if code > 0 {
                    (NxfutilRun { phase: RunPhase::ReportingFailure, exit_code: code, ..s }, RunAction::SendError)
                } else {
                    (NxfutilRun { phase: RunPhase::RunningPipeline, exit_code: code, ..s }, RunAction::RunPipeline)
                },
                _ => abort,
            },
            RunPhase::RunningPipeline => match event {
                RunEvent::NextflowExited(code) => if code > 0 {
                    (NxfutilRun { phase: RunPhase::ReportingFailure, exit_code: code, ..s }, RunAction::SendError)
                } else if s.auto_delete {
                    (NxfutilRun { phase: RunPhase::Terminating, exit_code: code, ..s }, RunAction::Terminate)
                } else {
                    (NxfutilRun { phase: RunPhase::Completing, exit_code: code, ..s }, RunAction::SendCompleted)
                },
                _ => abort,
            },
            RunPhase::ReportingFailure => match event {
                RunEvent::MessageSent => if s.auto_delete {
                    (NxfutilRun { phase: RunPhase::TerminatingAfterFailure, ..s }, RunAction::Terminate)
                } else {
                    abort
                },
                _ => abort,
            },
            RunPhase::TerminatingAfterFailure => abort,
            RunPhase::Terminating => match event {
                RunEvent::Terminated => (NxfutilRun { phase: RunPhase::Completing, ..s }, RunAction::SendCompleted),
                _ => abort,
            },
            RunPhase::Completing => match event {
                RunEvent::MessageSent => (NxfutilRun { phase: RunPhase::StoppingDaemon, ..s }, RunAction::StopDaemon),
                _ => abort,
            },
            RunPhase::StoppingDaemon => match event {
                RunEvent::DaemonStopped => (NxfutilRun { phase: RunPhase::Finished, ..s }, RunAction::Done),
                _ => abort,
            },
            RunPhase::Finished => (s, RunAction::Done),
            RunPhase::Aborted => (s, RunAction::Abort),
        }
    }
}

/// Every step keeps a run's state consistent.
pub proof fn lemma_run_wf_preserved(s: NxfutilRun, e: RunEvent)
    requires
        run_wf(s),
    ensures
        run_wf(next_run(s, e).0),
{
}

/// The run deletes its container instance only when asked to with `--auto_delete`.
pub proof fn lemma_terminate_only_with_auto_delete(s: NxfutilRun, e: RunEvent)
    ensures
        next_run(s, e).1 == RunAction::Terminate ==> s.auto_delete,
{
}

/// The pipeline runs only after `nextflow config` exited cleanly.
pub proof fn lemma_pipeline_after_clean_config(s: NxfutilRun, e: RunEvent)
    ensures
        next_run(s, e).1 == RunAction::RunPipeline ==> s.phase == RunPhase::ShowingConfig && exists|c: i32|
            c <= 0 && e == RunEvent::NextflowExited(c),
{
    if next_run(s, e).1 == RunAction::RunPipeline {
        match e {
            RunEvent::NextflowExited(c) => {
                assert(c <= 0);
            },
            _ => {},
        }
    }
}

/// `completed` is announced only after the pipeline exited cleanly: straight from running it,
/// or once the container instance was asked to delete itself, which the run only asks after
/// a clean pipeline.
pub proof fn lemma_completed_after_clean_pipeline(s: NxfutilRun, e: RunEvent)
    ensures
        next_run(s, e).1 == RunAction::SendCompleted ==> (s.phase == RunPhase::RunningPipeline && exists|c: i32|
            c <= 0 && e == RunEvent::NextflowExited(c)) || (s.phase == RunPhase::Terminating && e
            == RunEvent::Terminated),
        next_run(s, e).0.phase == RunPhase::Terminating && s.phase != RunPhase::Terminating ==> s.phase
            == RunPhase::RunningPipeline && exists|c: i32| c <= 0 && e == RunEvent::NextflowExited(c),
{
    match e {
        RunEvent::NextflowExited(c) => {
            if c <= 0 {
                assert(e == RunEvent::NextflowExited(c));
            }
        },
        _ => {},
    }
}

/// The run after the status answers `codes` from `nxfutild`, starting from `s`.
pub open spec fn after_daemon_answers(s: NxfutilRun, codes: Seq<u16>) -> NxfutilRun
    decreases codes.len(),
{
    if codes.len() == 0 {
        s
    } else {
        after_daemon_answers(next_run(s, RunEvent::DaemonStatus(codes[0])).0, codes.drop_first())
    }
}

/// A run that waits for `nxfutild` gives up once as many status requests as it has left went
/// unanswered with `200`: at most `daemon_poll_limit()` requests are ever sent.
pub proof fn lemma_daemon_polls_bounded(s: NxfutilRun, codes: Seq<u16>)
    requires
        run_wf(s),
        s.phase == RunPhase::WaitingForDaemon,
        codes.len() >= s.polls_left,
        forall|i: int| 0 <= i < codes.len() ==> codes[i] != 200,
    ensures
        after_daemon_answers(s, codes).phase == RunPhase::Aborted,
    decreases codes.len(),
{
    let n = next_run(s, RunEvent::DaemonStatus(codes[0])).0;
    assert(codes[0] != 200);
    if s.polls_left <= 1 {
        lemma_aborted_stays(n, codes.drop_first());
    } else {
        assert forall|i: int| 0 <= i < codes.drop_first().len() implies codes.drop_first()[i] != 200 by {
            assert(codes.drop_first()[i] == codes[i + 1]);
        }
        lemma_daemon_polls_bounded(n, codes.drop_first());
    }
}

/// A run that gave up stays given up.
pub proof fn lemma_aborted_stays(s: NxfutilRun, codes: Seq<u16>)
    requires
        s.phase == RunPhase::Aborted,
    ensures
        after_daemon_answers(s, codes).phase == RunPhase::Aborted,
    decreases codes.len(),
{
    if codes.len() > 0 {
        lemma_aborted_stays(next_run(s, RunEvent::DaemonStatus(codes[0])).0, codes.drop_first());
    }
}

/// A run that `nextflow` failed: one that reports the failure, deletes its container instance
/// after the report, or has stopped as failed.
pub open spec fn is_failed_phase(p: RunPhase) -> bool {
    p == RunPhase::ReportingFailure || p == RunPhase::TerminatingAfterFailure || p == RunPhase::Aborted
}

/// The run after the events `es`, one after the other, starting from `s`.
pub open spec fn after_events(s: NxfutilRun, es: Seq<RunEvent>) -> NxfutilRun
    decreases es.len(),
{
    if es.len() == 0 {
        s
    } else {
        after_events(next_run(s, es[0]).0, es.drop_first())
    }
}

/// When `nextflow config` or the pipeline exits with a code above zero, whatever `--auto_delete`
/// says, the run reports the failure: it keeps the exit code and asks for an error message.
pub proof fn lemma_nextflow_failure_reported(s: NxfutilRun, code: i32)
    requires
        s.phase == RunPhase::ShowingConfig || s.phase == RunPhase::RunningPipeline,
        code > 0,
    ensures
        next_run(s, RunEvent::NextflowExited(code)).0.phase == RunPhase::ReportingFailure,
        next_run(s, RunEvent::NextflowExited(code)).0.exit_code == code,
        next_run(s, RunEvent::NextflowExited(code)).0.auto_delete == s.auto_delete,
        next_run(s, RunEvent::NextflowExited(code)).1 == RunAction::SendError,
{
}

/// A failed run stays failed: whatever comes next, it asks for nothing but deleting its
/// container instance or stopping as failed, and it never completes.
pub proof fn lemma_failed_run_stays_failed(s: NxfutilRun, e: RunEvent)
    requires
        is_failed_phase(s.phase),
    ensures
        is_failed_phase(next_run(s, e).0.phase),
        next_run(s, e).1 == RunAction::Terminate || next_run(s, e).1 == RunAction::Abort,
        next_run(s, e).1 == RunAction::Terminate ==> s.auto_delete,
{
}

/// Once it failed, no sequence of events brings a run to `Finished`.
pub proof fn lemma_failed_run_never_finishes(s: NxfutilRun, es: Seq<RunEvent>)
    requires
        is_failed_phase(s.phase),
    ensures
        is_failed_phase(after_events(s, es).phase),
        after_events(s, es).phase != RunPhase::Finished,
    decreases es.len(),
{
    if es.len() > 0 {
        lemma_failed_run_stays_failed(s, es[0]);
        lemma_failed_run_never_finishes(next_run(s, es[0]).0, es.drop_first());
    }
}

/// A reported failure ends the run as failed: without `--auto_delete` right after the report
/// was posted; with it, one step later, after the container instance was asked to delete itself.
pub proof fn lemma_failure_report_ends_aborted(s: NxfutilRun, e1: RunEvent, e2: RunEvent)
    requires
        s.phase == RunPhase::ReportingFailure,
    ensures
        !s.auto_delete ==> next_run(s, e1).0.phase == RunPhase::Aborted && next_run(s, e1).1 == RunAction::Abort,
        next_run(next_run(s, e1).0, e2).0.phase == RunPhase::Aborted,
        next_run(next_run(s, e1).0, e2).1 == RunAction::Abort,
{
}

} // verus!
