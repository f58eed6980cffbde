use vstd::prelude::*;
use crate::command::opt_view;
use crate::status::{Message, MessageView, Metadata, Parameters, Workflow};
use crate::text::{concat, owned, push_char};

verus! {

/// Builds the weblog messages `nxfutil` posts about a run it dispatches.
pub struct Weblog {}

/// What `chrono` writes with `DateTime::to_rfc3339` for the UTC time `secs` seconds and `nanos`
/// nanoseconds after the Unix epoch; `None` when `DateTime::from_timestamp` does not accept it.
pub uninterp spec fn utc_rfc3339(secs: int, nanos: int) -> Option<Seq<char>>;

/// Calls `chrono::DateTime::<Utc>::from_timestamp(secs, nanos)` and writes the time with
/// `to_rfc3339`; the contract claims only that the result is `utc_rfc3339(secs, nanos)`.
#[verifier::external_body]
fn format_rfc3339(secs: i64, nanos: u32) -> (r: Option<String>)
    ensures
        opt_view(r) == utc_rfc3339(secs as int, nanos as int),
{
    chrono::DateTime::<chrono::Utc>::from_timestamp(secs, nanos).map(|d| d.to_rfc3339())
}

/// The decimal digit for `d`.
pub open spec fn digit_char(d: nat) -> char {
    if d == 0 { '0' } else if d == 1 { '1' } else if d == 2 { '2' } else if d == 3 { '3' } else if d == 4 {
        '4'
    } else if d == 5 { '5' } else if d == 6 { '6' } else if d == 7 { '7' } else if d == 8 { '8' } else { '9' }
}

/// `n` written in decimal, without leading zeros.
pub open spec fn decimal_nat(n: nat) -> Seq<char>
    decreases n,
{
    if n < 10 {
        seq![digit_char(n)]
    } else {
        decimal_nat(n / 10).push(digit_char(n % 10))
    }
}

/// `n` written in decimal, with a `-` before a negative number: what `{}` writes for an integer.
pub open spec fn decimal(n: int) -> Seq<char> {
    if n < 0 {
        seq!['-'] + decimal_nat((-n) as nat)
    } else {
        decimal_nat(n as nat)
    }
}

fn digit(d: u64) -> (c: char)
    requires
        d < 10,
    ensures
        c == digit_char(d as nat),
{
    if d == 0 { '0' } else if d == 1 { '1' } else if d == 2 { '2' } else if d == 3 { '3' } else if d == 4 {
        '4'
    } else if d == 5 { '5' } else if d == 6 { '6' } else if d == 7 { '7' } else if d == 8 { '8' } else { '9' }
}

fn push_decimal(s: &mut String, n: u64)
    ensures
        final(s)@ == old(s)@ + decimal_nat(n as nat),
    decreases n,
{
    if n < 10 {
        push_char(s, digit(n));
        assert(decimal_nat(n as nat) =~= seq![digit_char(n as nat)]);
    } else {
        push_decimal(s, n / 10);
        push_char(s, digit(n % 10));
        assert(old(s)@ + decimal_nat((n / 10) as nat) + seq![digit_char((n % 10) as nat)] =~= old(s)@ + decimal_nat(
            n as nat,
        ));
    }
}

/// `n` written in decimal.
pub fn decimal_string(n: i32) -> (r: String)
    ensures
        r@ == decimal(n as int),
{
    let mut s = String::new();
    if n < 0 {
        push_char(&mut s, '-');
        let m: i64 = n as i64;
        push_decimal(&mut s, (-m) as u64);
    } else {
        push_decimal(&mut s, n as u64);
    }
    s
}

/// A weblog message about the run of `dispatcher` at `utc_time`.
pub open spec fn weblog_message(event: Seq<char>, dispatcher: Seq<char>, utc_time: Seq<char>, error_message: Option<Seq<char>>) -> MessageView {
    MessageView {
        event,
        run_id: dispatcher,
        run_name: dispatcher,
        utc_time,
        dispatcher,
        error_message,
    }
}

fn message(event: &str, dispatcher: &str, utc_time: &str, error_message: Option<String>) -> (r: Message)
    ensures
        r@ == weblog_message(event@, dispatcher@, utc_time@, opt_view(error_message)),
{
    Message {
        event: owned(event),
        runId: owned(dispatcher),
        runName: owned(dispatcher),
        utcTime: owned(utc_time),
        metadata: Metadata {
            parameters: Parameters { dispatcher: owned(dispatcher) },
            workflow: Workflow { errorMessage: error_message },
        },
    }
}

impl Weblog {
    /// The time of a message: the UTC time `secs` seconds and `nanos` nanoseconds after the
    /// Unix epoch in RFC 3339, as `chrono` writes it.
    pub fn utc_time(secs: i64, nanos: u32) -> (r: Option<String>)
        ensures
            opt_view(r) == utc_rfc3339(secs as int, nanos as int),
    {
        format_rfc3339(secs, nanos)
    }

    /// The message that a run has started.
    pub fn started_message(dispatcher: &str, utc_time: &str) -> (r: Message)
        ensures
            r@ == weblog_message("started"@, dispatcher@, utc_time@, None),
    {
        message("started", dispatcher, utc_time, None)
    }

    /// The message that a run has completed.
    pub fn completed_message(dispatcher: &str, utc_time: &str) -> (r: Message)
        ensures
            r@ == weblog_message("completed"@, dispatcher@, utc_time@, None),
    {
        message("completed", dispatcher, utc_time, None)
    }

    /// The message that a run has completed with an error: its error message is `msg`,
    /// Nextflow's standard output and its standard error, one per line.
    pub fn error_message(dispatcher: &str, utc_time: &str, msg: &str, stdout: &str, stderr: &str) -> (r: Message)
        ensures
            r@ == weblog_message(
                "completed"@,
                dispatcher@,
                utc_time@,
                Some(msg@ + "\n"@ + stdout@ + "\n"@ + stderr@),
            ),
    {
        let mut text = owned(msg);
        text.append("\n");
        text.append(stdout);
        text.append("\n");
        text.append(stderr);
        message("completed", dispatcher, utc_time, Some(text))
    }

    /// The error text for a `nextflow` command that exited with `code`.
    pub fn exit_code_message(code: i32) -> (r: String)
        ensures
            r@ == "Nextflow process did not run cleanly. ExitCode: "@ + decimal(code as int),
    {
        let d = decimal_string(code);
        concat("Nextflow process did not run cleanly. ExitCode: ", d.as_str())
    }
}

} // verus!
