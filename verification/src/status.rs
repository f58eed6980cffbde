use vstd::prelude::*;
use crate::command::opt_view;
use crate::server::{App, AppServer};
use crate::text::{owned, str_eq};

verus! {

/// The parameters a workflow message carries.
pub struct Parameters {
    pub dispatcher: String,
}

/// The workflow part of a message.
#[allow(non_snake_case)]
pub struct Workflow {
    pub errorMessage: Option<String>,
}

/// The metadata of a message.
pub struct Metadata {
    pub parameters: Parameters,
    pub workflow: Workflow,
}

/// A workflow status message, with exactly the members a status report keeps.
#[allow(non_snake_case)]
pub struct Message {
    pub event: String,
    pub runId: String,
    pub runName: String,
    pub utcTime: String,
    pub metadata: Metadata,
}

/// The members every workflow message has.
#[allow(non_snake_case)]
pub struct BaseMessage {
    pub event: String,
    pub runId: String,
    pub runName: String,
    pub utcTime: String,
}

/// A message as a plain value.
pub struct MessageView {
    pub event: Seq<char>,
    pub run_id: Seq<char>,
    pub run_name: Seq<char>,
    pub utc_time: Seq<char>,
    pub dispatcher: Seq<char>,
    pub error_message: Option<Seq<char>>,
}

impl View for Message {
    type V = MessageView;

    open spec fn view(&self) -> MessageView {
        MessageView {
            event: self.event@,
            run_id: self.runId@,
            run_name: self.runName@,
            utc_time: self.utcTime@,
            dispatcher: self.metadata.parameters.dispatcher@,
            error_message: opt_view(self.metadata.workflow.errorMessage),
        }
    }
}

/// What the status logic reads of a message taken from the queue, which is any JSON value.
pub struct QueueMessage {
    /// The `event` member, when it is a JSON string.
    pub event: Option<String>,
    /// The `runId` member written as JSON (`null` when it is absent): the key that tells runs apart.
    pub run_key: String,
    /// The `runId` member, when it is a JSON string.
    pub run_id: Option<String>,
    /// The `runName` member, when it is a JSON string.
    pub run_name: Option<String>,
    /// The `utcTime` member, when it is a JSON string.
    pub utc_time: Option<String>,
    /// `metadata.parameters.dispatcher`, when it is a JSON string.
    pub dispatcher: Option<String>,
    /// Whether `metadata.workflow` is a JSON object.
    pub has_workflow: bool,
    /// `metadata.workflow.errorMessage` (a string or null).
    pub error_message: Option<String>,
    /// `metadata.workflow.errorReport` (a string or null).
    pub error_report: Option<String>,
}

/// A queue message as a plain value.
pub struct QueueMessageView {
    pub event: Option<Seq<char>>,
    pub run_key: Seq<char>,
    pub run_id: Option<Seq<char>>,
    pub run_name: Option<Seq<char>>,
    pub utc_time: Option<Seq<char>>,
    pub dispatcher: Option<Seq<char>>,
    pub has_workflow: bool,
    pub error_message: Option<Seq<char>>,
    pub error_report: Option<Seq<char>>,
}

impl View for QueueMessage {
    type V = QueueMessageView;

    open spec fn view(&self) -> QueueMessageView {
        QueueMessageView {
            event: opt_view(self.event),
            run_key: self.run_key@,
            run_id: opt_view(self.run_id),
            run_name: opt_view(self.run_name),
            utc_time: opt_view(self.utc_time),
            dispatcher: opt_view(self.dispatcher),
            has_workflow: self.has_workflow,
            error_message: opt_view(self.error_message),
            error_report: opt_view(self.error_report),
        }
    }
}

/// The views of a sequence of queue messages.
pub open spec fn queue_views(s: Seq<QueueMessage>) -> Seq<QueueMessageView> {
    s.map_values(|m: QueueMessage| m@)
}

/// The views of a sequence of messages.
pub open spec fn message_views(s: Seq<Message>) -> Seq<MessageView> {
    s.map_values(|m: Message| m@)
}

/// The events a status report keeps: `started` and `completed`, and `error` where asked for.
pub open spec fn is_status_event(event: Option<Seq<char>>, with_error: bool) -> bool {
    event == Some("started"@) || event == Some("completed"@) || (with_error && event == Some("error"@))
}

/// The message with its error report copied into its error message when it has no error message.
pub open spec fn fill_error_message(m: QueueMessageView) -> QueueMessageView {
    if m.error_message is None && m.error_report is Some {
        QueueMessageView { error_message: m.error_report, has_workflow: true, ..m }
    } else {
        m
    }
}

/// A message as a status report shows it: the error report stands in for a missing error
/// message, and a message that carries either is an `error` event.
pub open spec fn clean(m: QueueMessageView) -> QueueMessageView {
    let f = fill_error_message(m);
    if m.error_message is Some || m.error_report is Some {
        QueueMessageView { event: Some("error"@), ..f }
    } else {
        m
    }
}

/// The message read as a strict `Message`, when it has every member that needs.
pub open spec fn as_message(m: QueueMessageView) -> Option<MessageView> {
    if m.event is Some && m.run_id is Some && m.run_name is Some && m.utc_time is Some && m.dispatcher is Some
        && m.has_workflow {
        Some(
            MessageView {
                event: m.event->0,
                run_id: m.run_id->0,
                run_name: m.run_name->0,
                utc_time: m.utc_time->0,
                dispatcher: m.dispatcher->0,
                error_message: m.error_message,
            },
        )
    } else {
        None
    }
}

/// Some message of `s` with a kept event belongs to the run `key`.
pub open spec fn has_run(s: Seq<QueueMessageView>, key: Seq<char>, with_error: bool) -> bool {
    exists|j: int| 0 <= j < s.len() && is_status_event(s[j].event, with_error) && #[trigger] s[j].run_key == key
}

/// The messages of `s` with a kept event that no later message with a kept event of the same
/// run follows: the latest message of each run, in queue order.
pub open spec fn latest_per_run(s: Seq<QueueMessageView>, with_error: bool) -> Seq<QueueMessageView>
    decreases s.len(),
{
    if s.len() == 0 {
        Seq::empty()
    } else {
        let rest = latest_per_run(s.drop_first(), with_error);
        if is_status_event(s[0].event, with_error) && !has_run(s.drop_first(), s[0].run_key, with_error) {
            seq![s[0]] + rest
        } else {
            rest
        }
    }
}

/// Every message of `s` can be read as a strict `Message`.
pub open spec fn all_strict(s: Seq<QueueMessageView>) -> bool {
    forall|i: int| 0 <= i < s.len() ==> (#[trigger] as_message(s[i])) is Some
}

/// The strict `Message`s of the messages of `s`.
pub open spec fn strict_messages(s: Seq<QueueMessageView>) -> Seq<MessageView> {
    s.map_values(|m: QueueMessageView| as_message(m)->0)
}

/// The messages of a queue as a status report shows them.
pub open spec fn cleaned(s: Seq<QueueMessageView>) -> Seq<QueueMessageView> {
    s.map_values(|m: QueueMessageView| clean(m))
}

/// What the status summary picks from the queue: the latest message of each run among the
/// `started`, `completed` and `error` events of the cleaned messages.
pub open spec fn summary_picks(s: Seq<QueueMessageView>) -> Seq<QueueMessageView> {
    latest_per_run(cleaned(s), true)
}

/// What the status update picks from the queue: the latest `started` or `completed` message
/// of each run, latest run first, with its error report standing in for a missing error message.
pub open spec fn update_picks(s: Seq<QueueMessageView>) -> Seq<QueueMessageView> {
    latest_per_run(s, false).reverse().map_values(|m: QueueMessageView| fill_error_message(m))
}

/// The latest message of each run: every run with a kept event in the queue has exactly one
/// message in `latest_per_run`, and that message is the run's last kept one in the queue.
pub proof fn lemma_latest_per_run(s: Seq<QueueMessageView>, with_error: bool)
    ensures
        forall|k: int, l: int|
            0 <= k < l < latest_per_run(s, with_error).len() ==> #[trigger] latest_per_run(s, with_error)[k].run_key
                != #[trigger] latest_per_run(s, with_error)[l].run_key,
        forall|key: Seq<char>|
            has_run(s, key, with_error) ==> exists|k: int|
                0 <= k < latest_per_run(s, with_error).len() && #[trigger] latest_per_run(s, with_error)[k].run_key
                    == key,
        forall|k: int|
            0 <= k < latest_per_run(s, with_error).len() ==> exists|i: int|
                0 <= i < s.len() && s[i] == #[trigger] latest_per_run(s, with_error)[k] && is_status_event(
                    s[i].event,
                    with_error,
                ) && !has_run(s.skip(i + 1), s[i].run_key, with_error),
    decreases s.len(),
{
    if s.len() > 0 {
        let t = s.drop_first();
        lemma_latest_per_run(t, with_error);
        let rest = latest_per_run(t, with_error);
        let l = latest_per_run(s, with_error);
        let kept = is_status_event(s[0].event, with_error) && !has_run(t, s[0].run_key, with_error);
        assert(s.skip(1) =~= t);
        assert forall|k: int|
            0 <= k < l.len() implies exists|i: int|
                0 <= i < s.len() && s[i] == #[trigger] l[k] && is_status_event(s[i].event, with_error) && !has_run(
                    s.skip(i + 1),
                    s[i].run_key,
                    with_error,
                ) by {
            if kept && k == 0 {
                assert(s[0] == l[0]);
            } else {
                let kk = if kept { k - 1 } else { k };
                assert(l[k] == rest[kk]);
                let i = choose|i: int|
                    0 <= i < t.len() && t[i] == #[trigger] rest[kk] && is_status_event(t[i].event, with_error)
                        && !has_run(t.skip(i + 1), t[i].run_key, with_error);
                assert(t.skip(i + 1) =~= s.skip(i + 2));
                assert(s[i + 1] == t[i]);
            }
        }
        assert forall|k: int, m: int| 0 <= k < m < l.len() implies #[trigger] l[k].run_key != #[trigger] l[m].run_key by {
            if kept && k == 0 {
                assert(l[m] == rest[m - 1]);
                let i = choose|i: int|
                    0 <= i < t.len() && t[i] == #[trigger] rest[m - 1] && is_status_event(t[i].event, with_error)
                        && !has_run(t.skip(i + 1), t[i].run_key, with_error);
                if l[m].run_key == s[0].run_key {
                    assert(has_run(t, s[0].run_key, with_error));
                }
            } else if kept {
                assert(l[k] == rest[k - 1]);
                assert(l[m] == rest[m - 1]);
            } else {
                assert(l[k] == rest[k]);
                assert(l[m] == rest[m]);
            }
        }
        assert forall|key: Seq<char>| has_run(s, key, with_error) implies exists|k: int|
            0 <= k < l.len() && #[trigger] l[k].run_key == key by {
            let j = choose|j: int| 0 <= j < s.len() && is_status_event(s[j].event, with_error) && #[trigger] s[j].run_key == key;
            if j > 0 {
                assert(t[j - 1] == s[j]);
                assert(has_run(t, key, with_error));
                let k = choose|k: int| 0 <= k < rest.len() && #[trigger] rest[k].run_key == key;
                if kept {
                    assert(l[k + 1] == rest[k]);
                } else {
                    assert(l[k] == rest[k]);
                }
            } else if kept {
                assert(l[0] == s[0]);
            } else {
                assert(has_run(t, key, with_error));
                let k = choose|k: int| 0 <= k < rest.len() && #[trigger] rest[k].run_key == key;
                assert(l[k] == rest[k]);
            }
        }
    }
}

/// Cleaning a message twice changes nothing more than cleaning it once.
pub proof fn lemma_clean_idempotent(m: QueueMessageView)
    ensures
        clean(clean(m)) == clean(m),
{
}

/// A cleaned message is an `error` event exactly when it carries an error message or report,
/// and its error message is then set; a message without either is left as it is.
pub proof fn lemma_clean_marks_errors(m: QueueMessageView)
    ensures
        (m.error_message is Some || m.error_report is Some) ==> clean(m).event == Some("error"@)
            && clean(m).error_message is Some,
        (m.error_message is None && m.error_report is None) ==> clean(m) == m,
        clean(m).run_key == m.run_key,
{
}

fn clone_opt(o: &Option<String>) -> (r: Option<String>)
    ensures
        opt_view(r) == opt_view(*o),
{
    match o {
        None => None,
        Some(s) => Some(s.clone()),
    }
}

/// Whether `o` holds the text `t`.
fn opt_is(o: &Option<String>, t: &str) -> (r: bool)
    ensures
        r == (opt_view(*o) == Some(t@)),
{
    match o {
        None => false,
        Some(s) => str_eq(s.as_str(), t),
    }
}

impl QueueMessage {
    /// A copy of the message.
    pub fn copy(&self) -> (r: QueueMessage)
        ensures
            r@ == self@,
    {
        QueueMessage {
            event: clone_opt(&self.event),
            run_key: self.run_key.clone(),
            run_id: clone_opt(&self.run_id),
            run_name: clone_opt(&self.run_name),
            utc_time: clone_opt(&self.utc_time),
            dispatcher: clone_opt(&self.dispatcher),
            has_workflow: self.has_workflow,
            error_message: clone_opt(&self.error_message),
            error_report: clone_opt(&self.error_report),
        }
    }

    /// Whether the event is one a status report keeps.
    pub fn is_status_event(&self, with_error: bool) -> (r: bool)
        ensures
            r == is_status_event(self@.event, with_error),
    {
        opt_is(&self.event, "started") || opt_is(&self.event, "completed") || (with_error && opt_is(
            &self.event,
            "error",
        ))
    }

    /// The message with its error report copied into its error message when it has none.
    pub fn fill_error_message(&self) -> (r: QueueMessage)
        ensures
            r@ == fill_error_message(self@),
    {
        let mut r = self.copy();
        if self.error_message.is_none() && self.error_report.is_some() {
            r.error_message = clone_opt(&self.error_report);
            r.has_workflow = true;
        }
        r
    }

    /// The message read as a strict `Message`, when it has every member that needs.
    pub fn as_message(&self) -> (r: Option<Message>)
        ensures
            match r {
                None => as_message(self@) is None,
                Some(m) => as_message(self@) == Some(m@),
            },
    {
        match (&self.event, &self.run_id, &self.run_name, &self.utc_time, &self.dispatcher) {
            (Some(event), Some(run_id), Some(run_name), Some(utc_time), Some(dispatcher)) => {
                if self.has_workflow {
                    Some(
                        Message {
                            event: event.clone(),
                            runId: run_id.clone(),
                            runName: run_name.clone(),
                            utcTime: utc_time.clone(),
                            metadata: Metadata {
                                parameters: Parameters { dispatcher: dispatcher.clone() },
                                workflow: Workflow { errorMessage: clone_opt(&self.error_message) },
                            },
                        },
                    )
                } else {
                    None
                }
            },
            _ => None,
        }
    }
}

/// The latest message of each run among the kept events of `msgs`, latest run first.
fn latest_per_run_reversed(msgs: &Vec<QueueMessage>, with_error: bool) -> (r: Vec<QueueMessage>)
    ensures
        queue_views(r@) == latest_per_run(queue_views(msgs@), with_error).reverse(),
{
    let ghost s = queue_views(msgs@);
    let mut picked: Vec<QueueMessage> = Vec::new();
    let mut seen: Vec<String> = Vec::new();
    let n = msgs.len();
    let mut i: usize = n;
    assert(s.skip(n as int) =~= Seq::<QueueMessageView>::empty());
    assert(queue_views(picked@) =~= latest_per_run(s.skip(n as int), with_error).reverse());
    while i > 0
        invariant
            n == msgs@.len(),
            s == queue_views(msgs@),
            i <= n,
            queue_views(picked@) == latest_per_run(s.skip(i as int), with_error).reverse(),
            forall|key: Seq<char>|
                #![trigger has_run(s.skip(i as int), key, with_error)]
                (exists|k: int| 0 <= k < seen@.len() && seen@[k]@ == key) <==> has_run(s.skip(i as int), key, with_error),
        decreases i,
    {
        let ghost old_tail = s.skip(i as int);
        let ghost old_seen = seen@;
        let m = &msgs[i - 1];
        let ghost t = s.skip(i - 1);
        assert(t.drop_first() =~= old_tail);
        assert(t[0] == m@);
        let keep = m.is_status_event(with_error);
        let mut already = false;
        if keep {
            let mut k: usize = 0;
            while k < seen.len()
                invariant
                    k <= seen@.len(),
                    already ==> exists|j: int| 0 <= j < seen@.len() && seen@[j]@ == m.run_key@,
                    !already ==> forall|j: int| 0 <= j < k ==> seen@[j]@ != m.run_key@,
                decreases seen@.len() - k,
            {
                if seen[k] == m.run_key {
                    already = true;
                }
                k += 1;
            }
            assert(already <==> has_run(old_tail, m.run_key@, with_error));
            if !already {
                let ghost old_picked = picked@;
                picked.push(m.copy());
                seen.push(m.run_key.clone());
                proof {
                    assert(latest_per_run(t, with_error) == seq![m@] + latest_per_run(old_tail, with_error));
                    assert((seq![m@] + latest_per_run(old_tail, with_error)).reverse() =~= latest_per_run(
                        old_tail,
                        with_error,
                    ).reverse().push(m@));
                    assert(queue_views(picked@) =~= queue_views(old_picked).push(m@));
                }
            }
        }
        proof {
            if !(keep && !already) {
                assert(latest_per_run(t, with_error) == latest_per_run(old_tail, with_error));
            }
            assert forall|key: Seq<char>|
                #![trigger has_run(t, key, with_error)]
                (exists|k: int| 0 <= k < seen@.len() && seen@[k]@ == key) <==> has_run(t, key, with_error) by {
                if has_run(t, key, with_error) {
                    let j = choose|j: int| 0 <= j < t.len() && is_status_event(t[j].event, with_error) && #[trigger] t[j].run_key == key;
                    if j > 0 {
                        assert(old_tail[j - 1] == t[j]);
                        assert(has_run(old_tail, key, with_error));
                        let k = choose|k: int| 0 <= k < old_seen.len() && old_seen[k]@ == key;
                        assert(seen@[k] == old_seen[k]);
                    } else if !already {
                        assert(seen@[seen@.len() - 1]@ == key);
                    } else {
                        assert(has_run(old_tail, key, with_error));
                        let k = choose|k: int| 0 <= k < old_seen.len() && old_seen[k]@ == key;
                        assert(seen@[k] == old_seen[k]);
                    }
                }
                if exists|k: int| 0 <= k < seen@.len() && seen@[k]@ == key {
                    let k = choose|k: int| 0 <= k < seen@.len() && seen@[k]@ == key;
                    if k < old_seen.len() {
                        assert(old_seen[k] == seen@[k]);
                        assert(has_run(old_tail, key, with_error));
                        let j = choose|j: int| 0 <= j < old_tail.len() && is_status_event(old_tail[j].event, with_error) && #[trigger] old_tail[j].run_key == key;
                        assert(t[j + 1] == old_tail[j]);
                    } else {
                        assert(t[0].run_key == key);
                    }
                }
            }
        }
        i -= 1;
    }
    assert(s.skip(0) =~= s);
    picked
}


/// The strict messages of `picked`, when every one of them can be read as a strict `Message`.
fn strict_all(picked: &Vec<QueueMessage>) -> (r: Option<Vec<Message>>)
    ensures
        match r {
            None => !all_strict(queue_views(picked@)),
            Some(v) => all_strict(queue_views(picked@)) && message_views(v@) == strict_messages(queue_views(picked@)),
        },
{
    let ghost s = queue_views(picked@);
    let mut out: Vec<Message> = Vec::new();
    let n = picked.len();
    let mut i: usize = 0;
    while i < n
        invariant
            n == picked@.len(),
            s == queue_views(picked@),
            i <= n,
            forall|j: int| 0 <= j < i ==> (#[trigger] as_message(s[j])) is Some,
            message_views(out@) == strict_messages(s.take(i as int)),
        decreases n - i,
    {
        assert(s[i as int] == picked@[i as int]@);
        match picked[i].as_message() {
            None => return None,
            Some(m) => {
                let ghost before = out@;
                out.push(m);
                assert(message_views(out@) =~= message_views(before).push(m@));
                assert(s.take(i + 1) =~= s.take(i as int).push(s[i as int]));
                assert(strict_messages(s.take(i + 1)) =~= strict_messages(s.take(i as int)).push(
                    as_message(s[i as int])->0,
                ));
            },
        }
        i += 1;
    }
    assert(s.take(n as int) =~= s);
    Some(out)
}

/// The reverse of `v`.
fn reversed(v: Vec<Message>) -> (r: Vec<Message>)
    ensures
        message_views(r@) == message_views(v@).reverse(),
{
    let mut v = v;
    let mut r: Vec<Message> = Vec::new();
    let ghost orig = message_views(v@);
    while v.len() > 0
        invariant
            orig.len() == message_views(r@).len() + v@.len(),
            message_views(v@) == orig.take(v@.len() as int),
            message_views(r@) == orig.reverse().take(r@.len() as int),
        decreases v@.len(),
    {
        let ghost before = r@;
        let ghost vb = v@;
        let m = v.pop().unwrap();
        r.push(m);
        assert(message_views(v@) =~= orig.take(v@.len() as int)) by {
            assert(message_views(vb).take(v@.len() as int) =~= message_views(v@));
        }
        assert(message_views(r@) =~= orig.reverse().take(r@.len() as int)) by {
            assert(message_views(r@) =~= message_views(before).push(m@));
            assert(message_views(vb)[v@.len() as int] == m@);
        }
    }
    assert(orig.reverse().take(orig.len() as int) =~= orig.reverse());
    r
}

impl AppServer {
    /// A queue message as a status report shows it: when it has no error message but an error
    /// report, the report becomes its error message; when it has either, its event becomes `error`.
    pub fn clean_nextflow_message(raw_msg: &QueueMessage) -> (r: QueueMessage)
        ensures
            r@ == clean(raw_msg@),
    {
        let filled = raw_msg.fill_error_message();
        if raw_msg.error_message.is_some() || raw_msg.error_report.is_some() {
            let mut r = filled;
            r.event = Some(owned("error"));
            r
        } else {
            raw_msg.copy()
        }
    }

    /// The messages taken from the queue, each as a status report shows it.
    pub fn get_status_message(raw_msgs: &Vec<QueueMessage>) -> (r: Vec<QueueMessage>)
        ensures
            queue_views(r@) == cleaned(queue_views(raw_msgs@)),
    {
        let mut out: Vec<QueueMessage> = Vec::new();
        let n = raw_msgs.len();
        let mut i: usize = 0;
        while i < n
            invariant
                n == raw_msgs@.len(),
                i <= n,
                queue_views(out@) == cleaned(queue_views(raw_msgs@).take(i as int)),
            decreases n - i,
        {
            let ghost before = out@;
            let c = Self::clean_nextflow_message(&raw_msgs[i]);
            out.push(c);
            assert(queue_views(out@) =~= queue_views(before).push(c@));
            assert(queue_views(raw_msgs@).take(i + 1) =~= queue_views(raw_msgs@).take(i as int).push(raw_msgs@[i as int]@));
            assert(cleaned(queue_views(raw_msgs@).take(i + 1)) =~= cleaned(queue_views(raw_msgs@).take(i as int)).push(clean(raw_msgs@[i as int]@)));
            i += 1;
        }
        assert(queue_views(raw_msgs@).take(n as int) =~= queue_views(raw_msgs@));
        out
    }

    /// Whether every message a status summary of `raw_msgs` picks can be read as a strict `Message`.
    pub fn status_summary_ready(raw_msgs: &Vec<QueueMessage>) -> (r: bool)
        ensures
            r == all_strict(summary_picks(queue_views(raw_msgs@))),
    {
        let msgs = Self::get_status_message(raw_msgs);
        let picked = latest_per_run_reversed(&msgs, true);
        proof {
            let p = summary_picks(queue_views(raw_msgs@));
            assert(queue_views(picked@) == p.reverse());
            assert(all_strict(p) <==> all_strict(p.reverse())) by {
                if all_strict(p) {
                    assert forall|i: int| 0 <= i < p.reverse().len() implies (#[trigger] as_message(p.reverse()[i])) is Some by {
                        assert(p.reverse()[i] == p[p.len() - 1 - i]);
                    }
                }
                if all_strict(p.reverse()) {
                    assert forall|i: int| 0 <= i < p.len() implies (#[trigger] as_message(p[i])) is Some by {
                        assert(p.reverse()[p.len() - 1 - i] == p[i]);
                    }
                }
            }
        }
        strict_all(&picked).is_some()
    }

    /// The status summary of the messages taken from the queue: for each run, its latest
    /// `started`, `completed` or `error` message as a status report shows it, read as a strict
    /// `Message`, in queue order.
    pub fn get_status_summary(raw_msgs: &Vec<QueueMessage>) -> (r: Vec<Message>)
        requires
            all_strict(summary_picks(queue_views(raw_msgs@))),
        ensures
            message_views(r@) == strict_messages(summary_picks(queue_views(raw_msgs@))),
    {
        let msgs = Self::get_status_message(raw_msgs);
        let picked = latest_per_run_reversed(&msgs, true);
        let ghost p = summary_picks(queue_views(raw_msgs@));
        proof {
            assert forall|i: int| 0 <= i < p.reverse().len() implies (#[trigger] as_message(p.reverse()[i])) is Some by {
                assert(p.reverse()[i] == p[p.len() - 1 - i]);
            }
        }
        let strict = strict_all(&picked).unwrap();
        let r = reversed(strict);
        proof {
            assert(strict_messages(p.reverse()).reverse() =~= strict_messages(p));
        }
        r
    }

    /// Whether a message posted to the status endpoint goes on to the queue: only `started`
    /// and `completed` events do.
    pub fn forwards_status_message(event: &Option<String>) -> (r: bool)
        ensures
            r == is_status_event(opt_view(*event), false),
    {
        opt_is(event, "started") || opt_is(event, "completed")
    }
}

impl App {
    /// The status update of the messages peeked from the queue: for each run, its latest
    /// `started` or `completed` message with its error report standing in for a missing error
    /// message, read as a strict `Message`, latest run first.
    pub fn generate_status_update(raw_msgs: &Vec<QueueMessage>) -> (r: Vec<Message>)
        requires
            all_strict(update_picks(queue_views(raw_msgs@))),
        ensures
            message_views(r@) == strict_messages(update_picks(queue_views(raw_msgs@))),
    {
        let picked = latest_per_run_reversed(raw_msgs, false);
        let mut filled: Vec<QueueMessage> = Vec::new();
        let n = picked.len();
        let mut i: usize = 0;
        while i < n
            invariant
                n == picked@.len(),
                i <= n,
                queue_views(filled@) == queue_views(picked@).take(i as int).map_values(
                    |m: QueueMessageView| fill_error_message(m),
                ),
            decreases n - i,
        {
            let ghost before = filled@;
            let f = picked[i].fill_error_message();
            filled.push(f);
            assert(queue_views(filled@) =~= queue_views(before).push(f@));
            assert(queue_views(picked@).take(i + 1) =~= queue_views(picked@).take(i as int).push(picked@[i as int]@));
            assert(queue_views(picked@).take(i + 1).map_values(|m: QueueMessageView| fill_error_message(m))
                =~= queue_views(picked@).take(i as int).map_values(|m: QueueMessageView| fill_error_message(m)).push(
                fill_error_message(picked@[i as int]@),
            ));
            i += 1;
        }
        assert(queue_views(picked@).take(n as int) =~= queue_views(picked@));
        strict_all(&filled).unwrap()
    }

    /// Whether every message a status update of `raw_msgs` picks can be read as a strict `Message`.
    pub fn status_update_ready(raw_msgs: &Vec<QueueMessage>) -> (r: bool)
        ensures
            r == all_strict(update_picks(queue_views(raw_msgs@))),
    {
        let picked = latest_per_run_reversed(raw_msgs, false);
        let mut i: usize = 0;
        let n = picked.len();
        while i < n
            invariant
                n == picked@.len(),
                i <= n,
                queue_views(picked@) == latest_per_run(queue_views(raw_msgs@), false).reverse(),
                forall|j: int| 0 <= j < i ==> (#[trigger] as_message(update_picks(queue_views(raw_msgs@))[j])) is Some,
            decreases n - i,
        {
            let f = picked[i].fill_error_message();
            assert(update_picks(queue_views(raw_msgs@))[i as int] == f@);
            if f.as_message().is_none() {
                return false;
            }
            i += 1;
        }
        true
    }
}

} // verus!
