use vstd::prelude::*;
use crate::command::DispatchRequestPayload;
use crate::settings::AppVariables;
use crate::text::owned;

verus! {

/// The answer to a dispatch request.
pub struct DispatchResponsePayload {
    pub sub_id: String,
    pub rg_name: String,
    pub ci_name: String,
    pub ci_cmd: String,
    pub provisioning_state: String,
}

/// The body of a terminate request.
pub struct TerminateRequestPayload {
    pub ci_name: String,
}

/// The answer to a terminate request.
pub struct TerminateResponsePayload {
    pub sub_id: String,
    pub rg_name: String,
    pub ci_name: String,
    pub provisioning_state: String,
}

/// The body of a status request.
pub struct StatusRequestPayload {
    pub summary: bool,
    pub message_count: u8,
    pub dequeue: bool,
}

/// The parameters of a request URL that the handlers read.
pub struct QueryParameters {
    pub whatif: Option<bool>,
}

impl QueryParameters {
    /// Whether the request asks for a dry run; no `whatif` parameter means no.
    pub fn what_if(&self) -> (r: bool)
        ensures
            r == match self.whatif {
                Some(b) => b,
                None => false,
            },
    {
        match self.whatif {
            Some(b) => b,
            None => false,
        }
    }
}

impl DispatchRequestPayload {
    /// The example body the dispatch endpoint shows: placeholders, one parameter, auto delete.
    pub fn help() -> (r: DispatchRequestPayload)
        ensures
            r.config_uri@ == "String"@,
            r.pipeline_uri@ == "String"@,
            r.parameters_uri@ == "String"@,
            r.parameters_json matches Some(j) && j@ == "[{\"name\":\"String\",\"value\":\"Value\"}]"@,
            r.auto_delete,
    {
        DispatchRequestPayload {
            config_uri: owned("String"),
            pipeline_uri: owned("String"),
            parameters_uri: owned("String"),
            parameters_json: Some(owned("[{\"name\":\"String\",\"value\":\"Value\"}]")),
            auto_delete: true,
        }
    }
}

impl DispatchResponsePayload {
    /// The answer to a dispatch: where the container instance `deployment.0` was deployed, the
    /// command it runs, and the deployment's result `deployment.1`.
    pub fn new(variables: &AppVariables, deployment: (String, String), ci_cmd: String) -> (r: DispatchResponsePayload)
        ensures
            r.sub_id@ == variables.sub_id@,
            r.rg_name@ == variables.rg_name@,
            r.ci_name@ == deployment.0@,
            r.ci_cmd@ == ci_cmd@,
            r.provisioning_state@ == deployment.1@,
    {
        DispatchResponsePayload {
            sub_id: variables.sub_id.clone(),
            rg_name: variables.rg_name.clone(),
            ci_name: deployment.0,
            ci_cmd,
            provisioning_state: deployment.1,
        }
    }
}

impl TerminateRequestPayload {
    /// The example body the terminate endpoint shows.
    pub fn help() -> (r: TerminateRequestPayload)
        ensures
            r.ci_name@ == "String"@,
    {
        TerminateRequestPayload { ci_name: owned("String") }
    }
}

impl TerminateResponsePayload {
    /// The answer to a termination: where the container instance `deployment.0` was, and the
    /// deletion's result `deployment.1`.
    pub fn new(variables: &AppVariables, deployment: (String, String)) -> (r: TerminateResponsePayload)
        ensures
            r.sub_id@ == variables.sub_id@,
            r.rg_name@ == variables.rg_name@,
            r.ci_name@ == deployment.0@,
            r.provisioning_state@ == deployment.1@,
    {
        TerminateResponsePayload {
            sub_id: variables.sub_id.clone(),
            rg_name: variables.rg_name.clone(),
            ci_name: deployment.0,
            provisioning_state: deployment.1,
        }
    }
}

impl StatusRequestPayload {
    /// The example body the status endpoint shows: a summary of one message, dequeued.
    pub fn help() -> (r: StatusRequestPayload)
        ensures
            r.summary,
            r.message_count == 1,
            r.dequeue,
    {
        StatusRequestPayload { summary: true, message_count: 1, dequeue: true }
    }
}

/// The number of messages to read from the queue for a request of `count`; none for zero.
pub fn queue_read_count(count: u8) -> (r: Option<u8>)
    ensures
        r == if count < 1 { None::<u8> } else { Some(count) },
{
    if count < 1 {
        None
    } else {
        Some(count)
    }
}

} // verus!
