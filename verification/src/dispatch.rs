//! The task dispatcher's decisions: a request either short-circuits to an
//! error response when validation rejects its command, or yields the built
//! command line and the effective timeout for the execution runner. The
//! runner's outcome — the child's stdout on success, its stderr on a
//! non-zero exit, or a synthesized launch diagnostic — is wrapped into a
//! response whose status is "success" either way; only a validation
//! rejection produces the "error" status.
use vstd::prelude::*;
use crate::builder::{
    TaskRequest, build_command, built_spec, encoding_view,
};
use crate::validate::{validate_ok, denied, has_token, first_token, allowed_base};

verus! {

/// The timeout, in seconds, used when a request names none.
pub const DEFAULT_TIMEOUT_SECS: u64 = 5;

/// The response envelope of a task request.
pub struct TaskResponse {
    pub status: String,
    pub output: String,
    pub execution_time: u64,
}

/// What the dispatcher decides for a request: reject it with a ready error
/// response and spawn nothing, or execute a built command under a timeout.
pub enum TaskPlan {
    Reject(TaskResponse),
    Execute { command: String, timeout: u64 },
}

/// The effective timeout of a request: its own, or the default.
pub open spec fn effective_timeout(t: Option<u64>) -> u64 {
    match t {
        Some(secs) => secs,
        None => DEFAULT_TIMEOUT_SECS,
    }
}

/// Decides a request: when validation rejects the raw command, the plan is
/// a rejection whose response carries the "error" status, the validator's
/// reason as output, and zero execution time, and no command is handed out
/// for execution; otherwise the plan carries the built command and the
/// request's timeout (or the default).
pub fn plan_task(task: &TaskRequest) -> (p: TaskPlan)
    ensures
        (p matches TaskPlan::Execute { command, timeout }) <==> validate_ok(task.command@),
        p matches TaskPlan::Execute { command, timeout } ==> command@ == built_spec(
            task.command@,
            task.parameters@,
            encoding_view(&task.encoding),
        ) && timeout == effective_timeout(task.timeout),
        p matches TaskPlan::Reject(resp) ==> resp.status@ == "error"@ && resp.execution_time
            == 0,
        denied(task.command@) ==> (p matches TaskPlan::Reject(resp) && resp.output@
            == "Dangerous command detected"@),
        !denied(task.command@) && !has_token(task.command@) ==> (p matches TaskPlan::Reject(resp)
            && resp.output@ == "Empty command"@),
        !denied(task.command@) && has_token(task.command@) && !allowed_base(
            first_token(task.command@),
        ) ==> (p matches TaskPlan::Reject(resp) && resp.output@ == "Command not in allowlist"@),
{
    match build_command(task) {
        Ok(command) => {
            let timeout = match task.timeout {
                Some(secs) => secs,
                None => DEFAULT_TIMEOUT_SECS,
            };
            TaskPlan::Execute { command, timeout }
        },
        Err(reason) => TaskPlan::Reject(
            TaskResponse { status: "error".to_owned(), output: reason, execution_time: 0 },
        ),
    }
}

/// What the execution runner observed: the child ran to an exit, with its
/// exit status and both captured streams, or it could not be launched at
/// all, with a diagnostic describing the failure.
pub enum LaunchOutcome {
    Completed { exit_ok: bool, stdout: String, stderr: String },
    Failed { diagnostic: String },
}

/// Decides the response text of an execution outcome: the child's stdout
/// when it exited successfully, its stderr when it exited with a failure
/// status (stdout is discarded in that branch), and the launch diagnostic
/// when no process could be spawned.
pub fn execution_output(outcome: LaunchOutcome) -> (r: String)
    ensures
        outcome matches LaunchOutcome::Completed { exit_ok, stdout, stderr } ==> r@ == (
        if exit_ok {
            stdout@
        } else {
            stderr@
        }),
        outcome matches LaunchOutcome::Failed { diagnostic } ==> r@ == diagnostic@,
{
    match outcome {
        LaunchOutcome::Completed { exit_ok, stdout, stderr } => {
            if exit_ok {
                stdout
            } else {
                stderr
            }
        },
        LaunchOutcome::Failed { diagnostic } => diagnostic,
    }
}

/// Wraps an execution outcome into the response envelope: whatever text the
/// runner captured (the child's stdout, its stderr on a failing exit, or a
/// launch diagnostic) becomes the output of a "success" response with the
/// measured elapsed time.
pub fn completion_response(output: String, elapsed_ms: u64) -> (r: TaskResponse)
    ensures
        r.status@ == "success"@,
        r.output@ == output@,
        r.execution_time == elapsed_ms,
{
    TaskResponse { status: "success".to_owned(), output, execution_time: elapsed_ms }
}

} // verus!
