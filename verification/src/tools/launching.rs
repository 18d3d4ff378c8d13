//! What a call of the tool that runs commands hands to the sandbox, and what it
//! makes of what comes back.
use crate::error::{self, AgentErrorView};
use crate::ids::{self, IdSource};
use crate::json::Json;
use crate::kernel::events::SuspensionKind;
use crate::runtime::functions::FunctionCallExecutionView;
use crate::text;
use crate::tools::exec_command::{
    self, begin, next, ApprovalHandling, AuthorizationDecisionView, ExecActionView,
    ExecCommandConfigView, ExecInputView, ExecPhaseView, ExecRunView, ExecStepView, Shell,
};
use crate::tools::sandbox::{
    self, SandboxOutputView, SandboxPreflightView, SandboxRequestView, SandboxStatusView,
};
use vstd::prelude::*;

verus! {

/// The command that arguments give.
pub open spec fn command_in(arguments: Json) -> Option<Seq<char>> {
    match arguments {
        Json::Fields(fields) => if fields.contains_key("cmd"@) {
            match fields["cmd"@] {
                Json::Text(command) => Some(command),
                _ => None,
            }
        } else {
            None
        },
        _ => None,
    }
}

/// How long a command may take: what the arguments say, or else the settings.
pub open spec fn time_for(config: ExecCommandConfigView, arguments: Json) -> int {
    match arguments {
        Json::Fields(fields) => if fields.contains_key("timeout_ms"@) {
            match fields["timeout_ms"@] {
                Json::Int(n) => if 0 <= n <= u64::MAX {
                    n
                } else {
                    config.default_timeout_ms as int
                },
                _ => config.default_timeout_ms as int,
            }
        } else {
            config.default_timeout_ms as int
        },
        _ => config.default_timeout_ms as int,
    }
}

/// Where each shell lies.
pub open spec fn program_of(shell: Shell) -> Seq<char> {
    match shell {
        Shell::Sh => "/bin/sh"@,
        Shell::Bash => "/bin/bash"@,
        Shell::Zsh => "/bin/zsh"@,
        Shell::Fish => "/usr/bin/fish"@,
    }
}

/// Whether a sandbox is asked to give a command to the shell of the settings, in
/// their directory and with their environment.
pub open spec fn runs_command(
    request: SandboxRequestView,
    config: ExecCommandConfigView,
    command: Seq<char>,
) -> bool {
    &&& request.program == vstd::utf8::encode_utf8(program_of(config.shell))
    &&& request.args == seq!["-lc"@, command]
    &&& request.cwd == vstd::utf8::encode_utf8(config.cwd)
    &&& request.environment == config.environment
}

/// A call after the given inputs.
pub open spec fn after_inputs(
    run: ExecRunView,
    inputs: Seq<(ExecInputView, IdSource)>,
) -> ExecRunView
    decreases inputs.len(),
{
    if inputs.len() == 0 {
        run
    } else {
        let (input, ids) = inputs.last();
        next(after_inputs(run, inputs.drop_last()), input, ids).run
    }
}

proof fn lemma_call_stays(run: ExecRunView, inputs: Seq<(ExecInputView, IdSource)>)
    ensures
        after_inputs(run, inputs) == (ExecRunView {
            phase: after_inputs(run, inputs).phase,
            ..run
        }),
    decreases inputs.len(),
{
    if inputs.len() > 0 {
        lemma_call_stays(run, inputs.drop_last());
    }
}

/// A call is begun exactly where the arguments give a command that is not blank,
/// and the first thing that is asked is whether the sandbox takes it under the
/// policy of the settings.
pub proof fn law_call_begins_with_a_check(
    config: ExecCommandConfigView,
    arguments: Json,
    thread_id: Seq<char>,
    call_id: Seq<char>,
    ids: IdSource,
)
    ensures
        ({
            let begun = begin(config, arguments, thread_id, call_id, ids);
            let refused = |message: Seq<char>|
                Err::<ExecStepView, AgentErrorView>(
                    AgentErrorView::InvalidFunctionArguments { name: "exec_command"@, message },
                );
            match command_in(arguments) {
                None => begun == refused("missing string field: cmd"@),
                Some(command) => if text::trimmed(command).len() == 0 {
                    begun == refused("cmd must not be empty"@)
                } else {
                    &&& begun is Ok
                    &&& begun->Ok_0.ids == ids
                    &&& begun->Ok_0.run.phase is Checking
                    &&& begun->Ok_0.run.config == config
                    &&& begun->Ok_0.run.thread_id == thread_id
                    &&& begun->Ok_0.run.call_id == call_id
                    &&& begun->Ok_0.action matches ExecActionView::Preflight(request)
                    &&& runs_command(request, config, command)
                    &&& request.policy == config.policy
                },
            }
        }),
{
}

/// Whatever comes in during a call: everything that the sandbox is asked to run is
/// the command of the arguments, given to the shell of the settings in their
/// directory, for as long as the arguments or else the settings say; and it is that
/// command, under the policy of the settings, that has to be decided about.
pub proof fn law_the_command_is_what_runs(
    config: ExecCommandConfigView,
    arguments: Json,
    thread_id: Seq<char>,
    call_id: Seq<char>,
    ids: IdSource,
    inputs: Seq<(ExecInputView, IdSource)>,
    input: ExecInputView,
    later: IdSource,
)
    requires
        begin(config, arguments, thread_id, call_id, ids) is Ok,
    ensures
        ({
            let first = begin(config, arguments, thread_id, call_id, ids)->Ok_0;
            let command = command_in(arguments)->0;
            let run = after_inputs(first.run, inputs);
            &&& command_in(arguments) is Some
            &&& run.config == config
            &&& run.thread_id == thread_id
            &&& run.call_id == call_id
            &&& run.request.command == command
            &&& run.request.cwd == config.cwd
            &&& run.request.shell == config.shell
            &&& match next(run, input, later).action {
                ExecActionView::Preflight(request) => false,
                ExecActionView::Run { request, timeout_ms } => runs_command(
                    request,
                    config,
                    command,
                ) && timeout_ms == time_for(config, arguments),
                ExecActionView::Authorize { request, policy, violation } => {
                    &&& request.command == command
                    &&& request.cwd == config.cwd
                    &&& request.shell == config.shell
                    &&& request.timeout_ms == time_for(config, arguments)
                    &&& policy == config.policy
                    &&& input == ExecInputView::Preflighted(
                        SandboxPreflightView::PolicyViolation { reason: violation },
                    )
                },
                _ => true,
            }
        }),
{
    let first = begin(config, arguments, thread_id, call_id, ids)->Ok_0;
    lemma_call_stays(first.run, inputs);
}

/// Each thing that comes in where a call waits for it moves the call on: what the
/// sandbox allows runs, what it rejects is decided about, what was decided is done,
/// and every failure ends the call with its words.
pub proof fn law_call_moves_on(run: ExecRunView, input: ExecInputView, ids: IdSource)
    ensures
        ({
            let step = next(run, input, ids);
            let fails = |words: Seq<char>|
                step.run.phase is Done && step.ids == ids && step.action == ExecActionView::Fail(
                    AgentErrorView::Function { name: "exec_command"@, message: words },
                );
            match (run.phase, input) {
                (ExecPhaseView::Checking, ExecInputView::Preflighted(preflight)) => {
                    match preflight {
                        SandboxPreflightView::Allowed => step.run.phase is Running
                            && step.action is Run && step.action->Run_request.policy
                            == run.config.policy,
                        SandboxPreflightView::PolicyViolation { reason } => step.run.phase == (
                        ExecPhaseView::Deciding { violation: reason }) && step.action is Authorize,
                    }
                },
                (ExecPhaseView::Checking, ExecInputView::PreflightFailed(e)) => fails(
                    "sandbox preflight failed: "@ + sandbox::error_words(e),
                ),
                (ExecPhaseView::Deciding { violation }, ExecInputView::Authorized(decision)) => {
                    match decision {
                        AuthorizationDecisionView::Deny { reason } => fails(
                            "command denied by authorization policy: "@ + reason
                                + "; sandbox violation: "@ + violation,
                        ),
                        AuthorizationDecisionView::RequireApproval { reason } => {
                            if run.config.approval_handling == ApprovalHandling::ReturnToolError {
                                fails(
                                    "command requires approval: "@ + reason
                                        + "; sandbox violation: "@ + violation,
                                )
                            } else {
                                step.run.phase is Done && step.ids == ids::after(ids, 1)
                                    && asks_approval(step.action, run, violation, reason, ids)
                            }
                        },
                        AuthorizationDecisionView::Allow { policy } => {
                            if sandbox::same_policy(policy, run.config.policy) {
                                fails(
                                    "authorization allowed the command without changing the sandbox policy, but the same policy already rejected it"@,
                                )
                            } else {
                                step.run.phase is Retrying && step.action is Run
                                    && step.action->Run_request.policy == policy
                            }
                        },
                    }
                },
                (ExecPhaseView::Deciding { violation }, ExecInputView::AuthorizationFailed(e)) => {
                    fails("authorization lookup failed: "@ + error::words(e))
                },
                (ExecPhaseView::Running, ExecInputView::LaunchFailed(e)) => fails(
                    sandbox::error_words(e),
                ),
                (ExecPhaseView::Retrying, ExecInputView::LaunchFailed(e)) => fails(
                    sandbox::error_words(e),
                ),
                (ExecPhaseView::Running, ExecInputView::Ran { output, timed_out }) => {
                    match output.status {
                        SandboxStatusView::PolicyViolation { reason } => fails(
                            "sandbox policy violation after command launch: "@ + reason
                                + "; command was not retried"@,
                        ),
                        _ => step.run.phase is Done && step.ids == ids && gives(
                            step.action,
                            run,
                            output,
                            timed_out,
                        ),
                    }
                },
                (ExecPhaseView::Retrying, ExecInputView::Ran { output, timed_out }) => {
                    match output.status {
                        SandboxStatusView::PolicyViolation { reason } => fails(
                            "command remained blocked after authorization: "@ + reason,
                        ),
                        _ => step.run.phase is Done && step.ids == ids && gives(
                            step.action,
                            run,
                            output,
                            timed_out,
                        ),
                    }
                },
                _ => step.action is Wait && step.run == run && step.ids == ids,
            }
        }),
{
    lemma_output_fields();
    lemma_approval_fields();
    if let ExecInputView::Ran { output, timed_out } = input {
        let kept = exec_command::limited(
            exec_command::timed(output, timed_out),
            run.config.max_output_bytes,
        );
        assert(kept.stdout =~= head(output.stdout, run.config.max_output_bytes));
        assert(kept.stderr =~= head(output.stderr, run.config.max_output_bytes));
        let content = exec_command::completed_content(run.request, kept);
        assert(content matches Json::Fields(fields) && fields.dom() =~= output_names());
        assert(content matches Json::Fields(fields) && fields["warnings"@] matches Json::List(list)
            && forall|i: int|
            0 <= i < output.warnings.len() ==> #[trigger] list[i] == Json::Text(
                output.warnings[i].message,
            ));
        assert(status_says(exec_command::status_content(kept.status), kept.status));
    }
    if let ExecInputView::Authorized(AuthorizationDecisionView::RequireApproval { reason })
        = input {
        if let ExecPhaseView::Deciding { violation } = run.phase {
            let payload = exec_command::approval_payload(run, violation, reason);
            assert(payload matches Json::Fields(fields) && fields.dom() =~= approval_names());
        }
    }
}

/// The start of an output, up to a limit.
pub open spec fn head(bytes: Seq<u8>, limit: usize) -> Seq<u8> {
    if bytes.len() > limit {
        bytes.take(limit as int)
    } else {
        bytes
    }
}

/// The fields of a tool output.
pub open spec fn output_names() -> Set<Seq<char>> {
    set![
        "outcome"@,
        "executed"@,
        "cwd"@,
        "cmd"@,
        "shell"@,
        "status"@,
        "success"@,
        "stdout"@,
        "stderr"@,
        "stdout_truncated"@,
        "stderr_truncated"@,
        "warnings"@,
        "duration_ms"@,
    ]
}

/// What a shell is called.
pub open spec fn called(shell: Shell) -> Seq<char> {
    match shell {
        Shell::Sh => "sh"@,
        Shell::Bash => "bash"@,
        Shell::Zsh => "zsh"@,
        Shell::Fish => "fish"@,
    }
}

/// Whether a JSON object says how a command ended.
pub open spec fn status_says(value: Json, status: SandboxStatusView) -> bool {
    &&& value matches Json::Fields(fields)
    &&& match status {
        SandboxStatusView::Exited { code } => fields.dom() == set!["kind"@, "code"@]
            && fields["kind"@] == Json::Text("exited"@) && fields["code"@] == Json::Int(
            code as int,
        ),
        SandboxStatusView::Signaled { signal } => fields.dom() == set!["kind"@, "signal"@]
            && fields["kind"@] == Json::Text("signaled"@) && fields["signal"@] == Json::Int(
            signal as int,
        ),
        SandboxStatusView::TimedOut => fields.dom() == set!["kind"@] && fields["kind"@]
            == Json::Text("timed_out"@),
        SandboxStatusView::Cancelled => fields.dom() == set!["kind"@] && fields["kind"@]
            == Json::Text("cancelled"@),
        SandboxStatusView::PolicyViolation { reason } => fields.dom() == set!["kind"@, "reason"@]
            && fields["kind"@] == Json::Text("policy_violation"@) && fields["reason"@]
            == Json::Text(reason),
    }
}

/// Whether a call ends with what its command left: how it ended (one that was
/// stopped for its time timed out), what it wrote, as far as the limit goes and
/// with a note where more was cut off, each warning, and the time that it took.
pub open spec fn gives(
    action: ExecActionView,
    run: ExecRunView,
    output: SandboxOutputView,
    timed_out: bool,
) -> bool {
    let status = if timed_out && output.status is Cancelled {
        SandboxStatusView::TimedOut
    } else {
        output.status
    };
    let limit = run.config.max_output_bytes;
    &&& action matches ExecActionView::Finish(
        FunctionCallExecutionView::Completed { output: given, effects },
    )
    &&& effects.len() == 0
    &&& given matches Json::Fields(fields)
    &&& fields.dom() == output_names()
    &&& fields["outcome"@] == Json::Text(
        match status {
            SandboxStatusView::Exited { code } => "executed"@,
            SandboxStatusView::Signaled { signal } => "executed"@,
            SandboxStatusView::TimedOut => "timed_out"@,
            SandboxStatusView::Cancelled => "cancelled"@,
            SandboxStatusView::PolicyViolation { reason } => "policy_violation"@,
        },
    )
    &&& fields["executed"@] == Json::Bool(status is Exited || status is Signaled)
    &&& fields["cwd"@] == Json::Text(run.request.cwd)
    &&& fields["cmd"@] == Json::Text(run.request.command)
    &&& fields["shell"@] == Json::Text(called(run.request.shell))
    &&& status_says(fields["status"@], status)
    &&& fields["success"@] == Json::Bool(
        match status {
            SandboxStatusView::Exited { code } => code == 0,
            _ => false,
        },
    )
    &&& fields["stdout"@] == Json::Text(text::lossy_text(head(output.stdout, limit)))
    &&& fields["stderr"@] == Json::Text(text::lossy_text(head(output.stderr, limit)))
    &&& fields["stdout_truncated"@] == Json::Bool(
        output.stdout_truncated || output.stdout.len() > limit,
    )
    &&& fields["stderr_truncated"@] == Json::Bool(
        output.stderr_truncated || output.stderr.len() > limit,
    )
    &&& fields["duration_ms"@] == Json::Int(output.duration_ms as int)
    &&& fields["warnings"@] matches Json::List(list)
    &&& list.len() == output.warnings.len()
    &&& forall|i: int|
        0 <= i < list.len() ==> #[trigger] list[i] == Json::Text(output.warnings[i].message)
}

/// The fields of a request for approval.
pub open spec fn approval_names() -> Set<Seq<char>> {
    set![
        "tool"@,
        "thread_id"@,
        "call_id"@,
        "command"@,
        "cwd"@,
        "shell"@,
        "reason"@,
        "sandbox_violation"@,
        "deferred"@,
        "attempted"@,
        "executed"@,
    ]
}

/// Whether a call ends in a suspension that asks a human to approve its command,
/// and says which call it is and that it has not run.
pub open spec fn asks_approval(
    action: ExecActionView,
    run: ExecRunView,
    violation: Seq<char>,
    reason: Seq<char>,
    ids: IdSource,
) -> bool {
    &&& action matches ExecActionView::Finish(
        FunctionCallExecutionView::SuspendedBeforeExecution { suspension, effects },
    )
    &&& effects.len() == 0
    &&& suspension.kind == SuspensionKind::HumanApproval
    &&& suspension.id == ids::id_text("suspension"@, ids)
    &&& suspension.payload matches Json::Fields(fields)
    &&& fields.dom() == approval_names()
    &&& fields["tool"@] == Json::Text("exec_command"@)
    &&& fields["thread_id"@] == Json::Text(run.thread_id)
    &&& fields["call_id"@] == Json::Text(run.call_id)
    &&& fields["command"@] == Json::Text(run.request.command)
    &&& fields["cwd"@] == Json::Text(run.request.cwd)
    &&& fields["shell"@] == Json::Text(called(run.request.shell))
    &&& fields["reason"@] == Json::Text(reason)
    &&& fields["sandbox_violation"@] == Json::Text(violation)
    &&& fields["deferred"@] == Json::Bool(true)
    &&& fields["attempted"@] == Json::Bool(false)
    &&& fields["executed"@] == Json::Bool(false)
}

proof fn lemma_output_fields()
    ensures
        "kind"@ != "code"@,
        "kind"@ != "signal"@,
        "kind"@ != "reason"@,
        "outcome"@ != "success"@,
        "executed"@ != "warnings"@,
        "cwd"@ != "cmd"@,
        "status"@ != "stdout"@,
        "status"@ != "stderr"@,
        "stdout"@ != "stderr"@,
        "stdout_truncated"@ != "stderr_truncated"@,
        "outcome"@.len() == 7,
        "executed"@.len() == 8,
        "cwd"@.len() == 3,
        "cmd"@.len() == 3,
        "shell"@.len() == 5,
        "status"@.len() == 6,
        "success"@.len() == 7,
        "stdout"@.len() == 6,
        "stderr"@.len() == 6,
        "stdout_truncated"@.len() == 16,
        "stderr_truncated"@.len() == 16,
        "warnings"@.len() == 8,
        "duration_ms"@.len() == 11,
{
    reveal_strlit("outcome");
    reveal_strlit("executed");
    reveal_strlit("cwd");
    reveal_strlit("cmd");
    reveal_strlit("shell");
    reveal_strlit("status");
    reveal_strlit("success");
    reveal_strlit("stdout");
    reveal_strlit("stderr");
    reveal_strlit("stdout_truncated");
    reveal_strlit("stderr_truncated");
    reveal_strlit("warnings");
    reveal_strlit("duration_ms");
    reveal_strlit("kind");
    reveal_strlit("code");
    reveal_strlit("signal");
    reveal_strlit("reason");
    assert("kind"@[0] != "code"@[0]);
    assert("kind"@.len() == 4 && "signal"@.len() == 6 && "reason"@.len() == 6);
    assert("outcome"@[0] != "success"@[0]);
    assert("executed"@[0] != "warnings"@[0]);
    assert("cwd"@[1] != "cmd"@[1]);
    assert("status"@[2] != "stdout"@[2]);
    assert("status"@[2] != "stderr"@[2]);
    assert("stdout"@[3] != "stderr"@[3]);
    assert("stdout_truncated"@[3] != "stderr_truncated"@[3]);
}

proof fn lemma_approval_fields()
    ensures
        "call_id"@ != "command"@,
        "thread_id"@ != "attempted"@,
        "deferred"@ != "executed"@,
        "tool"@.len() == 4,
        "thread_id"@.len() == 9,
        "call_id"@.len() == 7,
        "command"@.len() == 7,
        "cwd"@.len() == 3,
        "shell"@.len() == 5,
        "reason"@.len() == 6,
        "sandbox_violation"@.len() == 17,
        "deferred"@.len() == 8,
        "attempted"@.len() == 9,
        "executed"@.len() == 8,
{
    reveal_strlit("tool");
    reveal_strlit("thread_id");
    reveal_strlit("call_id");
    reveal_strlit("command");
    reveal_strlit("cwd");
    reveal_strlit("shell");
    reveal_strlit("reason");
    reveal_strlit("sandbox_violation");
    reveal_strlit("deferred");
    reveal_strlit("attempted");
    reveal_strlit("executed");
    assert("call_id"@[1] != "command"@[1]);
    assert("thread_id"@[0] != "attempted"@[0]);
    assert("deferred"@[0] != "executed"@[0]);
}

} // verus!
