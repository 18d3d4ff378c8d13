//! The tool that runs commands, and the one that tells the time.
use lite_agent::error::AgentError;
use lite_agent::ids::IdSource;
use lite_agent::kernel::events::SuspensionKind;
use lite_agent::kernel::projection::ThreadProjection;
use lite_agent::runtime::functions::{FunctionCallExecution, FunctionContext, FunctionRegistry};
use lite_agent::tools::exec_command::{
    ApprovalHandling, AuthorizationDecision, ExecAction, ExecCommandConfig, ExecCommandTool,
    ExecInput, ExecRequest, Shell, ThreadExecAuthorizer,
};
use lite_agent::tools::path::HostPath;
use lite_agent::tools::sandbox::{
    finished_output, SandboxError, SandboxOutput, SandboxPolicy, SandboxPolicyDimension,
    SandboxPreflight, SandboxStatus, SandboxWarning,
};
use lite_agent::tools::time::{register_time_tools, time_output, GetCurrentTime};
use serde_json::Value;

fn object(fields: &[(&str, Value)]) -> Value {
    Value::Object(fields.iter().map(|(name, value)| (name.to_string(), value.clone())).collect())
}

fn text(value: &str) -> Value {
    Value::String(value.to_string())
}

fn context() -> FunctionContext {
    FunctionContext {
        thread_id: "thread".to_string(),
        turn_id: "turn".to_string(),
        call_id: "call".to_string(),
        projection: ThreadProjection::default(),
    }
}

fn workspace() -> SandboxPolicy {
    SandboxPolicy::workspace_read_write(HostPath::from_text("/tmp"))
}

fn config(policy: SandboxPolicy) -> ExecCommandConfig {
    ExecCommandConfig::new("/tmp".to_string(), policy, Some("/bin".to_string()), None)
}

fn output(status: SandboxStatus) -> SandboxOutput {
    finished_output(status, b"out".to_vec(), b"err".to_vec(), Vec::new(), 1)
}

/// A sandbox and an authorizer that always answer the same.
struct Host {
    preflight: Result<SandboxPreflight, SandboxError>,
    decision: Result<AuthorizationDecision, AgentError>,
    result: Result<SandboxOutput, SandboxError>,
    timed_out: bool,
    launches: Vec<SandboxPolicy>,
}

impl Host {
    fn new(violation: bool, decision: AuthorizationDecision) -> Self {
        let preflight = if violation {
            SandboxPreflight::PolicyViolation { reason: "test policy violation".to_string() }
        } else {
            SandboxPreflight::Allowed
        };
        Host {
            preflight: Ok(preflight),
            decision: Ok(decision),
            result: Ok(output(SandboxStatus::Exited { code: 7 })),
            timed_out: false,
            launches: Vec::new(),
        }
    }

    fn call(
        &mut self,
        config: ExecCommandConfig,
        arguments: Value,
    ) -> Result<FunctionCallExecution, AgentError> {
        let tool = ExecCommandTool::new(config);
        let mut step = tool.begin(&arguments, &context(), IdSource::new())?;
        loop {
            let input = match step.action {
                ExecAction::Preflight(request) => {
                    assert_eq!(request.args[0], "-lc");
                    match self.preflight.clone() {
                        Ok(preflight) => ExecInput::Preflighted(preflight),
                        Err(error) => ExecInput::PreflightFailed(error),
                    }
                }
                ExecAction::Authorize { violation, .. } => {
                    assert_eq!(violation, "test policy violation");
                    match self.decision.clone() {
                        Ok(decision) => ExecInput::Authorized(decision),
                        Err(error) => ExecInput::AuthorizationFailed(error),
                    }
                }
                ExecAction::Run { request, .. } => {
                    self.launches.push(request.policy);
                    match self.result.clone() {
                        Ok(output) => ExecInput::Ran { output, timed_out: self.timed_out },
                        Err(error) => ExecInput::LaunchFailed(error),
                    }
                }
                ExecAction::Wait => panic!("the call waits for nothing"),
                ExecAction::Finish(execution) => return Ok(execution),
                ExecAction::Fail(error) => return Err(error),
            };
            step = step.run.step(input, step.ids);
        }
    }
}

fn deny() -> AuthorizationDecision {
    AuthorizationDecision::Deny { reason: "test".to_string() }
}

fn completed(execution: FunctionCallExecution) -> Value {
    match execution {
        FunctionCallExecution::Completed { output, effects } => {
            assert!(effects.is_empty());
            output
        }
        other => panic!("expected completed, got {other:?}"),
    }
}

#[test]
fn reports_non_zero_exit_as_execution_result() {
    let mut host = Host::new(false, deny());
    let arguments = object(&[("cmd", text("false"))]);
    let output = completed(host.call(config(SandboxPolicy::default()), arguments).unwrap());
    assert_eq!(output["success"], false);
    assert_eq!(output["status"]["code"], 7);
    assert_eq!(output["outcome"], "executed");
    assert_eq!(output["executed"], true);
    assert_eq!(output["stdout"], "out");
    assert_eq!(output["duration_ms"], 1);
    assert_eq!(host.launches, vec![SandboxPolicy::default()]);
}

#[test]
fn authorization_denial_prevents_execution() {
    let mut host = Host::new(true, deny());
    let arguments = object(&[("cmd", text("echo no"))]);
    let error = host.call(config(workspace()), arguments).unwrap_err();
    assert!(error.message().contains("command denied"));
    assert!(host.launches.is_empty());
}

#[test]
fn commands_without_text_are_refused() {
    let mut host = Host::new(false, deny());
    let error = host.call(config(workspace()), object(&[])).unwrap_err();
    assert!(matches!(
        error,
        AgentError::InvalidFunctionArguments { message, .. }
            if message == "missing string field: cmd"
    ));
    let blank = object(&[("cmd", text(" \t "))]);
    let error = host.call(config(workspace()), blank).unwrap_err();
    assert!(matches!(
        error,
        AgentError::InvalidFunctionArguments { message, .. } if message == "cmd must not be empty"
    ));
}

#[test]
fn approval_is_asked_for_or_refused() {
    let approval = AuthorizationDecision::RequireApproval { reason: "ask".to_string() };
    let arguments = object(&[("cmd", text("make"))]);
    let mut host = Host::new(true, approval);
    let error = host.call(config(workspace()), arguments.clone()).unwrap_err();
    assert!(error
        .message()
        .contains("command requires approval: ask; sandbox violation: test policy violation"));
    let waiting = config(workspace()).with_approval_handling(ApprovalHandling::Suspend);
    let execution = host.call(waiting, arguments).unwrap();
    let FunctionCallExecution::SuspendedBeforeExecution { suspension, .. } = execution else {
        panic!("expected suspension")
    };
    assert_eq!(suspension.kind, SuspensionKind::HumanApproval);
    assert_eq!(suspension.payload["command"], "make");
    assert_eq!(suspension.payload["deferred"], true);
    assert_eq!(suspension.payload["executed"], false);
    assert!(suspension.id.starts_with("suspension_"));
    assert!(host.launches.is_empty());
}

#[test]
fn an_allowed_command_runs_once_under_the_new_policy() {
    let other = SandboxPolicy::workspace_read_only(HostPath::from_text("/srv"));
    let mut host = Host::new(true, AuthorizationDecision::Allow { policy: other.clone() });
    let arguments = object(&[("cmd", text("make")), ("timeout_ms", Value::from(5u64))]);
    completed(host.call(config(workspace()), arguments.clone()).unwrap());
    assert_eq!(host.launches, vec![other.clone()]);

    let same = SandboxPolicy::workspace_read_write(HostPath::from_text("/tmp/./"));
    host.decision = Ok(AuthorizationDecision::Allow { policy: same });
    let error = host.call(config(workspace()), arguments.clone()).unwrap_err();
    assert!(error.message().contains("the same policy already rejected it"));
    assert_eq!(host.launches.len(), 1);

    host.decision = Ok(AuthorizationDecision::Allow { policy: other });
    host.result = Ok(output(SandboxStatus::PolicyViolation { reason: "still".to_string() }));
    let error = host.call(config(workspace()), arguments).unwrap_err();
    assert!(error.message().contains("command remained blocked after authorization: still"));
}

#[test]
fn failures_of_the_host_are_told() {
    let arguments = object(&[("cmd", text("make"))]);
    let mut host = Host::new(false, deny());
    host.result = Ok(output(SandboxStatus::PolicyViolation { reason: "late".to_string() }));
    let error = host.call(config(workspace()), arguments.clone()).unwrap_err();
    assert!(error.message().contains(
        "sandbox policy violation after command launch: late; command was not retried"
    ));
    assert_eq!(host.launches.len(), 1);
    host.result = Err(SandboxError::Launch("no shell".to_string()));
    let error = host.call(config(workspace()), arguments.clone()).unwrap_err();
    assert!(error.message().contains("sandbox launch failed: no shell"));
    host.preflight = Err(SandboxError::Io("broken".to_string()));
    let error = host.call(config(workspace()), arguments.clone()).unwrap_err();
    assert!(error.message().contains("sandbox preflight failed: sandbox I/O error: broken"));
    let mut host = Host::new(true, deny());
    host.decision = Err(AgentError::Model("lost".to_string()));
    let error = host.call(config(workspace()), arguments).unwrap_err();
    assert!(error.message().contains("authorization lookup failed: model error: lost"));
}

#[test]
fn a_command_that_takes_too_long_timed_out() {
    let arguments = object(&[("cmd", text("sleep 9"))]);
    let mut host = Host::new(false, deny());
    host.result = Ok(output(SandboxStatus::Cancelled));
    host.timed_out = true;
    let report = completed(host.call(config(workspace()), arguments.clone()).unwrap());
    assert_eq!(report["outcome"], "timed_out");
    assert_eq!(report["executed"], false);
    host.timed_out = false;
    let report = completed(host.call(config(workspace()), arguments.clone()).unwrap());
    assert_eq!(report["status"], object(&[("kind", text("cancelled"))]));
    host.result = Ok(output(SandboxStatus::Signaled { signal: 9 }));
    let report = completed(host.call(config(workspace()), arguments).unwrap());
    assert_eq!(report["status"]["signal"], 9);
    assert_eq!(report["executed"], true);
}

#[test]
fn long_output_is_cut_off_and_said_to_be() {
    let mut settings = config(workspace());
    settings.max_output_bytes = 2;
    let mut host = Host::new(false, deny());
    let warnings = vec![SandboxWarning {
        dimension: SandboxPolicyDimension::Process,
        message: "no isolation".to_string(),
    }];
    let exited = SandboxStatus::Exited { code: 0 };
    host.result = Ok(finished_output(exited, b"out".to_vec(), vec![255], warnings, 3));
    let report = completed(host.call(settings, object(&[("cmd", text("ls"))])).unwrap());
    assert_eq!(report["stdout"], "ou");
    assert_eq!(report["stdout_truncated"], true);
    assert_eq!(report["stderr"], "\u{fffd}");
    assert_eq!(report["stderr_truncated"], false);
    assert_eq!(report["warnings"], Value::Array(vec![text("no isolation")]));
    assert_eq!(report["success"], true);
}

#[test]
fn grants_hold_for_one_thread_and_one_command() {
    let mut authorizer = ThreadExecAuthorizer::default();
    let request = |command: &str| ExecRequest {
        command: command.to_string(),
        cwd: "/tmp".to_string(),
        shell: Shell::Sh,
        timeout_ms: 1,
    };
    let decide = |authorizer: &ThreadExecAuthorizer, thread: &str, command: &str| {
        authorizer.authorize(&request(command), thread)
    };
    authorizer.grant("a".to_string(), "make".to_string(), SandboxPolicy::default());
    authorizer.grant("a".to_string(), "make".to_string(), workspace());
    assert_eq!(
        decide(&authorizer, "a", "make"),
        AuthorizationDecision::Allow { policy: workspace() }
    );
    let unknown = AuthorizationDecision::RequireApproval {
        reason: "no grant exists for this command in the target thread".to_string(),
    };
    assert_eq!(decide(&authorizer, "b", "make"), unknown);
    assert_eq!(decide(&authorizer, "a", "make install"), unknown);
    authorizer.revoke("b", "make");
    assert_ne!(decide(&authorizer, "a", "make"), unknown);
    authorizer.revoke("a", "make");
    assert_eq!(decide(&authorizer, "a", "make"), unknown);
}

#[test]
fn shells_are_known_by_their_paths() {
    assert_eq!(Shell::detect(Some("/usr/bin/zsh")), Shell::Zsh);
    assert_eq!(Shell::detect(Some("/bin/bash")), Shell::Bash);
    assert_eq!(Shell::detect(Some("/usr/bin/fish")), Shell::Fish);
    assert_eq!(Shell::detect(Some("bash")), Shell::Sh);
    assert_eq!(Shell::detect(None), Shell::Sh);
    assert_eq!(Shell::Fish.path(), "/usr/bin/fish");
    assert_eq!(Shell::Sh.name(), "sh");
}

#[test]
fn the_tool_names_its_shell_and_examples() {
    let plain = ExecCommandTool::new(config(workspace()).with_shell(Shell::Bash));
    assert_eq!(plain.spec().name, "exec_command");
    assert!(plain.spec().description.starts_with("Run a command using the bash shell in"));
    assert!(plain.spec().description.ends_with("not a tool failure."));
    assert_eq!(plain.spec().parameters["required"], Value::Array(vec![text("cmd")]));
    assert_eq!(plain.spec().parameters["properties"]["timeout_ms"]["minimum"], 1);
    let examples = vec!["ls".to_string(), "cat".to_string()];
    let hinted = ExecCommandTool::new(config(workspace()).with_supported_commands(examples));
    assert!(hinted
        .spec()
        .description
        .ends_with(" Supported command examples: ls, cat."));
}

#[test]
fn exposes_current_time_as_an_ordinary_tool() {
    let spec = GetCurrentTime.spec();
    assert_eq!(spec.name, "get_current_time");
    assert_eq!(spec.parameters["additionalProperties"], false);
}

#[test]
fn returns_a_factual_tool_output_without_runtime_effects() {
    let mut registry: FunctionRegistry<GetCurrentTime> = FunctionRegistry::new();
    register_time_tools(&mut registry, GetCurrentTime);
    let tool = registry.get("get_current_time").expect("tool");
    let output = completed(tool.call());
    assert!(output["utc"].is_string());
    assert!(output["local"].is_string());
    assert!(output["unix_seconds"].is_number());
    assert!(output["unix_seconds"].as_i64().unwrap() > 1_600_000_000);
    assert!(output["utc"].as_str().unwrap().ends_with("+00:00"));
    let utc = chrono::DateTime::parse_from_rfc3339(output["utc"].as_str().unwrap()).expect("utc");
    assert_eq!(output["unix_seconds"].as_i64(), Some(utc.timestamp()));
    let local =
        chrono::DateTime::parse_from_rfc3339(output["local"].as_str().unwrap()).expect("local");
    assert!((local.timestamp() - utc.timestamp()).abs() <= 1);
    let again = completed(GetCurrentTime::default().call());
    assert!(again["unix_seconds"].as_i64() >= output["unix_seconds"].as_i64());
    let fixed = time_output("u", "l", -3);
    assert_eq!(fixed["utc"], "u");
    assert_eq!(fixed["local"], "l");
    assert_eq!(fixed["unix_seconds"], -3);
}
