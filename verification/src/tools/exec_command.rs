//! The tool that runs commands: who may run what, and what comes of it.
use crate::error::{self, AgentError, AgentErrorView};
use crate::ids::{self, IdSource};
use crate::json::{
    self, get_text, get_u64, int_value, list_value, text_list, text_value, u64_value, Fields, Json,
};
use crate::kernel::events::{Suspension, SuspensionKind, SuspensionView};
use crate::kernel::model::{FunctionSpec, FunctionSpecView};
use crate::runtime::functions::{
    self, FunctionCallExecution, FunctionCallExecutionView, FunctionContext,
};
use crate::runtime::resume;
use crate::text::{self, ends_with, join, joined, lossy_text_of, text_eq, trim};
use crate::tools::path::HostPath;
use crate::tools::sandbox::{
    self, EnvironmentVariable, EnvironmentVariableView, SandboxError, SandboxErrorView,
    SandboxOutput, SandboxOutputView, SandboxPolicy, SandboxPolicyView, SandboxPreflight,
    SandboxPreflightView, SandboxRequest, SandboxRequestView, SandboxStatus, SandboxStatusView,
    SandboxWarning,
};
use crate::views;
use serde_json::Value;
use vstd::prelude::*;

verus! {

/// The shell that a command is given to.
#[derive(Debug, Clone, Copy, PartialEq, Eq, Structural)]
pub enum Shell {
    Sh,
    Bash,
    Zsh,
    Fish,
}

/// What happens where a command needs approval: the turn waits for it, or the call
/// fails.
#[derive(Debug, Clone, Copy, PartialEq, Eq, Structural)]
pub enum ApprovalHandling {
    Suspend,
    ReturnToolError,
}

/// A command that is to be run.
#[derive(Debug, PartialEq)]
pub struct ExecRequest {
    pub command: String,
    pub cwd: String,
    pub shell: Shell,
    pub timeout_ms: u64,
}

/// What a `ExecRequest` holds.
#[verifier::ext_equal]
pub struct ExecRequestView {
    pub command: Seq<char>,
    pub cwd: Seq<char>,
    pub shell: Shell,
    pub timeout_ms: u64,
}

impl View for ExecRequest {
    type V = ExecRequestView;

    open spec fn view(&self) -> ExecRequestView {
        ExecRequestView {
            command: self.command@,
            cwd: self.cwd@,
            shell: self.shell,
            timeout_ms: self.timeout_ms,
        }
    }
}

impl Clone for ExecRequest {
    fn clone(&self) -> (r: Self)
        ensures
            r@ == self@,
    {
        ExecRequest {
            command: self.command.clone(),
            cwd: self.cwd.clone(),
            shell: self.shell,
            timeout_ms: self.timeout_ms,
        }
    }
}

/// What is decided about a command that its policy rejected.
#[derive(Debug, PartialEq)]
pub enum AuthorizationDecision {
    /// Run it under another policy.
    Allow { policy: SandboxPolicy },
    Deny { reason: String },
    RequireApproval { reason: String },
}

/// What a `AuthorizationDecision` holds.
#[verifier::ext_equal]
pub enum AuthorizationDecisionView {
    Allow { policy: SandboxPolicyView },
    Deny { reason: Seq<char> },
    RequireApproval { reason: Seq<char> },
}

impl View for AuthorizationDecision {
    type V = AuthorizationDecisionView;

    open spec fn view(&self) -> AuthorizationDecisionView {
        match *self {
            AuthorizationDecision::Allow { policy } => AuthorizationDecisionView::Allow {
                policy: policy@,
            },
            AuthorizationDecision::Deny { reason } => AuthorizationDecisionView::Deny {
                reason: reason@,
            },
            AuthorizationDecision::RequireApproval { reason } => {
                AuthorizationDecisionView::RequireApproval { reason: reason@ }
            },
        }
    }
}

impl Clone for AuthorizationDecision {
    fn clone(&self) -> (r: Self)
        ensures
            r@ == self@,
    {
        match self {
            AuthorizationDecision::Allow { policy } => AuthorizationDecision::Allow {
                policy: policy.clone(),
            },
            AuthorizationDecision::Deny { reason } => AuthorizationDecision::Deny {
                reason: reason.clone(),
            },
            AuthorizationDecision::RequireApproval { reason } => {
                AuthorizationDecision::RequireApproval { reason: reason.clone() }
            },
        }
    }
}

/// The policy under which a thread may run a command.
#[derive(Debug, PartialEq)]
pub struct Grant {
    pub thread_id: String,
    pub command: String,
    pub policy: SandboxPolicy,
}

/// What a `Grant` holds.
#[verifier::ext_equal]
pub struct GrantView {
    pub thread_id: Seq<char>,
    pub command: Seq<char>,
    pub policy: SandboxPolicyView,
}

impl View for Grant {
    type V = GrantView;

    open spec fn view(&self) -> GrantView {
        GrantView {
            thread_id: self.thread_id@,
            command: self.command@,
            policy: self.policy@,
        }
    }
}

impl Clone for Grant {
    fn clone(&self) -> (r: Self)
        ensures
            r@ == self@,
    {
        Grant {
            thread_id: self.thread_id.clone(),
            command: self.command.clone(),
            policy: self.policy.clone(),
        }
    }
}

impl Shell {
    /// The shell that the environment names by its path.
    pub fn detect(path: Option<&str>) -> (r: Self)
        ensures
            r == detected(
                match path {
                    Some(path) => Some(path@),
                    None => None,
                },
            ),
    {
        match path {
            Some(path) => if ends_with(path, "/bash") {
                Shell::Bash
            } else if ends_with(path, "/zsh") {
                Shell::Zsh
            } else if ends_with(path, "/fish") {
                Shell::Fish
            } else {
                Shell::Sh
            },
            None => Shell::Sh,
        }
    }

    /// Where the shell lies.
    pub fn path(self) -> (r: &'static str)
        ensures
            r@ == shell_path(self),
    {
        match self {
            Shell::Sh => "/bin/sh",
            Shell::Bash => "/bin/bash",
            Shell::Zsh => "/bin/zsh",
            Shell::Fish => "/usr/bin/fish",
        }
    }

    /// What the shell is called.
    pub fn name(self) -> (r: &'static str)
        ensures
            r@ == shell_name(self),
    {
        match self {
            Shell::Sh => "sh",
            Shell::Bash => "bash",
            Shell::Zsh => "zsh",
            Shell::Fish => "fish",
        }
    }
}

/// The shell that the environment names by its path.
pub open spec fn detected(path: Option<Seq<char>>) -> Shell {
    match path {
        Some(path) => if "/bash"@.is_suffix_of(path) {
            Shell::Bash
        } else if "/zsh"@.is_suffix_of(path) {
            Shell::Zsh
        } else if "/fish"@.is_suffix_of(path) {
            Shell::Fish
        } else {
            Shell::Sh
        },
        None => Shell::Sh,
    }
}

/// Where a shell lies.
pub open spec fn shell_path(shell: Shell) -> Seq<char> {
    match shell {
        Shell::Sh => "/bin/sh"@,
        Shell::Bash => "/bin/bash"@,
        Shell::Zsh => "/bin/zsh"@,
        Shell::Fish => "/usr/bin/fish"@,
    }
}

/// What a shell is called.
pub open spec fn shell_name(shell: Shell) -> Seq<char> {
    match shell {
        Shell::Sh => "sh"@,
        Shell::Bash => "bash"@,
        Shell::Zsh => "zsh"@,
        Shell::Fish => "fish"@,
    }
}

// ---------------------------------------------------------------------------
// Grants

/// The policy that was granted to a command in a thread, by the last grant.
pub open spec fn granted(
    grants: Seq<GrantView>,
    thread_id: Seq<char>,
    command: Seq<char>,
) -> Option<SandboxPolicyView>
    decreases grants.len(),
{
    if grants.len() == 0 {
        None
    } else if grants.last().thread_id == thread_id && grants.last().command == command {
        Some(grants.last().policy)
    } else {
        granted(grants.drop_last(), thread_id, command)
    }
}

/// The commands that were granted to threads, each with its policy. A grant holds
/// for exactly the text of a command.
#[derive(Debug)]
pub struct ThreadExecAuthorizer {
    pub grants: Vec<Grant>,
}

impl View for ThreadExecAuthorizer {
    type V = Map<(Seq<char>, Seq<char>), SandboxPolicyView>;

    open spec fn view(&self) -> Map<(Seq<char>, Seq<char>), SandboxPolicyView> {
        Map::new(
            |key: (Seq<char>, Seq<char>)| granted(views::all(self.grants@), key.0, key.1) is Some,
            |key: (Seq<char>, Seq<char>)| granted(views::all(self.grants@), key.0, key.1)->0,
        )
    }
}

impl Default for ThreadExecAuthorizer {
    fn default() -> (r: Self)
        ensures
            r@ == Map::<(Seq<char>, Seq<char>), SandboxPolicyView>::empty(),
    {
        let r = ThreadExecAuthorizer { grants: Vec::new() };
        assert(views::all(r.grants@) =~= Seq::<GrantView>::empty());
        assert(r@ =~= Map::<(Seq<char>, Seq<char>), SandboxPolicyView>::empty());
        r
    }
}

/// What is decided about a command in a thread.
pub open spec fn decision(
    grants: Map<(Seq<char>, Seq<char>), SandboxPolicyView>,
    thread_id: Seq<char>,
    command: Seq<char>,
) -> AuthorizationDecisionView {
    if grants.contains_key((thread_id, command)) {
        AuthorizationDecisionView::Allow { policy: grants[(thread_id, command)] }
    } else {
        AuthorizationDecisionView::RequireApproval {
            reason: "no grant exists for this command in the target thread"@,
        }
    }
}

impl ThreadExecAuthorizer {
    /// Forgets what was granted to a command in a thread.
    fn forget(&mut self, thread_id: &str, command: &str)
        ensures
            final(self)@ == old(self)@.remove((thread_id@, command@)),
    {
        let ghost before = views::all(self.grants@);
        let mut kept: Vec<Grant> = Vec::new();
        let mut i: usize = 0;
        assert(before.take(0) =~= Seq::<GrantView>::empty());
        assert(views::all(kept@) =~= Seq::<GrantView>::empty());
        while i < self.grants.len()
            invariant
                i <= self.grants@.len(),
                before == views::all(self.grants@),
                granted(views::all(kept@), thread_id@, command@) is None,
                forall|t: Seq<char>, c: Seq<char>|
                    !(t == thread_id@ && c == command@) ==> #[trigger] granted(
                        views::all(kept@),
                        t,
                        c,
                    ) == granted(before.take(i as int), t, c),
            decreases self.grants@.len() - i,
        {
            let ghost next = before.take(i + 1);
            let ghost sofar = views::all(kept@);
            assert(next.drop_last() =~= before.take(i as int));
            assert(next.last() == self.grants@[i as int]@);
            if !(text_eq(self.grants[i].thread_id.as_str(), thread_id) && text_eq(
                self.grants[i].command.as_str(),
                command,
            )) {
                kept.push(self.grants[i].clone());
                assert(views::all(kept@) =~= sofar.push(next.last()));
                assert(sofar.push(next.last()).drop_last() =~= sofar);
            }
            assert forall|t: Seq<char>, c: Seq<char>|
                !(t == thread_id@ && c == command@) implies #[trigger] granted(
                views::all(kept@),
                t,
                c,
            ) == granted(next, t, c) by {
                assert(granted(sofar, t, c) == granted(before.take(i as int), t, c));
            }
            i = i + 1;
        }
        assert(before.take(i as int) =~= before);
        self.grants = kept;
        assert(self@ =~= old(self)@.remove((thread_id@, command@)));
    }

    /// Grants a command to a thread under a policy.
    pub fn grant(&mut self, thread_id: String, command: String, policy: SandboxPolicy)
        ensures
            final(self)@ == old(self)@.insert((thread_id@, command@), policy@),
    {
        let ghost key = (thread_id@, command@);
        self.forget(thread_id.as_str(), command.as_str());
        let ghost before = views::all(self.grants@);
        let ghost less = self@;
        self.grants.push(Grant { thread_id, command, policy });
        let ghost after = views::all(self.grants@);
        assert(after.drop_last() =~= before);
        assert(self@ =~= less.insert(key, policy@));
        assert(self@ =~= old(self)@.insert(key, policy@));
    }

    /// Takes a grant back.
    pub fn revoke(&mut self, thread_id: &str, command: &str)
        ensures
            final(self)@ == old(self)@.remove((thread_id@, command@)),
    {
        self.forget(thread_id, command);
    }

    /// Decides about a command that its policy rejected.
    pub fn authorize(&self, request: &ExecRequest, thread_id: &str) -> (r: AuthorizationDecision)
        ensures
            r@ == decision(self@, thread_id@, request@.command),
    {
        let ghost all = views::all(self.grants@);
        let mut n: usize = self.grants.len();
        assert(all.take(n as int) =~= all);
        while n > 0
            invariant
                n <= self.grants@.len(),
                all == views::all(self.grants@),
                granted(all, thread_id@, request@.command) == granted(
                    all.take(n as int),
                    thread_id@,
                    request@.command,
                ),
            decreases n,
        {
            let ghost now = all.take(n as int);
            assert(now.drop_last() =~= all.take(n - 1));
            assert(now.last() == self.grants@[n - 1]@);
            n = n - 1;
            if text_eq(self.grants[n].thread_id.as_str(), thread_id) && text_eq(
                self.grants[n].command.as_str(),
                request.command.as_str(),
            ) {
                return AuthorizationDecision::Allow { policy: self.grants[n].policy.clone() };
            }
        }
        AuthorizationDecision::RequireApproval {
            reason: "no grant exists for this command in the target thread".to_string(),
        }
    }
}

/// What was granted last is what is allowed, until it is taken back; other
/// commands and other threads are not touched.
pub proof fn law_grants_are_apart(
    grants: Map<(Seq<char>, Seq<char>), SandboxPolicyView>,
    thread_id: Seq<char>,
    command: Seq<char>,
    policy: SandboxPolicyView,
    other_thread: Seq<char>,
    other_command: Seq<char>,
)
    ensures
        decision(grants.insert((thread_id, command), policy), thread_id, command) == (
        AuthorizationDecisionView::Allow { policy }),
        decision(grants.remove((thread_id, command)), thread_id, command) is RequireApproval,
        other_thread != thread_id || other_command != command ==> {
            &&& decision(grants.insert((thread_id, command), policy), other_thread, other_command)
                == decision(grants, other_thread, other_command)
            &&& decision(grants.remove((thread_id, command)), other_thread, other_command)
                == decision(grants, other_thread, other_command)
        },
{
}

// ---------------------------------------------------------------------------
// Settings

/// The settings of the tool that runs commands.
#[derive(Debug, PartialEq)]
pub struct ExecCommandConfig {
    pub cwd: String,
    pub shell: Shell,
    pub policy: SandboxPolicy,
    pub approval_handling: ApprovalHandling,
    pub environment: Vec<EnvironmentVariable>,
    pub supported_commands: Option<Vec<String>>,
    pub max_output_bytes: usize,
    pub default_timeout_ms: u64,
}

/// What an `ExecCommandConfig` holds.
#[verifier::ext_equal]
pub struct ExecCommandConfigView {
    pub cwd: Seq<char>,
    pub shell: Shell,
    pub policy: SandboxPolicyView,
    pub approval_handling: ApprovalHandling,
    pub environment: Seq<EnvironmentVariableView>,
    pub supported_commands: Option<Seq<Seq<char>>>,
    pub max_output_bytes: usize,
    pub default_timeout_ms: u64,
}

impl View for ExecCommandConfig {
    type V = ExecCommandConfigView;

    open spec fn view(&self) -> ExecCommandConfigView {
        ExecCommandConfigView {
            cwd: self.cwd@,
            shell: self.shell,
            policy: self.policy@,
            approval_handling: self.approval_handling,
            environment: views::all(self.environment@),
            supported_commands: match self.supported_commands {
                Some(commands) => Some(views::all(commands@)),
                None => None,
            },
            max_output_bytes: self.max_output_bytes,
            default_timeout_ms: self.default_timeout_ms,
        }
    }
}

impl Clone for ExecCommandConfig {
    fn clone(&self) -> (r: Self)
        ensures
            r@ == self@,
    {
        let supported_commands = match &self.supported_commands {
            Some(commands) => {
                let copy = commands.clone();
                assert(views::all(copy@) =~= views::all(commands@));
                Some(copy)
            },
            None => None,
        };
        let r = ExecCommandConfig {
            cwd: self.cwd.clone(),
            shell: self.shell,
            policy: self.policy.clone(),
            approval_handling: self.approval_handling,
            environment: self.environment.clone(),
            supported_commands,
            max_output_bytes: self.max_output_bytes,
            default_timeout_ms: self.default_timeout_ms,
        };
        assert(views::all(r.environment@) =~= views::all(self.environment@));
        r
    }
}

/// The settings of the tool unless it is told otherwise.
pub open spec fn configured(
    cwd: Seq<char>,
    policy: SandboxPolicyView,
    search_path: Option<Seq<char>>,
    shell_path: Option<Seq<char>>,
) -> ExecCommandConfigView {
    ExecCommandConfigView {
        cwd,
        shell: detected(shell_path),
        policy,
        approval_handling: ApprovalHandling::ReturnToolError,
        environment: match search_path {
            Some(value) => seq![EnvironmentVariableView { name: "PATH"@, value }],
            None => Seq::empty(),
        },
        supported_commands: None,
        max_output_bytes: 20971520,
        default_timeout_ms: 30000,
    }
}

impl ExecCommandConfig {
    /// The usual settings: 20 MiB of output, half a minute, and no approval while
    /// a command waits. `search_path` and `shell_path` are what the environment
    /// says of programs and of the shell.
    pub fn new(
        cwd: String,
        policy: SandboxPolicy,
        search_path: Option<String>,
        shell_path: Option<String>,
    ) -> (r: Self)
        ensures
            r@ == configured(cwd@, policy@, views::opt(search_path), views::opt(shell_path)),
    {
        let mut environment: Vec<EnvironmentVariable> = Vec::new();
        if let Some(value) = search_path {
            environment.push(EnvironmentVariable { name: "PATH".to_string(), value });
            assert(views::all(environment@) =~= seq![
                EnvironmentVariableView { name: "PATH"@, value: value@ },
            ]);
        } else {
            assert(views::all(environment@) =~= Seq::<EnvironmentVariableView>::empty());
        }
        let shell = match &shell_path {
            Some(path) => Shell::detect(Some(path.as_str())),
            None => Shell::detect(None),
        };
        ExecCommandConfig {
            cwd,
            shell,
            policy,
            approval_handling: ApprovalHandling::ReturnToolError,
            environment,
            supported_commands: None,
            max_output_bytes: 20971520,
            default_timeout_ms: 30000,
        }
    }

    /// What happens where a command needs approval.
    pub fn with_approval_handling(self, handling: ApprovalHandling) -> (r: Self)
        ensures
            r@ == (ExecCommandConfigView { approval_handling: handling, ..self@ }),
    {
        ExecCommandConfig { approval_handling: handling, ..self }
    }

    /// The shell that commands are given to.
    pub fn with_shell(self, shell: Shell) -> (r: Self)
        ensures
            r@ == (ExecCommandConfigView { shell, ..self@ }),
    {
        ExecCommandConfig { shell, ..self }
    }

    /// The commands that are named as examples.
    pub fn with_supported_commands(self, commands: Vec<String>) -> (r: Self)
        ensures
            r@ == (ExecCommandConfigView {
                supported_commands: Some(views::all(commands@)),
                ..self@
            }),
    {
        ExecCommandConfig { supported_commands: Some(commands), ..self }
    }
}

/// What is said of the commands that are named as examples.
pub open spec fn supported_hint(commands: Option<Seq<Seq<char>>>) -> Seq<char> {
    match commands {
        Some(commands) => if commands.len() > 0 {
            " Supported command examples: "@ + text::join_text(commands, ", "@) + "."@
        } else {
            Seq::empty()
        },
        None => Seq::empty(),
    }
}

/// The parameters of the tool.
pub open spec fn exec_parameters() -> Json {
    let none = Map::<Seq<char>, Json>::empty();
    functions::object_schema(
        functions::json_texts(seq!["cmd"@]),
        none.insert(
            "cmd"@,
            Json::Fields(
                none.insert("type"@, Json::Text("string"@)).insert(
                    "description"@,
                    Json::Text("Shell command to run."@),
                ),
            ),
        ).insert(
            "timeout_ms"@,
            Json::Fields(
                none.insert("type"@, Json::Text("integer"@)).insert(
                    "minimum"@,
                    Json::Int(1),
                ).insert("description"@, Json::Text("Optional timeout in milliseconds."@)),
            ),
        ),
    )
}

/// How the tool is offered to a model.
pub open spec fn exec_spec(config: ExecCommandConfigView) -> FunctionSpecView {
    FunctionSpecView {
        name: "exec_command"@,
        description: "Run a command using the "@ + shell_name(config.shell)
            + " shell in the configured working directory. Commands are subject to authorization and sandbox policy. A non-zero exit code is an execution result, not a tool failure."@
            + supported_hint(config.supported_commands),
        parameters: exec_parameters(),
    }
}

fn exec_parameters_value() -> (r: Value)
    ensures
        json::of(r) == exec_parameters(),
{
    let mut required: Vec<String> = Vec::new();
    required.push("cmd".to_string());
    let cmd = Fields::new().with_text("type", "string").with_text(
        "description",
        "Shell command to run.",
    ).value();
    let timeout = Fields::new().with_text("type", "integer").with(
        "minimum",
        u64_value(1),
    ).with_text("description", "Optional timeout in milliseconds.").value();
    let properties = Fields::new().with("cmd", cmd).with("timeout_ms", timeout).value();
    let list = text_list(&required);
    assert(required@.map_values(|t: String| Json::Text(t@)) =~= functions::json_texts(
        seq!["cmd"@],
    ));
    Fields::new().with_text("type", "object").with("required", list).with(
        "properties",
        properties,
    ).with_bool("additionalProperties", false).value()
}

/// The tool that runs commands.
#[derive(Debug)]
pub struct ExecCommandTool {
    pub config: ExecCommandConfig,
}

/// What a call waits for.
#[derive(Debug, PartialEq)]
pub enum ExecPhase {
    /// The sandbox checks the request.
    Checking,
    /// It is being decided about a command that the policy rejected.
    Deciding { violation: String },
    /// The command runs.
    Running,
    /// The command runs under a policy that was allowed.
    Retrying,
    Done,
}

/// What a `ExecPhase` holds.
#[verifier::ext_equal]
pub enum ExecPhaseView {
    Checking,
    Deciding { violation: Seq<char> },
    Running,
    Retrying,
    Done,
}

impl View for ExecPhase {
    type V = ExecPhaseView;

    open spec fn view(&self) -> ExecPhaseView {
        match *self {
            ExecPhase::Checking => ExecPhaseView::Checking,
            ExecPhase::Deciding { violation } => ExecPhaseView::Deciding { violation: violation@ },
            ExecPhase::Running => ExecPhaseView::Running,
            ExecPhase::Retrying => ExecPhaseView::Retrying,
            ExecPhase::Done => ExecPhaseView::Done,
        }
    }
}

impl Clone for ExecPhase {
    fn clone(&self) -> (r: Self)
        ensures
            r@ == self@,
    {
        match self {
            ExecPhase::Checking => ExecPhase::Checking,
            ExecPhase::Deciding { violation } => ExecPhase::Deciding {
                violation: violation.clone(),
            },
            ExecPhase::Running => ExecPhase::Running,
            ExecPhase::Retrying => ExecPhase::Retrying,
            ExecPhase::Done => ExecPhase::Done,
        }
    }
}

/// What came of an action.
#[derive(Debug, PartialEq)]
pub enum ExecInput {
    Preflighted(SandboxPreflight),
    PreflightFailed(SandboxError),
    Authorized(AuthorizationDecision),
    AuthorizationFailed(AgentError),
    /// The command is over; it may have been stopped because it took too long.
    Ran { output: SandboxOutput, timed_out: bool },
    LaunchFailed(SandboxError),
}

/// What a `ExecInput` holds.
#[verifier::ext_equal]
pub enum ExecInputView {
    Preflighted(SandboxPreflightView),
    PreflightFailed(SandboxErrorView),
    Authorized(AuthorizationDecisionView),
    AuthorizationFailed(AgentErrorView),
    Ran { output: SandboxOutputView, timed_out: bool },
    LaunchFailed(SandboxErrorView),
}

impl View for ExecInput {
    type V = ExecInputView;

    open spec fn view(&self) -> ExecInputView {
        match *self {
            ExecInput::Preflighted(inner) => ExecInputView::Preflighted(inner@),
            ExecInput::PreflightFailed(inner) => ExecInputView::PreflightFailed(inner@),
            ExecInput::Authorized(inner) => ExecInputView::Authorized(inner@),
            ExecInput::AuthorizationFailed(inner) => ExecInputView::AuthorizationFailed(inner@),
            ExecInput::Ran { output, timed_out } => ExecInputView::Ran {
                output: output@,
                timed_out,
            },
            ExecInput::LaunchFailed(inner) => ExecInputView::LaunchFailed(inner@),
        }
    }
}

impl Clone for ExecInput {
    fn clone(&self) -> (r: Self)
        ensures
            r@ == self@,
    {
        match self {
            ExecInput::Preflighted(inner) => ExecInput::Preflighted(inner.clone()),
            ExecInput::PreflightFailed(inner) => ExecInput::PreflightFailed(inner.clone()),
            ExecInput::Authorized(inner) => ExecInput::Authorized(inner.clone()),
            ExecInput::AuthorizationFailed(inner) => ExecInput::AuthorizationFailed(inner.clone()),
            ExecInput::Ran { output, timed_out } => ExecInput::Ran {
                output: output.clone(),
                timed_out: *timed_out,
            },
            ExecInput::LaunchFailed(inner) => ExecInput::LaunchFailed(inner.clone()),
        }
    }
}

/// What is to be done next.
#[derive(Debug, PartialEq)]
pub enum ExecAction {
    /// Let the sandbox check the request.
    Preflight(SandboxRequest),
    /// Have it decided about the command.
    Authorize { request: ExecRequest, policy: SandboxPolicy, violation: String },
    /// Run the command, and stop it after a time.
    Run { request: SandboxRequest, timeout_ms: u64 },
    /// Nothing new: the last action still stands.
    Wait,
    Finish(FunctionCallExecution),
    Fail(AgentError),
}

/// What a `ExecAction` holds.
#[verifier::ext_equal]
pub enum ExecActionView {
    Preflight(SandboxRequestView),
    Authorize { request: ExecRequestView, policy: SandboxPolicyView, violation: Seq<char> },
    Run { request: SandboxRequestView, timeout_ms: u64 },
    Wait,
    Finish(FunctionCallExecutionView),
    Fail(AgentErrorView),
}

impl View for ExecAction {
    type V = ExecActionView;

    open spec fn view(&self) -> ExecActionView {
        match *self {
            ExecAction::Preflight(inner) => ExecActionView::Preflight(inner@),
            ExecAction::Authorize { request, policy, violation } => ExecActionView::Authorize {
                request: request@,
                policy: policy@,
                violation: violation@,
            },
            ExecAction::Run { request, timeout_ms } => ExecActionView::Run {
                request: request@,
                timeout_ms,
            },
            ExecAction::Wait => ExecActionView::Wait,
            ExecAction::Finish(inner) => ExecActionView::Finish(inner@),
            ExecAction::Fail(inner) => ExecActionView::Fail(inner@),
        }
    }
}

impl Clone for ExecAction {
    fn clone(&self) -> (r: Self)
        ensures
            r@ == self@,
    {
        match self {
            ExecAction::Preflight(inner) => ExecAction::Preflight(inner.clone()),
            ExecAction::Authorize { request, policy, violation } => ExecAction::Authorize {
                request: request.clone(),
                policy: policy.clone(),
                violation: violation.clone(),
            },
            ExecAction::Run { request, timeout_ms } => ExecAction::Run {
                request: request.clone(),
                timeout_ms: *timeout_ms,
            },
            ExecAction::Wait => ExecAction::Wait,
            ExecAction::Finish(inner) => ExecAction::Finish(inner.clone()),
            ExecAction::Fail(inner) => ExecAction::Fail(inner.clone()),
        }
    }
}

/// A call of the tool under way.
#[derive(Debug, PartialEq)]
pub struct ExecRun {
    pub config: ExecCommandConfig,
    pub thread_id: String,
    pub call_id: String,
    pub request: ExecRequest,
    pub phase: ExecPhase,
}

/// What a `ExecRun` holds.
#[verifier::ext_equal]
pub struct ExecRunView {
    pub config: ExecCommandConfigView,
    pub thread_id: Seq<char>,
    pub call_id: Seq<char>,
    pub request: ExecRequestView,
    pub phase: ExecPhaseView,
}

impl View for ExecRun {
    type V = ExecRunView;

    open spec fn view(&self) -> ExecRunView {
        ExecRunView {
            config: self.config@,
            thread_id: self.thread_id@,
            call_id: self.call_id@,
            request: self.request@,
            phase: self.phase@,
        }
    }
}

impl Clone for ExecRun {
    fn clone(&self) -> (r: Self)
        ensures
            r@ == self@,
    {
        ExecRun {
            config: self.config.clone(),
            thread_id: self.thread_id.clone(),
            call_id: self.call_id.clone(),
            request: self.request.clone(),
            phase: self.phase.clone(),
        }
    }
}

/// What a step leads to.
#[derive(Debug)]
pub struct ExecStep {
    pub run: ExecRun,
    pub action: ExecAction,
    pub ids: IdSource,
}

/// What a `ExecStep` holds.
#[verifier::ext_equal]
pub struct ExecStepView {
    pub run: ExecRunView,
    pub action: ExecActionView,
    pub ids: IdSource,
}

impl View for ExecStep {
    type V = ExecStepView;

    open spec fn view(&self) -> ExecStepView {
        ExecStepView {
            run: self.run@,
            action: self.action@,
            ids: self.ids,
        }
    }
}

/// The request that a sandbox gets for a command.
pub open spec fn sandboxed(
    config: ExecCommandConfigView,
    request: ExecRequestView,
    policy: SandboxPolicyView,
) -> SandboxRequestView {
    SandboxRequestView {
        program: vstd::utf8::encode_utf8(shell_path(request.shell)),
        args: seq!["-lc"@, request.command],
        cwd: vstd::utf8::encode_utf8(request.cwd),
        environment: config.environment,
        policy,
    }
}

/// The output without what exceeds the limit.
pub open spec fn limited(output: SandboxOutputView, limit: usize) -> SandboxOutputView {
    SandboxOutputView {
        stdout: if output.stdout.len() > limit {
            output.stdout.take(limit as int)
        } else {
            output.stdout
        },
        stdout_truncated: output.stdout_truncated || output.stdout.len() > limit,
        stderr: if output.stderr.len() > limit {
            output.stderr.take(limit as int)
        } else {
            output.stderr
        },
        stderr_truncated: output.stderr_truncated || output.stderr.len() > limit,
        ..output
    }
}

/// The output of a command; one that was stopped because it took too long timed
/// out.
pub open spec fn timed(output: SandboxOutputView, timed_out: bool) -> SandboxOutputView {
    if timed_out && output.status is Cancelled {
        SandboxOutputView { status: SandboxStatusView::TimedOut, ..output }
    } else {
        output
    }
}

/// A status as a JSON object.
pub open spec fn status_content(status: SandboxStatusView) -> Json {
    let none = Map::<Seq<char>, Json>::empty();
    Json::Fields(
        match status {
            SandboxStatusView::Exited { code } => none.insert(
                "kind"@,
                Json::Text("exited"@),
            ).insert("code"@, Json::Int(code as int)),
            SandboxStatusView::Signaled { signal } => none.insert(
                "kind"@,
                Json::Text("signaled"@),
            ).insert("signal"@, Json::Int(signal as int)),
            SandboxStatusView::TimedOut => none.insert("kind"@, Json::Text("timed_out"@)),
            SandboxStatusView::Cancelled => none.insert("kind"@, Json::Text("cancelled"@)),
            SandboxStatusView::PolicyViolation { reason } => none.insert(
                "kind"@,
                Json::Text("policy_violation"@),
            ).insert("reason"@, Json::Text(reason)),
        },
    )
}

/// What came of a command, in a word.
pub open spec fn outcome_word(status: SandboxStatusView) -> Seq<char> {
    match status {
        SandboxStatusView::Exited { code } => "executed"@,
        SandboxStatusView::Signaled { signal } => "executed"@,
        SandboxStatusView::TimedOut => "timed_out"@,
        SandboxStatusView::Cancelled => "cancelled"@,
        SandboxStatusView::PolicyViolation { reason } => "policy_violation"@,
    }
}

/// The output of the tool for a command that is over.
pub open spec fn completed_content(request: ExecRequestView, output: SandboxOutputView) -> Json {
    Json::Fields(
        Map::<Seq<char>, Json>::empty().insert(
            "outcome"@,
            Json::Text(outcome_word(output.status)),
        ).insert(
            "executed"@,
            Json::Bool(output.status is Exited || output.status is Signaled),
        ).insert("cwd"@, Json::Text(request.cwd)).insert(
            "cmd"@,
            Json::Text(request.command),
        ).insert(
            "shell"@,
            Json::Text(shell_name(request.shell)),
        ).insert("status"@, status_content(output.status)).insert(
            "success"@,
            Json::Bool(output.status == (SandboxStatusView::Exited { code: 0 })),
        ).insert("stdout"@, Json::Text(text::lossy_text(output.stdout))).insert(
            "stderr"@,
            Json::Text(text::lossy_text(output.stderr)),
        ).insert("stdout_truncated"@, Json::Bool(output.stdout_truncated)).insert(
            "stderr_truncated"@,
            Json::Bool(output.stderr_truncated),
        ).insert(
            "warnings"@,
            Json::List(
                Seq::new(output.warnings.len(), |i: int| Json::Text(output.warnings[i].message)),
            ),
        ).insert("duration_ms"@, Json::Int(output.duration_ms as int)),
    )
}

/// What the user is asked to approve.
pub open spec fn approval_payload(
    run: ExecRunView,
    violation: Seq<char>,
    reason: Seq<char>,
) -> Json {
    Json::Fields(
        Map::<Seq<char>, Json>::empty().insert("tool"@, Json::Text("exec_command"@)).insert(
            "thread_id"@,
            Json::Text(run.thread_id),
        ).insert("call_id"@, Json::Text(run.call_id)).insert(
            "command"@,
            Json::Text(run.request.command),
        ).insert("cwd"@, Json::Text(run.request.cwd)).insert(
            "shell"@,
            Json::Text(shell_name(run.request.shell)),
        ).insert("reason"@, Json::Text(reason)).insert(
            "sandbox_violation"@,
            Json::Text(violation),
        ).insert("deferred"@, Json::Bool(true)).insert("attempted"@, Json::Bool(false)).insert(
            "executed"@,
            Json::Bool(false),
        ),
    )
}

/// An error of the tool.
pub open spec fn refusal(message: Seq<char>) -> AgentErrorView {
    AgentErrorView::Function { name: "exec_command"@, message }
}

/// The end of a step.
pub open spec fn proceed(
    run: ExecRunView,
    phase: ExecPhaseView,
    action: ExecActionView,
    ids: IdSource,
) -> ExecStepView {
    ExecStepView { run: ExecRunView { phase, ..run }, action, ids }
}

/// Ends the call with an error.
pub open spec fn fail(run: ExecRunView, message: Seq<char>, ids: IdSource) -> ExecStepView {
    proceed(run, ExecPhaseView::Done, ExecActionView::Fail(refusal(message)), ids)
}

/// A step in which nothing happens.
pub open spec fn wait(run: ExecRunView, ids: IdSource) -> ExecStepView {
    ExecStepView { run, action: ExecActionView::Wait, ids }
}

/// Runs the command under a policy.
pub open spec fn launch(
    run: ExecRunView,
    policy: SandboxPolicyView,
    phase: ExecPhaseView,
    ids: IdSource,
) -> ExecStepView {
    proceed(
        run,
        phase,
        ExecActionView::Run {
            request: sandboxed(run.config, run.request, policy),
            timeout_ms: run.request.timeout_ms,
        },
        ids,
    )
}

/// Ends the call with the output of a command that is over.
pub open spec fn complete(
    run: ExecRunView,
    output: SandboxOutputView,
    ids: IdSource,
) -> ExecStepView {
    proceed(
        run,
        ExecPhaseView::Done,
        ExecActionView::Finish(
            FunctionCallExecutionView::Completed {
                output: completed_content(run.request, output),
                effects: Seq::empty(),
            },
        ),
        ids,
    )
}

/// The command is over.
pub open spec fn ran(
    run: ExecRunView,
    phase: ExecPhaseView,
    output: SandboxOutputView,
    timed_out: bool,
    ids: IdSource,
) -> ExecStepView {
    let kept = limited(timed(output, timed_out), run.config.max_output_bytes);
    match kept.status {
        SandboxStatusView::PolicyViolation { reason } => if phase is Retrying {
            fail(run, "command remained blocked after authorization: "@ + reason, ids)
        } else {
            fail(
                run,
                "sandbox policy violation after command launch: "@ + reason
                    + "; command was not retried"@,
                ids,
            )
        },
        _ => complete(run, kept, ids),
    }
}

/// The command was rejected by its policy, and something was decided about it.
pub open spec fn decided(
    run: ExecRunView,
    violation: Seq<char>,
    decision: AuthorizationDecisionView,
    ids: IdSource,
) -> ExecStepView {
    match decision {
        AuthorizationDecisionView::Deny { reason } => fail(
            run,
            "command denied by authorization policy: "@ + reason + "; sandbox violation: "@
                + violation,
            ids,
        ),
        AuthorizationDecisionView::RequireApproval { reason } => {
            if run.config.approval_handling == ApprovalHandling::ReturnToolError {
                fail(
                    run,
                    "command requires approval: "@ + reason + "; sandbox violation: "@ + violation,
                    ids,
                )
            } else {
                proceed(
                    run,
                    ExecPhaseView::Done,
                    ExecActionView::Finish(
                        FunctionCallExecutionView::SuspendedBeforeExecution {
                            suspension: SuspensionView {
                                id: ids::id_text("suspension"@, ids),
                                kind: SuspensionKind::HumanApproval,
                                payload: approval_payload(run, violation, reason),
                            },
                            effects: Seq::empty(),
                        },
                    ),
                    ids::after(ids, 1),
                )
            }
        },
        AuthorizationDecisionView::Allow { policy } => {
            if sandbox::same_policy(policy, run.config.policy) {
                fail(
                    run,
                    "authorization allowed the command without changing the sandbox policy, but the same policy already rejected it"@,
                    ids,
                )
            } else {
                launch(run, policy, ExecPhaseView::Retrying, ids)
            }
        },
    }
}

/// The step that a call takes on an input. An input that the call does not wait
/// for changes nothing.
pub open spec fn next(run: ExecRunView, input: ExecInputView, ids: IdSource) -> ExecStepView {
    match (run.phase, input) {
        (ExecPhaseView::Checking, ExecInputView::Preflighted(preflight)) => match preflight {
            SandboxPreflightView::Allowed => launch(
                run,
                run.config.policy,
                ExecPhaseView::Running,
                ids,
            ),
            SandboxPreflightView::PolicyViolation { reason } => proceed(
                run,
                ExecPhaseView::Deciding { violation: reason },
                ExecActionView::Authorize {
                    request: run.request,
                    policy: run.config.policy,
                    violation: reason,
                },
                ids,
            ),
        },
        (ExecPhaseView::Checking, ExecInputView::PreflightFailed(e)) => fail(
            run,
            "sandbox preflight failed: "@ + sandbox::error_words(e),
            ids,
        ),
        (ExecPhaseView::Deciding { violation }, ExecInputView::Authorized(decision)) => decided(
            run,
            violation,
            decision,
            ids,
        ),
        (ExecPhaseView::Deciding { violation }, ExecInputView::AuthorizationFailed(e)) => fail(
            run,
            "authorization lookup failed: "@ + error::words(e),
            ids,
        ),
        (ExecPhaseView::Running, ExecInputView::Ran { output, timed_out }) => ran(
            run,
            run.phase,
            output,
            timed_out,
            ids,
        ),
        (ExecPhaseView::Retrying, ExecInputView::Ran { output, timed_out }) => ran(
            run,
            run.phase,
            output,
            timed_out,
            ids,
        ),
        (ExecPhaseView::Running, ExecInputView::LaunchFailed(e)) => fail(
            run,
            sandbox::error_words(e),
            ids,
        ),
        (ExecPhaseView::Retrying, ExecInputView::LaunchFailed(e)) => fail(
            run,
            sandbox::error_words(e),
            ids,
        ),
        _ => wait(run, ids),
    }
}

/// Arguments that the tool does not take.
pub open spec fn bad_arguments(message: Seq<char>) -> AgentErrorView {
    AgentErrorView::InvalidFunctionArguments { name: "exec_command"@, message }
}

/// The first step of a call.
pub open spec fn begin(
    config: ExecCommandConfigView,
    arguments: Json,
    thread_id: Seq<char>,
    call_id: Seq<char>,
    ids: IdSource,
) -> Result<ExecStepView, AgentErrorView> {
    match json::text_field(arguments, "cmd"@) {
        None => Err(bad_arguments("missing string field: cmd"@)),
        Some(command) => if text::trimmed(command).len() == 0 {
            Err(bad_arguments("cmd must not be empty"@))
        } else {
            let request = ExecRequestView {
                command,
                cwd: config.cwd,
                shell: config.shell,
                timeout_ms: match json::u64_field(arguments, "timeout_ms"@) {
                    Some(n) => n as u64,
                    None => config.default_timeout_ms,
                },
            };
            let run = ExecRunView {
                config,
                thread_id,
                call_id,
                request,
                phase: ExecPhaseView::Checking,
            };
            Ok(
                proceed(
                    run,
                    ExecPhaseView::Checking,
                    ExecActionView::Preflight(sandboxed(config, request, config.policy)),
                    ids,
                ),
            )
        },
    }
}

// ---------------------------------------------------------------------------

fn tool_error(message: String) -> (r: AgentError)
    ensures
        r@ == refusal(message@),
{
    AgentError::Function { name: "exec_command".to_string(), message }
}

fn status_json(status: &SandboxStatus) -> (r: Value)
    ensures
        json::of(r) == status_content(status@),
{
    match status {
        SandboxStatus::Exited { code } => Fields::new().with_text("kind", "exited").with(
            "code",
            int_value(*code as i64),
        ).value(),
        SandboxStatus::Signaled { signal } => Fields::new().with_text("kind", "signaled").with(
            "signal",
            int_value(*signal as i64),
        ).value(),
        SandboxStatus::TimedOut => Fields::new().with_text("kind", "timed_out").value(),
        SandboxStatus::Cancelled => Fields::new().with_text("kind", "cancelled").value(),
        SandboxStatus::PolicyViolation { reason } => Fields::new().with_text(
            "kind",
            "policy_violation",
        ).with_text("reason", reason.as_str()).value(),
    }
}

fn warning_list(warnings: &Vec<SandboxWarning>) -> (r: Value)
    ensures
        json::of(r) == Json::List(
            Seq::new(
                warnings@.len(),
                |i: int| Json::Text(views::all(warnings@)[i].message),
            ),
        ),
{
    let mut values: Vec<Value> = Vec::new();
    let mut i: usize = 0;
    while i < warnings.len()
        invariant
            i <= warnings@.len(),
            values@.len() == i,
            forall|k: int|
                0 <= k < i ==> json::of(#[trigger] values@[k]) == Json::Text(
                    warnings@[k]@.message,
                ),
        decreases warnings@.len() - i,
    {
        values.push(text_value(warnings[i].message.clone()));
        i = i + 1;
    }
    assert(json::all(values@) =~= Seq::new(
        warnings@.len(),
        |k: int| Json::Text(views::all(warnings@)[k].message),
    ));
    list_value(values)
}

impl ExecCommandTool {
    pub fn new(config: ExecCommandConfig) -> (r: Self)
        ensures
            r.config@ == config@,
    {
        ExecCommandTool { config }
    }

    /// How the tool is offered to a model.
    pub fn spec(&self) -> (r: FunctionSpec)
        ensures
            r@ == exec_spec(self.config@),
    {
        let mut description = "Run a command using the ".to_string();
        description.append(self.config.shell.name());
        description.append(
            " shell in the configured working directory. Commands are subject to authorization and sandbox policy. A non-zero exit code is an execution result, not a tool failure.",
        );
        let ghost before = description@;
        if let Some(commands) = &self.config.supported_commands {
            if commands.len() > 0 {
                let mut hint = " Supported command examples: ".to_string();
                hint.append(join(commands, ", ").as_str());
                assert(commands@.map_values(|p: String| p@) =~= views::all(commands@));
                hint.append(".");
                description.append(hint.as_str());
            }
        }
        assert(before + Seq::<char>::empty() =~= before);
        FunctionSpec {
            name: "exec_command".to_string(),
            description,
            parameters: exec_parameters_value(),
        }
    }

    /// Starts a call with the arguments that the model gave.
    pub fn begin(&self, arguments: &Value, context: &FunctionContext, ids: IdSource) -> (r: Result<
        ExecStep,
        AgentError,
    >)
        ensures
            views::res(r) == begin(
                self.config@,
                json::of(*arguments),
                context@.thread_id,
                context@.call_id,
                ids,
            ),
    {
        let command = match get_text(arguments, "cmd") {
            Some(command) => command,
            None => {
                return Err(
                    AgentError::InvalidFunctionArguments {
                        name: "exec_command".to_string(),
                        message: "missing string field: cmd".to_string(),
                    },
                );
            },
        };
        if trim(command.as_str()).as_str().unicode_len() == 0 {
            return Err(
                AgentError::InvalidFunctionArguments {
                    name: "exec_command".to_string(),
                    message: "cmd must not be empty".to_string(),
                },
            );
        }
        let timeout_ms = match get_u64(arguments, "timeout_ms") {
            Some(n) => n,
            None => self.config.default_timeout_ms,
        };
        let run = ExecRun {
            config: self.config.clone(),
            thread_id: context.thread_id.clone(),
            call_id: context.call_id.clone(),
            request: ExecRequest {
                command,
                cwd: self.config.cwd.clone(),
                shell: self.config.shell,
                timeout_ms,
            },
            phase: ExecPhase::Checking,
        };
        let request = run.sandbox_request(self.config.policy.clone());
        Ok(ExecStep { run, action: ExecAction::Preflight(request), ids })
    }
}

impl ExecRun {
    fn proceed(self, phase: ExecPhase, action: ExecAction, ids: IdSource) -> (r: ExecStep)
        ensures
            r@ == proceed(self@, phase@, action@, ids),
    {
        let mut run = self;
        run.phase = phase;
        ExecStep { run, action, ids }
    }

    fn fail(self, message: String, ids: IdSource) -> (r: ExecStep)
        ensures
            r@ == fail(self@, message@, ids),
    {
        self.proceed(ExecPhase::Done, ExecAction::Fail(tool_error(message)), ids)
    }

    /// The request that a sandbox gets for the command.
    fn sandbox_request(&self, policy: SandboxPolicy) -> (r: SandboxRequest)
        ensures
            r@ == sandboxed(self@.config, self@.request, policy@),
    {
        let mut args: Vec<String> = Vec::new();
        args.push("-lc".to_string());
        args.push(self.request.command.clone());
        assert(views::all(args@) =~= seq!["-lc"@, self.request.command@]);
        let environment = self.config.environment.clone();
        assert(views::all(environment@) =~= views::all(self.config.environment@));
        SandboxRequest {
            program: HostPath::from_text(self.request.shell.path()),
            args,
            cwd: HostPath::from_text(self.request.cwd.as_str()),
            environment,
            policy,
        }
    }

    fn launch(self, policy: SandboxPolicy, phase: ExecPhase, ids: IdSource) -> (r: ExecStep)
        ensures
            r@ == launch(self@, policy@, phase@, ids),
    {
        let request = self.sandbox_request(policy);
        let timeout_ms = self.request.timeout_ms;
        self.proceed(phase, ExecAction::Run { request, timeout_ms }, ids)
    }

    /// The output without what exceeds the limit.
    fn limit_output(&self, output: SandboxOutput) -> (r: SandboxOutput)
        ensures
            r@ == limited(output@, self@.config.max_output_bytes),
    {
        let mut output = output;
        let limit = self.config.max_output_bytes;
        if output.stdout.len() > limit {
            output.stdout.truncate(limit);
            output.stdout_truncated = true;
        }
        if output.stderr.len() > limit {
            output.stderr.truncate(limit);
            output.stderr_truncated = true;
        }
        output
    }

    fn completed_execution(&self, output: &SandboxOutput) -> (r: FunctionCallExecution)
        ensures
            r@ == (FunctionCallExecutionView::Completed {
                output: completed_content(self@.request, output@),
                effects: Seq::empty(),
            }),
    {
        broadcast use crate::views::group_views;

        let (outcome, executed) = match &output.status {
            SandboxStatus::Exited { code: _ } => ("executed", true),
            SandboxStatus::Signaled { signal: _ } => ("executed", true),
            SandboxStatus::TimedOut => ("timed_out", false),
            SandboxStatus::Cancelled => ("cancelled", false),
            SandboxStatus::PolicyViolation { reason: _ } => ("policy_violation", false),
        };
        let success = match &output.status {
            SandboxStatus::Exited { code } => *code == 0,
            _ => false,
        };
        let fields = Fields::new().with_text("outcome", outcome).with_bool(
            "executed",
            executed,
        ).with_text("cwd", self.request.cwd.as_str()).with_text(
            "cmd",
            self.request.command.as_str(),
        ).with_text("shell", self.request.shell.name()).with(
            "status",
            status_json(&output.status),
        ).with_bool("success", success).with_text(
            "stdout",
            lossy_text_of(output.stdout.as_slice()).as_str(),
        ).with_text("stderr", lossy_text_of(output.stderr.as_slice()).as_str()).with_bool(
            "stdout_truncated",
            output.stdout_truncated,
        ).with_bool("stderr_truncated", output.stderr_truncated).with(
            "warnings",
            warning_list(&output.warnings),
        ).with("duration_ms", u64_value(output.duration_ms));
        FunctionCallExecution::Completed { output: fields.value(), effects: Vec::new() }
    }

    fn ran(
        self,
        retrying: bool,
        output: SandboxOutput,
        timed_out: bool,
        ids: IdSource,
    ) -> (r: ExecStep)
        ensures
            r@ == ran(
                self@,
                if retrying {
                    ExecPhaseView::Retrying
                } else {
                    ExecPhaseView::Running
                },
                output@,
                timed_out,
                ids,
            ),
    {
        let mut output = output;
        if timed_out {
            if let SandboxStatus::Cancelled = output.status {
                output.status = SandboxStatus::TimedOut;
            }
        }
        let output = self.limit_output(output);
        if let SandboxStatus::PolicyViolation { reason } = &output.status {
            if retrying {
                let words = joined(
                    "command remained blocked after authorization: ",
                    reason.as_str(),
                );
                return self.fail(words, ids);
            }
            let mut words = joined(
                "sandbox policy violation after command launch: ",
                reason.as_str(),
            );
            words.append("; command was not retried");
            return self.fail(words, ids);
        }
        let execution = self.completed_execution(&output);
        self.proceed(ExecPhase::Done, ExecAction::Finish(execution), ids)
    }

    fn approval_request(&self, violation: &String, reason: &String) -> (r: Value)
        ensures
            json::of(r) == approval_payload(self@, violation@, reason@),
    {
        Fields::new().with_text("tool", "exec_command").with_text(
            "thread_id",
            self.thread_id.as_str(),
        ).with_text("call_id", self.call_id.as_str()).with_text(
            "command",
            self.request.command.as_str(),
        ).with_text("cwd", self.request.cwd.as_str()).with_text(
            "shell",
            self.request.shell.name(),
        ).with_text("reason", reason.as_str()).with_text(
            "sandbox_violation",
            violation.as_str(),
        ).with_bool("deferred", true).with_bool("attempted", false).with_bool(
            "executed",
            false,
        ).value()
    }

    fn handle_policy_violation(
        self,
        violation: String,
        decision: AuthorizationDecision,
        ids: IdSource,
    ) -> (r: ExecStep)
        ensures
            r@ == decided(self@, violation@, decision@, ids),
    {
        broadcast use crate::views::group_views;

        match decision {
            AuthorizationDecision::Deny { reason } => {
                let mut words = joined(
                    "command denied by authorization policy: ",
                    reason.as_str(),
                );
                words.append("; sandbox violation: ");
                words.append(violation.as_str());
                self.fail(words, ids)
            },
            AuthorizationDecision::RequireApproval { reason } => {
                if self.config.approval_handling == ApprovalHandling::ReturnToolError {
                    let mut words = joined("command requires approval: ", reason.as_str());
                    words.append("; sandbox violation: ");
                    words.append(violation.as_str());
                    return self.fail(words, ids);
                }
                let mut ids = ids;
                let payload = self.approval_request(&violation, &reason);
                let suspension = Suspension {
                    id: ids.issue("suspension"),
                    kind: SuspensionKind::HumanApproval,
                    payload,
                };
                self.proceed(
                    ExecPhase::Done,
                    ExecAction::Finish(
                        FunctionCallExecution::SuspendedBeforeExecution {
                            suspension,
                            effects: Vec::new(),
                        },
                    ),
                    ids,
                )
            },
            AuthorizationDecision::Allow { policy } => {
                if policy.same(&self.config.policy) {
                    return self.fail(
                        "authorization allowed the command without changing the sandbox policy, but the same policy already rejected it".to_string(),
                        ids,
                    );
                }
                self.launch(policy, ExecPhase::Retrying, ids)
            },
        }
    }

    /// The call without its phase, and the phase.
    fn take_phase(self) -> (r: (Self, ExecPhase))
        ensures
            r.0@ == (ExecRunView { phase: ExecPhaseView::Done, ..self@ }),
            r.1@ == self@.phase,
    {
        let mut run = self;
        let mut phase = ExecPhase::Done;
        core::mem::swap(&mut phase, &mut run.phase);
        (run, phase)
    }

    fn wait(self, phase: ExecPhase, ids: IdSource) -> (r: ExecStep)
        ensures
            r@ == wait(ExecRunView { phase: phase@, ..self@ }, ids),
    {
        self.proceed(phase, ExecAction::Wait, ids)
    }

    fn preflighted(self, preflight: SandboxPreflight, ids: IdSource) -> (r: ExecStep)
        ensures
            r@ == next(self@, ExecInputView::Preflighted(preflight@), ids),
    {
        let (run, phase) = self.take_phase();
        if let ExecPhase::Checking = phase {
            match preflight {
                SandboxPreflight::Allowed => {
                    let policy = run.config.policy.clone();
                    run.launch(policy, ExecPhase::Running, ids)
                },
                SandboxPreflight::PolicyViolation { reason } => {
                    let action = ExecAction::Authorize {
                        request: run.request.clone(),
                        policy: run.config.policy.clone(),
                        violation: reason.clone(),
                    };
                    run.proceed(ExecPhase::Deciding { violation: reason }, action, ids)
                },
            }
        } else {
            run.wait(phase, ids)
        }
    }

    fn authorized(self, decision: AuthorizationDecision, ids: IdSource) -> (r: ExecStep)
        ensures
            r@ == next(self@, ExecInputView::Authorized(decision@), ids),
    {
        let (run, phase) = self.take_phase();
        match phase {
            ExecPhase::Deciding { violation } => run.handle_policy_violation(
                violation,
                decision,
                ids,
            ),
            phase => run.wait(phase, ids),
        }
    }

    fn finished(self, output: SandboxOutput, timed_out: bool, ids: IdSource) -> (r: ExecStep)
        ensures
            r@ == next(self@, (ExecInputView::Ran { output: output@, timed_out }), ids),
    {
        let (run, phase) = self.take_phase();
        match phase {
            ExecPhase::Running => run.ran(false, output, timed_out, ids),
            ExecPhase::Retrying => run.ran(true, output, timed_out, ids),
            phase => run.wait(phase, ids),
        }
    }

    fn launch_failed(self, error: SandboxError, ids: IdSource) -> (r: ExecStep)
        ensures
            r@ == next(self@, ExecInputView::LaunchFailed(error@), ids),
    {
        let (run, phase) = self.take_phase();
        match phase {
            ExecPhase::Running => run.fail(error.message(), ids),
            ExecPhase::Retrying => run.fail(error.message(), ids),
            phase => run.wait(phase, ids),
        }
    }

    /// The step that the call takes on an input. An input that the call does not
    /// wait for changes nothing.
    pub fn step(self, input: ExecInput, ids: IdSource) -> (r: ExecStep)
        ensures
            r@ == next(self@, input@, ids),
    {
        match input {
            ExecInput::Preflighted(preflight) => self.preflighted(preflight, ids),
            ExecInput::PreflightFailed(error) => {
                let (run, phase) = self.take_phase();
                if let ExecPhase::Checking = phase {
                    run.fail(joined("sandbox preflight failed: ", error.message().as_str()), ids)
                } else {
                    run.wait(phase, ids)
                }
            },
            ExecInput::Authorized(decision) => self.authorized(decision, ids),
            ExecInput::AuthorizationFailed(error) => {
                let (run, phase) = self.take_phase();
                if let ExecPhase::Deciding { violation: _ } = phase {
                    run.fail(joined("authorization lookup failed: ", error.message().as_str()), ids)
                } else {
                    run.wait(phase, ids)
                }
            },
            ExecInput::Ran { output, timed_out } => self.finished(output, timed_out, ids),
            ExecInput::LaunchFailed(error) => self.launch_failed(error, ids),
        }
    }
}

// ---------------------------------------------------------------------------
// Laws

/// How far a call is from its end.
pub open spec fn distance(phase: ExecPhaseView) -> nat {
    match phase {
        ExecPhaseView::Checking => 3,
        ExecPhaseView::Deciding { violation } => 2,
        ExecPhaseView::Running => 1,
        ExecPhaseView::Retrying => 1,
        ExecPhaseView::Done => 0,
    }
}

/// Every step that is not a wait brings a call closer to its end, and a command
/// that was launched is never launched again.
pub proof fn law_one_launch(run: ExecRunView, input: ExecInputView, ids: IdSource)
    ensures
        ({
            let step = next(run, input, ids);
            &&& step.action is Wait || distance(step.run.phase) < distance(run.phase)
            &&& step.action is Wait ==> step.run == run && step.ids == ids
            &&& step.action is Run <==> (distance(run.phase) > 1 && distance(step.run.phase) == 1)
            &&& (step.action is Finish || step.action is Fail) <==> (distance(run.phase) > 0
                && distance(step.run.phase) == 0)
        }),
{
}

/// A command runs under the policy of the settings only where the sandbox found
/// nothing against it, and under another only where that was decided.
pub proof fn law_launched_as_allowed(run: ExecRunView, input: ExecInputView, ids: IdSource)
    requires
        next(run, input, ids).action is Run,
    ensures
        ({
            let policy = next(run, input, ids).action->Run_request.policy;
            ||| input == ExecInputView::Preflighted(SandboxPreflightView::Allowed) && policy
                == run.config.policy
            ||| input == ExecInputView::Authorized(AuthorizationDecisionView::Allow { policy })
                && !sandbox::same_policy(policy, run.config.policy)
        }),
{
}

/// A command that was denied, or that needs approval, does not run: the call ends.
pub proof fn law_refused_does_not_run(
    run: ExecRunView,
    decision: AuthorizationDecisionView,
    ids: IdSource,
)
    requires
        run.phase is Deciding,
        !(decision is Allow),
    ensures
        next(run, ExecInputView::Authorized(decision), ids).run.phase is Done,
        decision is Deny ==> next(run, ExecInputView::Authorized(decision), ids).action is Fail,
        decision is RequireApproval && run.config.approval_handling == ApprovalHandling::Suspend
            ==> {
            &&& next(
                run,
                ExecInputView::Authorized(decision),
                ids,
            ).action matches ExecActionView::Finish(execution)
            &&& execution is SuspendedBeforeExecution
        },
{
}

/// A command that awaits approval says which call it is and that it has not run:
/// this is what a resumption goes by.
pub proof fn law_approval_can_be_resumed(
    run: ExecRunView,
    violation: Seq<char>,
    reason: Seq<char>,
)
    ensures
        json::text_field(approval_payload(run, violation, reason), "call_id"@) == Some(run.call_id),
        resume::deferred(approval_payload(run, violation, reason)),
{
    reveal_strlit("call_id");
    reveal_strlit("deferred");
    reveal_strlit("command");
    reveal_strlit("cwd");
    reveal_strlit("shell");
    reveal_strlit("reason");
    reveal_strlit("sandbox_violation");
    reveal_strlit("attempted");
    reveal_strlit("executed");
    assert("call_id"@.len() == 7 && "deferred"@.len() == 8);
    assert("command"@[1] != "call_id"@[1]);
    assert("executed"@[0] != "deferred"@[0]);
}

/// What is kept of an output is its start, within the limit, and the output says
/// where something was cut off.
pub proof fn law_output_within_limit(output: SandboxOutputView, limit: usize)
    ensures
        limited(output, limit).stdout.len() <= limit,
        limited(output, limit).stderr.len() <= limit,
        limited(output, limit).stdout.is_prefix_of(output.stdout),
        limited(output, limit).stderr.is_prefix_of(output.stderr),
        limited(output, limit).stdout != output.stdout ==> limited(
            output,
            limit,
        ).stdout_truncated,
        limited(output, limit).stderr != output.stderr ==> limited(
            output,
            limit,
        ).stderr_truncated,
        limited(limited(output, limit), limit) == limited(output, limit),
{
    let kept = limited(output, limit);
    assert(kept.stdout =~= output.stdout.take(kept.stdout.len() as int));
    assert(kept.stderr =~= output.stderr.take(kept.stderr.len() as int));
}

} // verus!
