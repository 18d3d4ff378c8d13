//! How the tools are set up and offered to a model, and what the clock's tool answers.
use crate::json::Json;
use crate::repl;
use crate::runtime::functions;
use crate::runtime::keeping::{self, asks_for};
use crate::text;
use crate::tools::exec_command::{
    self, ApprovalHandling, ExecCommandConfigView, Shell,
};
use crate::tools::sandbox::{self, SandboxErrorView, SandboxPolicyView};
use crate::tools::time;
use vstd::prelude::*;

verus! {

/// The shell is the one that the path of the environment ends in, where that is one
/// of those that are known; else it is the plain one.
pub proof fn law_shell_of_the_environment(directory: Seq<char>, path: Seq<char>)
    ensures
        exec_command::detected(Some(directory + "/bash"@)) == Shell::Bash,
        exec_command::detected(Some(directory + "/zsh"@)) == Shell::Zsh,
        exec_command::detected(Some(directory + "/fish"@)) == Shell::Fish,
        exec_command::detected(Some(directory + "/sh"@)) == Shell::Sh,
        exec_command::detected(None) == Shell::Sh,
        exec_command::detected(Some(path)) == Shell::Bash ==> "/bash"@.is_suffix_of(path),
        exec_command::detected(Some(path)) == Shell::Zsh ==> "/zsh"@.is_suffix_of(path),
        exec_command::detected(Some(path)) == Shell::Fish ==> "/fish"@.is_suffix_of(path),
{
    reveal_strlit("/bash");
    reveal_strlit("/zsh");
    reveal_strlit("/fish");
    reveal_strlit("/sh");
    let bash = directory + "/bash"@;
    let zsh = directory + "/zsh"@;
    let fish = directory + "/fish"@;
    let sh = directory + "/sh"@;
    let n = directory.len() as int;
    assert("/bash"@ =~= bash.subrange(n, n + 5));
    assert("/zsh"@ =~= zsh.subrange(n, n + 4));
    assert("/fish"@ =~= fish.subrange(n, n + 5));
    assert(zsh[n + 2] == 's' && fish[n + 3] == 's' && sh[n] == '/');
    lemma_ends(bash);
    lemma_ends(zsh);
    lemma_ends(fish);
    lemma_ends(sh);
    assert(zsh[n] == '/' && zsh[n + 1] == 'z');
    assert(fish[n + 1] == 'f' && fish[n + 2] == 'i');
    assert(sh[n + 1] == 's');
}

/// The characters that a path ends in, where it ends in the name of a shell.
proof fn lemma_ends(path: Seq<char>)
    ensures
        "/bash"@.is_suffix_of(path) ==> path.len() >= 5 && path[path.len() - 3] == 'a'
            && path[path.len() - 4] == 'b',
        "/zsh"@.is_suffix_of(path) ==> path.len() >= 4 && path[path.len() - 3] == 'z',
        "/fish"@.is_suffix_of(path) ==> path.len() >= 5 && path[path.len() - 3] == 'i'
            && path[path.len() - 4] == 'f',
{
    reveal_strlit("/bash");
    reveal_strlit("/zsh");
    reveal_strlit("/fish");
    let m = path.len() as int;
    if "/bash"@.is_suffix_of(path) {
        let tail = path.subrange(m - 5, m);
        assert(tail[1] == path[m - 4] && tail[2] == path[m - 3]);
    }
    if "/zsh"@.is_suffix_of(path) {
        let tail = path.subrange(m - 4, m);
        assert(tail[1] == path[m - 3]);
    }
    if "/fish"@.is_suffix_of(path) {
        let tail = path.subrange(m - 5, m);
        assert(tail[1] == path[m - 4] && tail[2] == path[m - 3]);
    }
}

/// Unless it is told otherwise, the tool runs commands where it was set up, under
/// the policy that it was given, for half a minute and with twenty mebibytes of
/// output, with the search path and nothing else in the environment; and a call
/// that needs approval fails.
pub proof fn law_tool_is_set_up(
    cwd: Seq<char>,
    policy: SandboxPolicyView,
    search_path: Option<Seq<char>>,
    shell_path: Option<Seq<char>>,
)
    ensures
        ({
            let config = exec_command::configured(cwd, policy, search_path, shell_path);
            &&& config.cwd == cwd
            &&& config.policy == policy
            &&& config.shell == exec_command::detected(shell_path)
            &&& config.approval_handling == ApprovalHandling::ReturnToolError
            &&& match search_path {
                Some(value) => config.environment.len() == 1 && config.environment[0].name
                    == "PATH"@ && config.environment[0].value == value,
                None => config.environment.len() == 0,
            }
            &&& config.supported_commands is None
            &&& config.max_output_bytes == 20 * 1024 * 1024
            &&& config.default_timeout_ms == 30 * 1000
        }),
{
}

/// The tool that runs commands is offered with its shell, with the examples that it
/// was given, and with what it takes: a command, and a time limit of one millisecond
/// or more that may be left out.
pub proof fn law_commands_are_offered(config: ExecCommandConfigView, example: Seq<char>)
    ensures
        exec_command::exec_spec(config).name == "exec_command"@,
        exec_command::exec_spec(config).description == "Run a command using the "@ + (
        match config.shell {
            Shell::Sh => "sh"@,
            Shell::Bash => "bash"@,
            Shell::Zsh => "zsh"@,
            Shell::Fish => "fish"@,
        })
            + " shell in the configured working directory. Commands are subject to authorization and sandbox policy. A non-zero exit code is an execution result, not a tool failure."@
            + exec_command::supported_hint(config.supported_commands),
        exec_command::supported_hint(None).len() == 0,
        exec_command::supported_hint(Some(Seq::empty())).len() == 0,
        exec_command::supported_hint(Some(seq![example])) == " Supported command examples: "@
            + example + "."@,
        config.supported_commands matches Some(commands) ==> commands.len() > 0
            ==> exec_command::supported_hint(Some(commands)) == " Supported command examples: "@
            + text::join_text(commands, ", "@) + "."@,
        ({
            &&& exec_command::exec_spec(config).parameters matches Json::Fields(fields)
            &&& fields["properties"@] matches Json::Fields(properties)
            &&& properties.dom() =~= set!["cmd"@, "timeout_ms"@]
            &&& asks_for(exec_command::exec_spec(config).parameters, seq!["cmd"@], properties)
            &&& properties["cmd"@] matches Json::Fields(cmd)
            &&& cmd.dom() =~= set!["type"@, "description"@]
            &&& cmd["type"@] == Json::Text("string"@)
            &&& properties["timeout_ms"@] matches Json::Fields(limit)
            &&& limit.dom() =~= set!["type"@, "minimum"@, "description"@]
            &&& limit["type"@] == Json::Text("integer"@)
            &&& limit["minimum"@] == Json::Int(1)
        }),
{
    lemma_schema_names();
    let asked = exec_command::exec_parameters()->Fields_0["properties"@]->Fields_0;
    keeping::law_schema_asks_for(seq!["cmd"@], asked);
}

/// The shell of the program that talks to an agent is offered with what it takes: a
/// command, and a time limit that may be left out.
pub proof fn law_shell_is_offered()
    ensures
        repl::shell_view().name == "exec_command"@,
        ({
            &&& repl::shell_view().parameters matches Json::Fields(fields)
            &&& fields["properties"@] matches Json::Fields(properties)
            &&& properties.dom() =~= set!["cmd"@, "timeout_ms"@]
            &&& asks_for(repl::shell_view().parameters, seq!["cmd"@], properties)
            &&& properties["cmd"@] matches Json::Fields(cmd)
            &&& cmd["type"@] == Json::Text("string"@)
            &&& properties["timeout_ms"@] matches Json::Fields(limit)
            &&& limit["type"@] == Json::Text("integer"@)
        }),
{
    lemma_schema_names();
    let asked = repl::shell_view().parameters->Fields_0["properties"@]->Fields_0;
    keeping::law_schema_asks_for(seq!["cmd"@], asked);
}

proof fn lemma_schema_names()
    ensures
        "type"@.len() == 4,
        "required"@.len() == 8,
        "properties"@.len() == 10,
        "additionalProperties"@.len() == 20,
        "description"@.len() == 11,
        "minimum"@.len() == 7,
        "cmd"@.len() == 3,
        "timeout_ms"@.len() == 10,
        "timeout_ms"@[0] == 't',
{
    reveal_strlit("type");
    reveal_strlit("required");
    reveal_strlit("properties");
    reveal_strlit("additionalProperties");
    reveal_strlit("description");
    reveal_strlit("minimum");
    reveal_strlit("cmd");
    reveal_strlit("timeout_ms");
}

/// The clock's tool takes nothing, and answers with one moment: its text, the local
/// text and its seconds, each under its own name and nothing else.
pub proof fn law_clock_answers(utc: Seq<char>, local: Seq<char>, seconds: int)
    ensures
        time::time_spec().name == "get_current_time"@,
        time::time_spec().parameters == functions::get_goal_view().parameters,
        time::time_content(utc, local, seconds) matches Json::Fields(fields) && {
            &&& fields.dom() =~= set!["utc"@, "local"@, "unix_seconds"@]
            &&& fields["utc"@] == Json::Text(utc)
            &&& fields["local"@] == Json::Text(local)
            &&& fields["unix_seconds"@] == Json::Int(seconds)
        },
{
    reveal_strlit("utc");
    reveal_strlit("local");
    reveal_strlit("unix_seconds");
    assert("utc"@.len() == 3 && "local"@.len() == 5 && "unix_seconds"@.len() == 12);
}

/// An error of a sandbox says what kind it is and then what is wrong.
pub proof fn law_sandbox_error_says_what_is_wrong(words: Seq<char>)
    ensures
        sandbox::error_words(SandboxErrorView::InvalidRequest(words))
            == "invalid sandbox request: "@ + words,
        sandbox::error_words(SandboxErrorView::UnsupportedPolicy(words))
            == "sandbox policy is unsupported: "@ + words,
        sandbox::error_words(SandboxErrorView::Launch(words)) == "sandbox launch failed: "@ + words,
        sandbox::error_words(SandboxErrorView::Io(words)) == "sandbox I/O error: "@ + words,
{
}

} // verus!
