//! The tool that runs shell commands.
use crate::json::Json;
use crate::text::{decimal, decimal_text, decimal_value, lemma_decimal, lossy_text, lossy_utf8};
use crate::tools::file::text_or;
use crate::tools::schema::{
    law_one_argument_is_required, lists, make_one_arg_schema, one_arg_schema,
};
use crate::tools::ToolPlugin;
use crate::types::{plain_result, ToolDefinition, ToolDefinitionV, ToolResult, ToolResultV};
use vstd::prelude::*;

verus! {

/// The tool that runs shell commands.
pub struct ShellTool {}

impl ToolPlugin for ShellTool {
    open spec fn described(&self) -> ToolDefinitionV {
        ToolDefinitionV {
            name: "shell"@,
            description: "Execute a shell command on the device and return its output"@,
            parameters: one_arg_schema("command"@, "The shell command to execute"@),
            timeout_ms: 30000,
            guidance:
                "Check the [exit code: N] marker on every result; investigate failures before moving on."@,
        }
    }

    fn definition(&self) -> (r: ToolDefinition) {
        ToolDefinition {
            name: "shell".to_owned(),
            description: "Execute a shell command on the device and return its output".to_owned(),
            parameters: make_one_arg_schema("command", "The shell command to execute"),
            timeout_ms: 30000,
            guidance:
                "Check the [exit code: N] marker on every result; investigate failures before moving on.".to_owned(),
        }
    }
}

/// A number in decimal, with a minus sign where it is negative.
pub open spec fn signed_decimal(n: int) -> Seq<char> {
    if n < 0 {
        "-"@ + decimal((-n) as nat)
    } else {
        decimal(n as nat)
    }
}

/// A number in decimal, with a minus sign where it is negative.
pub fn signed_text(n: i32) -> (r: String)
    ensures
        r@ == signed_decimal(n as int),
{
    let wide: i64 = n as i64;
    if wide < 0 {
        let mut r = "-".to_owned();
        r.push_str(decimal_text((-wide) as u64).as_str());
        r
    } else {
        decimal_text(wide as u64)
    }
}

/// What a command printed: its output, then its errors under a heading, then its exit code where
/// that is not 0.
pub open spec fn command_output(
    stdout: Seq<char>,
    stderr: Seq<char>,
    exit_code: i32,
) -> Seq<char> {
    let printed = if stderr.len() == 0 {
        stdout
    } else if stdout.len() == 0 {
        stdout + "[stderr]\n"@ + stderr
    } else {
        stdout + "\n"@ + "[stderr]\n"@ + stderr
    };
    if exit_code == 0 {
        printed
    } else {
        printed + "\n[exit code: "@ + signed_decimal(exit_code as int) + "]"@
    }
}

/// What a command printed.
pub fn assemble_output(stdout: &str, stderr: &str, exit_code: i32) -> (r: String)
    ensures
        r@ == command_output(stdout@, stderr@, exit_code),
{
    let mut content = stdout.to_owned();
    if !stderr.is_empty() {
        if !stdout.is_empty() {
            content.push_str("\n");
        }
        content.push_str("[stderr]\n");
        content.push_str(stderr);
    }
    if exit_code != 0 {
        content.push_str("\n[exit code: ");
        content.push_str(signed_text(exit_code).as_str());
        content.push_str("]");
    }
    content
}

/// The result of a call that names no command.
pub open spec fn command_missing() -> ToolResultV {
    plain_result("Error: `command` parameter is required and must be non-empty"@, true)
}

/// The command of a call, or the result where none is named.
pub fn command_of(args: &Json) -> (r: Result<String, ToolResult>)
    ensures
        match r {
            Ok(command) => command@.len() > 0 && command@ == text_or(
                args@,
                "command"@,
                Seq::empty(),
            ),
            Err(e) => text_or(args@, "command"@, Seq::empty()).len() == 0 && e@
                == command_missing(),
        },
{
    let command = match args.get_text("command") {
        Some(t) => t.clone(),
        None => String::new(),
    };
    if command.as_str().is_empty() {
        return Err(
            ToolResult::plain(
                "Error: `command` parameter is required and must be non-empty".to_owned(),
                true,
            ),
        );
    }
    Ok(command)
}

impl ShellTool {
    /// The program that runs commands, and the flag that tells it to.
    pub fn program(&self, windows: bool) -> (r: (&'static str, &'static str))
        ensures
            windows ==> r.0@ == "cmd"@ && r.1@ == "/C"@,
            !windows ==> r.0@ == "sh"@ && r.1@ == "-c"@,
    {
        if windows {
            ("cmd", "/C")
        } else {
            ("sh", "-c")
        }
    }

    /// The result of a command that ran. Without an exit code, as after a signal, it is -1.
    pub fn report(
        &self,
        stdout: &Vec<u8>,
        stderr: &Vec<u8>,
        exit_code: Option<i32>,
        success: bool,
    ) -> (r: ToolResult)
        ensures
            r@ == plain_result(
                command_output(
                    lossy_utf8(stdout@),
                    lossy_utf8(stderr@),
                    match exit_code {
                        Some(c) => c,
                        None => -1i32,
                    },
                ),
                !success,
            ),
    {
        let out = lossy_text(stdout);
        let err = lossy_text(stderr);
        let code: i32 = match exit_code {
            Some(c) => c,
            None => -1,
        };
        ToolResult::plain(assemble_output(out.as_str(), err.as_str(), code), !success)
    }

    /// The result of a command that could not be started.
    pub fn failed(&self, error: &str) -> (r: ToolResult)
        ensures
            r@ == plain_result("Error: failed to execute command: "@ + error@, true),
    {
        let mut m = "Error: failed to execute command: ".to_owned();
        m.push_str(error);
        ToolResult::plain(m, true)
    }
}

/// What a command printed is reported whole: its output first, what it printed as errors after a
/// mark, and the number that it ended with where that is not zero.
pub proof fn law_commands_are_reported_whole(stdout: Seq<char>, stderr: Seq<char>, code: i32)
    ensures
        command_output(stdout, Seq::empty(), 0) == stdout,
        stdout.len() > 0 && stderr.len() > 0 ==> command_output(stdout, stderr, 0) == stdout
            + "\n[stderr]\n"@ + stderr,
        stderr.len() > 0 ==> command_output(Seq::empty(), stderr, 0) == "[stderr]\n"@ + stderr,
        code != 0 ==> command_output(stdout, stderr, code) == command_output(stdout, stderr, 0)
            + "\n[exit code: "@ + signed_decimal(code as int) + "]"@,
        code < 0 ==> signed_decimal(code as int) == "-"@ + signed_decimal(-code),
        code >= 0 ==> decimal_value(signed_decimal(code as int)) == code,
{
    reveal_strlit("\n");
    reveal_strlit("[stderr]\n");
    reveal_strlit("\n[stderr]\n");
    assert("\n"@ + "[stderr]\n"@ =~= "\n[stderr]\n"@);
    assert(stdout + "\n"@ + "[stderr]\n"@ + stderr =~= stdout + "\n[stderr]\n"@ + stderr);
    assert(Seq::<char>::empty() + "[stderr]\n"@ + stderr =~= "[stderr]\n"@ + stderr);
    if code >= 0 {
        lemma_decimal(code as nat);
    }
}

/// The shell is offered under its name, with the command as the one argument that it requires.
pub proof fn law_the_shell_takes_a_command(tool: ShellTool)
    ensures
        tool.described().name == "shell"@,
        tool.described().parameters.field("required"@) is Some,
        lists(tool.described().parameters.field("required"@)->0, seq!["command"@]),
        tool.described().timeout_ms == 30000,
        command_missing().is_error,
{
    law_one_argument_is_required("command"@, "The shell command to execute"@);
}

} // verus!
