//! Commands, and what is made of their output.

use vstd::prelude::*;

use crate::shell;
use crate::text;
use crate::text::texts;

verus! {

/// A command: a program, its arguments and the variables that are set for it.
#[derive(Clone, Debug, PartialEq, Eq)]
pub struct CommandLine {
    pub program: String,
    pub arguments: Vec<String>,
    pub environment: Vec<(String, String)>,
}

/// What a command says.
#[verifier::ext_equal]
pub ghost struct CommandLineView {
    pub program: Seq<char>,
    pub arguments: Seq<Seq<char>>,
    pub environment: Seq<(Seq<char>, Seq<char>)>,
}

/// What variables say.
pub open spec fn variable_views(list: Seq<(String, String)>) -> Seq<(Seq<char>, Seq<char>)> {
    list.map_values(|v: (String, String)| (v.0@, v.1@))
}

/// A command without variables of its own.
pub open spec fn command_view(program: Seq<char>, arguments: Seq<Seq<char>>) -> CommandLineView {
    CommandLineView { program, arguments, environment: Seq::empty() }
}

impl CommandLine {
    pub open spec fn view(self) -> CommandLineView {
        CommandLineView {
            program: self.program@,
            arguments: texts(self.arguments@),
            environment: variable_views(self.environment@),
        }
    }

    /// A command without arguments.
    pub fn new(program: &str) -> (r: CommandLine)
        ensures
            r@ == command_view(program@, Seq::empty()),
    {
        let r = CommandLine {
            program: program.to_owned(),
            arguments: Vec::new(),
            environment: Vec::new(),
        };
        assert(r@ =~= command_view(program@, Seq::empty()));
        r
    }

    /// Adds an argument.
    pub fn arg(&mut self, argument: &str)
        ensures
            final(self)@ == (CommandLineView {
                arguments: old(self)@.arguments.push(argument@),
                ..old(self)@
            }),
    {
        let ghost before = self@;
        self.arguments.push(argument.to_owned());
        assert(self@ =~= (CommandLineView { arguments: before.arguments.push(argument@), ..before }));
    }

    /// Adds arguments.
    pub fn args(&mut self, arguments: &Vec<String>)
        ensures
            final(self)@ == (CommandLineView {
                arguments: old(self)@.arguments + texts(arguments@),
                ..old(self)@
            }),
    {
        let ghost before = self@;
        let ghost all = texts(arguments@);
        let mut i: usize = 0;
        assert(self@ =~= (CommandLineView { arguments: before.arguments + all.take(0), ..before }));
        while i < arguments.len()
            invariant
                i <= arguments@.len(),
                all == texts(arguments@),
                self@ == (CommandLineView {
                    arguments: before.arguments + all.take(i as int),
                    ..before
                }),
            decreases arguments@.len() - i,
        {
            self.arg(arguments[i].as_str());
            i = i + 1;
            assert(before.arguments + all.take(i as int) =~= (before.arguments + all.take(
                i - 1,
            )).push(all[i - 1]));
        }
        assert(all.take(i as int) =~= all);
    }

    /// Sets a variable.
    pub fn env(&mut self, name: &str, value: &str)
        ensures
            final(self)@ == (CommandLineView {
                environment: old(self)@.environment.push((name@, value@)),
                ..old(self)@
            }),
    {
        let ghost before = self@;
        self.environment.push((name.to_owned(), value.to_owned()));
        assert(self@ =~= (CommandLineView {
            environment: before.environment.push((name@, value@)),
            ..before
        }));
    }
}

/// The quoted arguments of a command.
pub open spec fn quoted_arguments(arguments: Seq<Seq<char>>) -> Seq<Seq<char>> {
    arguments.map_values(|a: Seq<char>| shell::quoted(a))
}

/// The text of a command, as one would type it.
pub open spec fn rendered(program: Seq<char>, arguments: Seq<Seq<char>>) -> Seq<char> {
    if arguments.len() == 0 {
        program
    } else {
        program + " "@ + text::joined(quoted_arguments(arguments), " "@)
    }
}

/// The text of a command, as one would type it.
pub fn render_command(command: &CommandLine) -> (out: String)
    ensures
        out@ == rendered(command@.program, command@.arguments),
{
    if command.arguments.len() == 0 {
        return command.program.clone();
    }
    let ghost all = quoted_arguments(command@.arguments);
    let mut words: Vec<String> = Vec::new();
    let mut i: usize = 0;
    while i < command.arguments.len()
        invariant
            i <= command.arguments@.len(),
            all == quoted_arguments(command@.arguments),
            texts(words@) == all.take(i as int),
        decreases command.arguments@.len() - i,
    {
        let ghost before = texts(words@);
        let word = shell::shell_quote(command.arguments[i].as_str());
        words.push(word);
        assert(texts(words@) =~= before.push(word@));
        i = i + 1;
        assert(all.take(i as int) =~= before.push(all[i - 1]));
    }
    assert(all.take(i as int) =~= all);
    let list = text::join(&words, " ");
    command.program.clone().concat(" ").concat(list.as_str())
}

/// What came of a command: whether it succeeded, its exit code where it has
/// one, and what it wrote.
#[derive(Clone, Debug, PartialEq, Eq)]
pub struct CommandOutput {
    pub success: bool,
    pub code: Option<i32>,
    pub stdout: String,
    pub stderr: String,
}

/// The exit code of a command, or one where it has none.
pub open spec fn exit_code(code: Option<i32>) -> int {
    match code {
        Some(n) => n as int,
        None => 1,
    }
}

fn code_or_one(code: Option<i32>) -> (r: i32)
    ensures
        r == exit_code(code),
{
    match code {
        Some(n) => n,
        None => 1,
    }
}

/// The exit code of a command, or one where it has none.
pub fn run_status_code(code: Option<i32>) -> (r: i32)
    ensures
        r == exit_code(code),
{
    code_or_one(code)
}

/// What a failed command says of its failure: its error output, else its
/// output, else its exit status.
pub open spec fn failure_text(stdout: Seq<char>, stderr: Seq<char>, code: Option<i32>) -> Seq<
    char,
> {
    if text::trimmed(stderr).len() > 0 {
        text::trimmed(stderr)
    } else if text::trimmed(stdout).len() > 0 {
        text::trimmed(stdout)
    } else {
        "exit status "@ + text::signed_decimal(exit_code(code))
    }
}

/// What a failed command says of its failure.
pub fn failure_detail(output: &CommandOutput) -> (out: String)
    ensures
        out@ == failure_text(output.stdout@, output.stderr@, output.code),
{
    let stderr = text::trim(output.stderr.as_str());
    if !stderr.as_str().is_empty() {
        return stderr;
    }
    let stdout = text::trim(output.stdout.as_str());
    if !stdout.as_str().is_empty() {
        return stdout;
    }
    let code = text::decimal_i32(code_or_one(output.code));
    "exit status ".to_owned().concat(code.as_str())
}

/// Why a command did not do its work.
#[derive(Debug, PartialEq, Eq)]
#[allow(inconsistent_fields)]
pub enum ProcessError {
    Failed { action: String, rendered: String, detail: String },
    NotFound { program: String },
    VersionFailed { program: String, code: i32 },
    InvalidJson { action: String, excerpt: String },
}

impl ProcessError {
    /// The words for the error.
    pub open spec fn words(self) -> Seq<char> {
        match self {
            ProcessError::Failed { action, rendered, detail } => "Failed to "@ + action@
                + " while running `"@ + rendered@ + "`: "@ + detail@,
            ProcessError::NotFound { program } => "`"@ + program@
                + "` is required but was not found in PATH"@,
            ProcessError::VersionFailed { program, code } => "`"@ + program@
                + " --version` exited with status "@ + text::signed_decimal(code as int),
            ProcessError::InvalidJson { action, excerpt } =>
                "Failed to parse JSON while trying to "@ + action@ + ": "@ + excerpt@,
        }
    }

    /// The words for the error.
    pub fn message(&self) -> (out: String)
        ensures
            out@ == self.words(),
    {
        match self {
            ProcessError::Failed { action, rendered, detail } => "Failed to ".to_owned().concat(
                action.as_str(),
            ).concat(" while running `").concat(rendered.as_str()).concat("`: ").concat(
                detail.as_str(),
            ),
            ProcessError::NotFound { program } => "`".to_owned().concat(program.as_str()).concat(
                "` is required but was not found in PATH",
            ),
            ProcessError::VersionFailed { program, code } => {
                let code = text::decimal_i32(*code);
                "`".to_owned().concat(program.as_str()).concat(
                    " --version` exited with status ",
                ).concat(code.as_str())
            },
            ProcessError::InvalidJson { action, excerpt } =>
                "Failed to parse JSON while trying to ".to_owned().concat(action.as_str()).concat(
                ": ",
            ).concat(excerpt.as_str()),
        }
    }
}

/// Whether an error is that of a command that failed.
pub open spec fn command_failed(
    e: ProcessError,
    action: Seq<char>,
    command: CommandLineView,
    detail: Seq<char>,
) -> bool {
    e matches ProcessError::Failed { action: a, rendered: r, detail: d } && a@ == action && r@
        == rendered(command.program, command.arguments) && d@ == detail
}

/// The output of a command that had to succeed.
pub fn require_success(action: &str, command: &CommandLine, output: CommandOutput) -> (r: Result<
    CommandOutput,
    ProcessError,
>)
    ensures
        r is Ok <==> output.success,
        r matches Ok(o) ==> o == output,
        r matches Err(e) ==> command_failed(
            e,
            action@,
            command@,
            failure_text(output.stdout@, output.stderr@, output.code),
        ),
{
    if output.success {
        return Ok(output);
    }
    Err(
        ProcessError::Failed {
            action: action.to_owned(),
            rendered: render_command(command),
            detail: failure_detail(&output),
        },
    )
}

/// The judgement on a command that had to succeed and wrote where its caller
/// writes.
pub fn require_streamed_success(
    action: &str,
    command: &CommandLine,
    success: bool,
    code: Option<i32>,
) -> (r: Result<(), ProcessError>)
    ensures
        r is Ok <==> success,
        r matches Err(e) ==> command_failed(
            e,
            action@,
            command@,
            "exit status "@ + text::signed_decimal(exit_code(code)),
        ),
{
    if success {
        return Ok(());
    }
    let code = text::decimal_i32(code_or_one(code));
    Err(
        ProcessError::Failed {
            action: action.to_owned(),
            rendered: render_command(command),
            detail: "exit status ".to_owned().concat(code.as_str()),
        },
    )
}

/// The trimmed text that a command that had to succeed wrote.
pub fn run_text(action: &str, command: &CommandLine, output: CommandOutput) -> (r: Result<
    String,
    ProcessError,
>)
    ensures
        r is Ok <==> output.success,
        r matches Ok(s) ==> s@ == text::trimmed(output.stdout@),
        r matches Err(e) ==> command_failed(
            e,
            action@,
            command@,
            failure_text(output.stdout@, output.stderr@, output.code),
        ),
{
    let output = require_success(action, command, output)?;
    Ok(text::trim(output.stdout.as_str()))
}

/// The judgement on whether a program can be run, from what asking it for its
/// version came to; `None` where it could not be started.
pub fn ensure_command_available(program: &str, asked: &Option<CommandOutput>) -> (r: Result<
    (),
    ProcessError,
>)
    ensures
        match asked {
            None => r matches Err(ProcessError::NotFound { program: p }) && p@ == program@,
            Some(output) => if output.success {
                r is Ok
            } else {
                r matches Err(ProcessError::VersionFailed { program: p, code }) && p@ == program@
                    && code == exit_code(output.code)
            },
        },
{
    match asked {
        None => Err(ProcessError::NotFound { program: program.to_owned() }),
        Some(output) => if output.success {
            Ok(())
        } else {
            Err(
                ProcessError::VersionFailed {
                    program: program.to_owned(),
                    code: code_or_one(output.code),
                },
            )
        },
    }
}

/// A text cut to a number of characters, with an ellipsis at its end where it
/// was cut.
pub open spec fn cut(value: Seq<char>, max_chars: nat) -> Seq<char> {
    if value.len() <= max_chars {
        value
    } else if max_chars <= 1 {
        seq!['\u{2026}']
    } else {
        value.take(max_chars - 1).push('\u{2026}')
    }
}

/// Cuts a text to a number of characters.
pub fn truncate_ellipsis(value: &str, max_chars: usize) -> (out: String)
    ensures
        out@ == cut(value@, max_chars as nat),
        max_chars >= 1 ==> out@.len() <= max_chars,
{
    let v = text::to_chars(value);
    if v.len() <= max_chars {
        return value.to_owned();
    }
    if max_chars <= 1 {
        let mut out = String::new();
        out.push('\u{2026}');
        assert(out@ =~= seq!['\u{2026}']);
        return out;
    }
    assert(v@.subrange(0, max_chars - 1) =~= v@.take(max_chars - 1));
    let mut out = text::from_chars_range(&v, 0, max_chars - 1);
    out.push('\u{2026}');
    out
}

/// The error for output that is not the JSON that was expected.
pub fn invalid_json(action: &str, stdout: &str) -> (e: ProcessError)
    ensures
        e matches ProcessError::InvalidJson { action: a, excerpt } && a@ == action@ && excerpt@
            == cut(text::trimmed(stdout@), 280),
{
    let trimmed = text::trim(stdout);
    ProcessError::InvalidJson {
        action: action.to_owned(),
        excerpt: truncate_ellipsis(trimmed.as_str(), 280),
    }
}

} // verus!
