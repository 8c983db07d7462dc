//! Invocation locks: the file of a lock, and what waiting for one comes to.

use vstd::prelude::*;

use crate::text;
use crate::text::texts;
use crate::unix_path;

verus! {

/// The variable that lets the child processes of a lock's holder pass.
pub const BYPASS_ENV_VAR: &'static str = "CAPULUS_SINGLE_INSTANCE_BYPASS";

/// How long is waited between two attempts to take a lock.
pub const LOCK_WAIT_POLL_MILLISECONDS: u64 = 100;

/// A character of a lock's name: ASCII letters in lower case, digits, hyphens,
/// underscores and dots as they are, anything else as an underscore.
pub open spec fn name_char(c: char) -> char {
    if text::is_alnum(c) || c == '-' || c == '_' || c == '.' {
        text::lower(c)
    } else {
        '_'
    }
}

/// The name of a lock: its characters made safe, or `tool` where there are
/// none.
pub open spec fn lock_name(value: Seq<char>) -> Seq<char> {
    if value.len() == 0 {
        "tool"@
    } else {
        value.map_values(|c: char| name_char(c))
    }
}

/// The file of the lock with a name.
pub open spec fn lock_file(root: Seq<char>, name: Seq<char>) -> Seq<char> {
    unix_path::joined(root, name + ".lock"@)
}

/// The name of a lock.
pub fn sanitize_component(value: &str) -> (out: String)
    ensures
        out@ == lock_name(value@),
{
    let v = text::to_chars(value);
    if v.len() == 0 {
        return "tool".to_owned();
    }
    let ghost mapped = v@.map_values(|c: char| name_char(c));
    let mut output = String::new();
    let mut i: usize = 0;
    while i < v.len()
        invariant
            i <= v@.len(),
            mapped == v@.map_values(|c: char| name_char(c)),
            output@ == mapped.take(i as int),
        decreases v@.len() - i,
    {
        let c = v[i];
        if text::is_ascii_alnum(c) || c == '-' || c == '_' || c == '.' {
            output.push(text::to_lower(c));
        } else {
            output.push('_');
        }
        i = i + 1;
        assert(mapped.take(i as int) =~= mapped.take(i - 1).push(mapped[i - 1]));
    }
    assert(mapped.take(i as int) =~= mapped);
    output
}

/// The file of the lock of a tool.
pub fn lock_path(root: &str, tool: &str) -> (out: String)
    ensures
        out@ == lock_file(root@, tool@),
{
    let name = tool.to_owned().concat(".lock");
    unix_path::join(root, name.as_str())
}

/// The token that lets the child processes of a lock's holder pass.
pub fn bypass_token(tool: &str) -> (out: String)
    ensures
        out@ == "capulus:"@ + tool@,
{
    "capulus:".to_owned().concat(tool)
}

/// A request for a lock: the lock's name and file, the token for child
/// processes, and whether the own environment holds that token already.
#[derive(Clone, Debug, PartialEq, Eq)]
pub struct LockRequest {
    pub tool: String,
    pub path: String,
    pub token: String,
    pub bypassed: bool,
}

/// What is asked of a lock for a tool, given the value of the bypass variable.
pub fn lock_request(root: &str, tool: &str, variable: &Option<String>) -> (r: LockRequest)
    ensures
        r.tool@ == lock_name(tool@),
        r.path@ == lock_file(root@, lock_name(tool@)),
        r.token@ == "capulus:"@ + lock_name(tool@),
        r.bypassed == (text::opt(*variable) == Some("capulus:"@ + lock_name(tool@))),
{
    let tool = sanitize_component(tool);
    let token = bypass_token(tool.as_str());
    let path = lock_path(root, tool.as_str());
    let bypassed = match variable {
        Some(value) => text::same(value.as_str(), token.as_str()),
        None => false,
    };
    LockRequest { tool, path, token, bypassed }
}

/// Why a lock was not taken.
#[derive(Debug, PartialEq, Eq)]
#[allow(inconsistent_fields)]
pub enum LockError {
    AlreadyRunning { tool: String, path: String },
    CreateDir { tool: String, path: String, source: String },
    Open { tool: String, path: String, source: String },
    Update { tool: String, path: String, source: String },
    Interrupted { tool: String, path: String },
}

impl LockError {
    /// The words for the error.
    pub open spec fn words(self) -> Seq<char> {
        match self {
            LockError::AlreadyRunning { tool, path } => "another `"@ + tool@
                + "` invocation is already running (lockfile: "@ + path@ + ")"@,
            LockError::CreateDir { tool, path, source } => "failed to create lock directory for `"@
                + tool@ + "` at "@ + path@ + ": "@ + source@,
            LockError::Open { tool, path, source } => "failed to open lockfile for `"@ + tool@
                + "` at "@ + path@ + ": "@ + source@,
            LockError::Update { tool, path, source } => "failed to update lockfile for `"@ + tool@
                + "` at "@ + path@ + ": "@ + source@,
            LockError::Interrupted { tool, path } => "interrupted while waiting for `"@ + tool@
                + "` lock at "@ + path@,
        }
    }

    /// The words for the error.
    pub fn message(&self) -> (out: String)
        ensures
            out@ == self.words(),
    {
        match self {
            LockError::AlreadyRunning { tool, path } => "another `".to_owned().concat(
                tool.as_str(),
            ).concat("` invocation is already running (lockfile: ").concat(path.as_str()).concat(
                ")",
            ),
            LockError::CreateDir { tool, path, source } =>
                "failed to create lock directory for `".to_owned().concat(tool.as_str()).concat(
                "` at ",
            ).concat(path.as_str()).concat(": ").concat(source.as_str()),
            LockError::Open { tool, path, source } =>
                "failed to open lockfile for `".to_owned().concat(tool.as_str()).concat(
                "` at ",
            ).concat(path.as_str()).concat(": ").concat(source.as_str()),
            LockError::Update { tool, path, source } =>
                "failed to update lockfile for `".to_owned().concat(tool.as_str()).concat(
                "` at ",
            ).concat(path.as_str()).concat(": ").concat(source.as_str()),
            LockError::Interrupted { tool, path } =>
                "interrupted while waiting for `".to_owned().concat(tool.as_str()).concat(
                "` lock at ",
            ).concat(path.as_str()),
        }
    }
}

/// Where the taking of a lock stands.
#[derive(Clone, Copy, Debug, PartialEq, Eq, Structural)]
pub enum LockStep {
    CreateDirectory,
    OpenFile,
    TryLock,
    WriteMetadata,
    Sleep,
}

/// What came of a step.
#[derive(Debug, PartialEq, Eq)]
pub enum LockEvent {
    Done,
    Busy,
    Interrupted,
    Failed(String),
}

/// What comes next: another step, the lock, or an error. Beside an end stands
/// whether the notice of a wait is cleared first, or marked as abandoned.
#[derive(Debug, PartialEq, Eq)]
pub enum LockNext {
    Continue(LockStep),
    Taken,
    Refused { error: LockError, notice: WaitNotice },
}

/// What becomes of the notice of a wait.
#[derive(Clone, Copy, Debug, PartialEq, Eq, Structural)]
pub enum WaitNotice {
    Kept,
    Cleared,
    Abandoned,
}

/// Whether what comes next follows from what came of a step in taking a lock.
/// `directory` is the directory of the lock's file.
pub open spec fn lock_leads_to(
    request: LockRequest,
    directory: Seq<char>,
    wait: bool,
    step: LockStep,
    event: LockEvent,
    next: LockNext,
) -> bool {
    match (step, event) {
        (LockStep::CreateDirectory, LockEvent::Failed(e)) => next matches LockNext::Refused {
            error: LockError::CreateDir { tool, path, source },
            notice,
        } && tool == request.tool && path@ == directory && source == e && notice is Kept,
        (LockStep::CreateDirectory, _) => next == LockNext::Continue(LockStep::OpenFile),
        (LockStep::OpenFile, LockEvent::Failed(e)) => next == (LockNext::Refused {
            error: LockError::Open { tool: request.tool, path: request.path, source: e },
            notice: WaitNotice::Kept,
        }),
        (LockStep::OpenFile, _) => next == LockNext::Continue(LockStep::TryLock),
        (LockStep::TryLock, LockEvent::Failed(e)) => next == (LockNext::Refused {
            error: LockError::Open { tool: request.tool, path: request.path, source: e },
            notice: WaitNotice::Cleared,
        }),
        (LockStep::TryLock, LockEvent::Busy) => if wait {
            next == LockNext::Continue(LockStep::Sleep)
        } else {
            next == (LockNext::Refused {
                error: LockError::AlreadyRunning { tool: request.tool, path: request.path },
                notice: WaitNotice::Kept,
            })
        },
        (LockStep::TryLock, _) => next == LockNext::Continue(LockStep::WriteMetadata),
        (LockStep::WriteMetadata, LockEvent::Failed(e)) => next == (LockNext::Refused {
            error: LockError::Update { tool: request.tool, path: request.path, source: e },
            notice: WaitNotice::Cleared,
        }),
        (LockStep::WriteMetadata, _) => next is Taken,
        (LockStep::Sleep, LockEvent::Interrupted) => next == (LockNext::Refused {
            error: LockError::Interrupted { tool: request.tool, path: request.path },
            notice: WaitNotice::Abandoned,
        }),
        (LockStep::Sleep, _) => next == LockNext::Continue(LockStep::TryLock),
    }
}

impl LockRequest {
    /// Decides what comes next in taking the lock.
    pub fn advance(&self, directory: &str, wait: bool, step: LockStep, event: LockEvent) -> (next:
        LockNext)
        ensures
            lock_leads_to(*self, directory@, wait, step, event, next),
    {
        match step {
            LockStep::CreateDirectory => match event {
                LockEvent::Failed(source) => LockNext::Refused {
                    error: LockError::CreateDir {
                        tool: self.tool.clone(),
                        path: directory.to_owned(),
                        source,
                    },
                    notice: WaitNotice::Kept,
                },
                _ => LockNext::Continue(LockStep::OpenFile),
            },
            LockStep::OpenFile => match event {
                LockEvent::Failed(source) => LockNext::Refused {
                    error: LockError::Open {
                        tool: self.tool.clone(),
                        path: self.path.clone(),
                        source,
                    },
                    notice: WaitNotice::Kept,
                },
                _ => LockNext::Continue(LockStep::TryLock),
            },
            LockStep::TryLock => match event {
                LockEvent::Failed(source) => LockNext::Refused {
                    error: LockError::Open {
                        tool: self.tool.clone(),
                        path: self.path.clone(),
                        source,
                    },
                    notice: WaitNotice::Cleared,
                },
                LockEvent::Busy => if wait {
                    LockNext::Continue(LockStep::Sleep)
                } else {
                    LockNext::Refused {
                        error: LockError::AlreadyRunning {
                            tool: self.tool.clone(),
                            path: self.path.clone(),
                        },
                        notice: WaitNotice::Kept,
                    }
                },
                _ => LockNext::Continue(LockStep::WriteMetadata),
            },
            LockStep::WriteMetadata => match event {
                LockEvent::Failed(source) => LockNext::Refused {
                    error: LockError::Update {
                        tool: self.tool.clone(),
                        path: self.path.clone(),
                        source,
                    },
                    notice: WaitNotice::Cleared,
                },
                _ => LockNext::Taken,
            },
            LockStep::Sleep => match event {
                LockEvent::Interrupted => LockNext::Refused {
                    error: LockError::Interrupted {
                        tool: self.tool.clone(),
                        path: self.path.clone(),
                    },
                    notice: WaitNotice::Abandoned,
                },
                _ => LockNext::Continue(LockStep::TryLock),
            },
        }
    }

    /// The notice of a wait for the lock.
    pub fn wait_message(&self) -> (out: String)
        ensures
            out@ == "Waiting for another `"@ + self.tool@ + "` invocation to finish ("@ + self.path@
                + ")"@,
    {
        "Waiting for another `".to_owned().concat(self.tool.as_str()).concat(
            "` invocation to finish (",
        ).concat(self.path.as_str()).concat(")")
    }
}

/// A lock is taken only after it was free at an attempt: the step that leads to
/// it is the one behind a successful attempt, and without waiting a busy lock is
/// refused at once.
pub proof fn law_lock_is_taken_only_when_free(
    request: LockRequest,
    directory: Seq<char>,
    wait: bool,
    step: LockStep,
    event: LockEvent,
    next: LockNext,
)
    requires
        lock_leads_to(request, directory, wait, step, event, next),
    ensures
        next is Taken ==> step is WriteMetadata,
        next == LockNext::Continue(LockStep::WriteMetadata) ==> step is TryLock && !(event is Busy)
            && !(event is Failed),
        step is TryLock && event is Busy && !wait ==> (next matches LockNext::Refused {
            error: LockError::AlreadyRunning { .. },
            ..
        }),
{
}

/// How a wait is shown.
#[derive(Clone, Copy, Debug, PartialEq, Eq, Structural)]
pub enum WaitDisplay {
    Nothing,
    StartTask,
    TickSpinner,
    StartSpinner,
    PrintNotice,
}

/// Decides how a wait is shown: as a task of the user interface, where there is
/// one; else as a spinner on a terminal; else as one line.
pub fn wait_display(
    has_ui: bool,
    task_shown: bool,
    spinner_shown: bool,
    interactive: bool,
    notice_printed: bool,
) -> (r: WaitDisplay)
    ensures
        r == if has_ui {
            if task_shown {
                WaitDisplay::Nothing
            } else {
                WaitDisplay::StartTask
            }
        } else if spinner_shown {
            WaitDisplay::TickSpinner
        } else if interactive {
            WaitDisplay::StartSpinner
        } else if notice_printed {
            WaitDisplay::Nothing
        } else {
            WaitDisplay::PrintNotice
        },
{
    if has_ui {
        if task_shown {
            WaitDisplay::Nothing
        } else {
            WaitDisplay::StartTask
        }
    } else if spinner_shown {
        WaitDisplay::TickSpinner
    } else if interactive {
        WaitDisplay::StartSpinner
    } else if notice_printed {
        WaitDisplay::Nothing
    } else {
        WaitDisplay::PrintNotice
    }
}

/// The arguments that make a program which raises privileges keep the bypass
/// variable.
pub open spec fn preserve_arguments(program: Seq<char>) -> Seq<Seq<char>> {
    if program == "doas"@ {
        seq!["-E"@]
    } else if program == "sudo"@ {
        seq!["--preserve-env=CAPULUS_SINGLE_INSTANCE_BYPASS"@]
    } else {
        seq![]
    }
}

/// The arguments that make a program which raises privileges keep the bypass
/// variable.
pub fn privileged_arguments(program: &str) -> (r: Vec<String>)
    ensures
        texts(r@) == preserve_arguments(program@),
{
    let mut out: Vec<String> = Vec::new();
    if text::same(program, "doas") {
        out.push("-E".to_owned());
    } else if text::same(program, "sudo") {
        out.push("--preserve-env=CAPULUS_SINGLE_INSTANCE_BYPASS".to_owned());
    }
    assert(texts(out@) =~= preserve_arguments(program@));
    out
}

} // verus!
