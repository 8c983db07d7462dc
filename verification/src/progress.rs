//! Progress of long operations: options, tasks, and live groups of rows.
//!
//! Nothing is written here: each operation gives the line or the change that is
//! to be shown.

use vstd::prelude::*;

use crate::cancel::{error_is_cancelled, holds_cancellation, ErrorChain};
use crate::duration::{Duration, NANOS_PER_MILLISECOND, NANOS_PER_SECOND};
use crate::text;

verus! {

/// How progress is shown.
#[derive(Clone, Copy, Debug, PartialEq, Eq, Structural)]
pub enum ProgressMode {
    Auto,
    Interactive,
    Plain,
    Off,
}

/// Whether colors are used.
#[derive(Clone, Copy, Debug, PartialEq, Eq, Structural)]
pub enum ColorMode {
    Auto,
    Always,
    Never,
}

/// Whether an interrupt of the user cancels.
#[derive(Clone, Copy, Debug, PartialEq, Eq, Structural)]
pub enum CancellationMode {
    Signal,
    Passive,
}

impl Default for ProgressMode {
    fn default() -> (r: Self)
        ensures
            r is Auto,
    {
        ProgressMode::Auto
    }
}

impl Default for ColorMode {
    fn default() -> (r: Self)
        ensures
            r is Auto,
    {
        ColorMode::Auto
    }
}

impl Default for CancellationMode {
    fn default() -> (r: Self)
        ensures
            r is Signal,
    {
        CancellationMode::Signal
    }
}

/// How a user interface behaves.
#[derive(Clone, Copy, Debug, PartialEq, Eq)]
pub struct UiOptions {
    pub progress: ProgressMode,
    pub color: ColorMode,
    pub cancellation: CancellationMode,
    pub visibility_delay: Duration,
    pub heartbeat_interval: Duration,
}

impl Default for UiOptions {
    fn default() -> (r: Self)
        ensures
            r.progress is Auto,
            r.color is Auto,
            r.cancellation is Signal,
            r.visibility_delay@ == 200 * NANOS_PER_MILLISECOND,
            r.heartbeat_interval@ == 15 * NANOS_PER_SECOND,
    {
        UiOptions {
            progress: ProgressMode::Auto,
            color: ColorMode::Auto,
            cancellation: CancellationMode::Signal,
            visibility_delay: Duration::from_millis(200),
            heartbeat_interval: Duration::from_secs(15),
        }
    }
}

/// Which outputs are terminals.
#[derive(Clone, Copy, Debug, PartialEq, Eq, Structural)]
pub struct TerminalCapabilities {
    pub stderr: bool,
    pub stdout: bool,
}

/// How progress is shown, once it is settled.
#[derive(Clone, Copy, Debug, PartialEq, Eq, Structural)]
pub enum ResolvedProgressMode {
    Interactive,
    Plain,
    Off,
}

/// How a user interface behaves, once it is settled.
#[derive(Clone, Copy, Debug, PartialEq, Eq)]
pub struct ValidatedUiOptions {
    pub progress: ResolvedProgressMode,
    pub color: bool,
    pub stdout_color: bool,
    pub cancellation: CancellationMode,
    pub visibility_delay: Duration,
    pub heartbeat_interval: Duration,
}

/// Why options or labels of a user interface are refused.
#[derive(Clone, Copy, Debug, PartialEq, Eq, Structural)]
pub enum UiError {
    ZeroHeartbeat,
    NoTerminal,
    EmptyTaskLabel,
    ZeroTotal,
    ZeroDeadline,
    EmptyGroupLabel,
    EmptyRowLabel,
    EmptyRenderedRow,
}

impl UiError {
    /// The words for the error.
    pub open spec fn words(self) -> Seq<char> {
        match self {
            UiError::ZeroHeartbeat => "UI heartbeat interval must be greater than zero"@,
            UiError::NoTerminal =>
                "interactive progress requires stderr to be attached to a terminal"@,
            UiError::EmptyTaskLabel => "UI task label must not be empty"@,
            UiError::ZeroTotal => "UI task total must be greater than zero"@,
            UiError::ZeroDeadline => "UI task deadline must be greater than zero"@,
            UiError::EmptyGroupLabel => "UI live-group label must not be empty"@,
            UiError::EmptyRowLabel => "UI live-row label must not be empty"@,
            UiError::EmptyRenderedRow => "UI rendered live-row message must not be empty"@,
        }
    }

    /// The words for the error.
    pub fn message(&self) -> (r: &'static str)
        ensures
            r@ == self.words(),
    {
        match self {
            UiError::ZeroHeartbeat => "UI heartbeat interval must be greater than zero",
            UiError::NoTerminal =>
                "interactive progress requires stderr to be attached to a terminal",
            UiError::EmptyTaskLabel => "UI task label must not be empty",
            UiError::ZeroTotal => "UI task total must be greater than zero",
            UiError::ZeroDeadline => "UI task deadline must be greater than zero",
            UiError::EmptyGroupLabel => "UI live-group label must not be empty",
            UiError::EmptyRowLabel => "UI live-row label must not be empty",
            UiError::EmptyRenderedRow => "UI rendered live-row message must not be empty",
        }
    }
}

/// Whether an output is colored.
pub open spec fn colored(mode: ColorMode, terminal: bool, no_color: bool) -> bool {
    match mode {
        ColorMode::Auto => terminal && !no_color,
        ColorMode::Always => true,
        ColorMode::Never => false,
    }
}

fn is_colored(mode: ColorMode, terminal: bool, no_color: bool) -> (r: bool)
    ensures
        r == colored(mode, terminal, no_color),
{
    match mode {
        ColorMode::Auto => terminal && !no_color,
        ColorMode::Always => true,
        ColorMode::Never => false,
    }
}

impl UiOptions {
    /// How progress is shown on the terminals that there are.
    pub open spec fn resolved(self, terminal: TerminalCapabilities) -> Option<
        ResolvedProgressMode,
    > {
        match self.progress {
            ProgressMode::Auto => if terminal.stderr {
                Some(ResolvedProgressMode::Interactive)
            } else {
                Some(ResolvedProgressMode::Plain)
            },
            ProgressMode::Interactive => if terminal.stderr {
                Some(ResolvedProgressMode::Interactive)
            } else {
                None
            },
            ProgressMode::Plain => Some(ResolvedProgressMode::Plain),
            ProgressMode::Off => Some(ResolvedProgressMode::Off),
        }
    }

    /// Settles how a user interface behaves, given which outputs are terminals
    /// and whether the environment forbids colors.
    pub fn validate(self, terminal: TerminalCapabilities, no_color: bool) -> (r: Result<
        ValidatedUiOptions,
        UiError,
    >)
        ensures
            if self.heartbeat_interval@ == 0 {
                r == Err::<ValidatedUiOptions, UiError>(UiError::ZeroHeartbeat)
            } else {
                match self.resolved(terminal) {
                    None => r == Err::<ValidatedUiOptions, UiError>(UiError::NoTerminal),
                    Some(mode) => r == Ok::<ValidatedUiOptions, UiError>(
                        ValidatedUiOptions {
                            progress: mode,
                            color: colored(self.color, terminal.stderr, no_color),
                            stdout_color: colored(self.color, terminal.stdout, no_color),
                            cancellation: self.cancellation,
                            visibility_delay: self.visibility_delay,
                            heartbeat_interval: self.heartbeat_interval,
                        },
                    ),
                }
            },
    {
        if self.heartbeat_interval.is_zero() {
            return Err(UiError::ZeroHeartbeat);
        }
        let progress = match self.progress {
            ProgressMode::Auto => if terminal.stderr {
                ResolvedProgressMode::Interactive
            } else {
                ResolvedProgressMode::Plain
            },
            ProgressMode::Interactive => if terminal.stderr {
                ResolvedProgressMode::Interactive
            } else {
                return Err(UiError::NoTerminal);
            },
            ProgressMode::Plain => ResolvedProgressMode::Plain,
            ProgressMode::Off => ResolvedProgressMode::Off,
        };
        Ok(
            ValidatedUiOptions {
                progress,
                color: is_colored(self.color, terminal.stderr, no_color),
                stdout_color: is_colored(self.color, terminal.stdout, no_color),
                cancellation: self.cancellation,
                visibility_delay: self.visibility_delay,
                heartbeat_interval: self.heartbeat_interval,
            },
        )
    }
}

// ---------------------------------------------------------------------------
// Durations
// ---------------------------------------------------------------------------

/// A number with at least two digits.
pub open spec fn two_digits(n: nat) -> Seq<char> {
    text::zero_padded(text::decimal(n), 2)
}

/// Seconds as hours, minutes and seconds; hours only where there are some.
pub open spec fn clock(seconds: nat) -> Seq<char> {
    let hours = seconds / 3600;
    let minutes = seconds % 3600 / 60;
    let rest = seconds % 60;
    if hours > 0 {
        text::decimal(hours) + ":"@ + two_digits(minutes) + ":"@ + two_digits(rest)
    } else {
        text::decimal(minutes) + ":"@ + two_digits(rest)
    }
}

/// A span of time: milliseconds below one second, else a clock.
pub open spec fn span_text(nanos: nat) -> Seq<char> {
    if nanos / (NANOS_PER_SECOND as nat) == 0 {
        text::decimal(nanos / (NANOS_PER_MILLISECOND as nat)) + "ms"@
    } else {
        clock(nanos / (NANOS_PER_SECOND as nat))
    }
}

fn pad_two(n: u64) -> (out: String)
    ensures
        out@ == two_digits(n as nat),
{
    let digits = text::decimal_u64(n);
    text::zero_pad(digits.as_str(), 2)
}

/// Seconds as hours, minutes and seconds.
pub fn format_seconds(seconds: u64) -> (out: String)
    ensures
        out@ == clock(seconds as nat),
{
    let hours: u64 = seconds / 3600;
    let minutes: u64 = seconds % 3600 / 60;
    let rest: u64 = seconds % 60;
    let padded = pad_two(rest);
    if hours > 0 {
        let middle = pad_two(minutes);
        text::decimal_u64(hours).concat(":").concat(middle.as_str()).concat(":").concat(
            padded.as_str(),
        )
    } else {
        text::decimal_u64(minutes).concat(":").concat(padded.as_str())
    }
}

/// A span of time as text.
pub fn format_duration(duration: Duration) -> (out: String)
    ensures
        out@ == span_text(duration@),
{
    if duration.as_secs() == 0 {
        return text::decimal_u128(duration.as_millis()).concat("ms");
    }
    format_seconds(duration.as_secs())
}

// ---------------------------------------------------------------------------
// Tasks
// ---------------------------------------------------------------------------

/// What a task counts.
#[derive(Clone, Debug, PartialEq, Eq)]
#[allow(inconsistent_fields)]
pub enum TaskKind {
    Indeterminate,
    Counter { total: u64, unit: Option<String> },
    Countdown { total: u64 },
}

impl Default for TaskKind {
    fn default() -> (r: Self)
        ensures
            r is Indeterminate,
    {
        TaskKind::Indeterminate
    }
}

/// Whether a task is shown at once, or only when it takes long.
#[derive(Clone, Copy, Debug, PartialEq, Eq, Structural)]
pub enum TaskVisibility {
    Immediate,
    Delayed,
}

impl Default for TaskVisibility {
    fn default() -> (r: Self)
        ensures
            r is Delayed,
    {
        TaskVisibility::Delayed
    }
}

/// A task before it is checked.
#[derive(Clone, Debug, PartialEq, Eq)]
pub struct TaskOptions {
    pub label: String,
    pub kind: TaskKind,
    pub deadline: Option<Duration>,
    pub visibility: TaskVisibility,
}

impl Default for TaskOptions {
    fn default() -> (r: Self)
        ensures
            r.label@.len() == 0,
            r.kind is Indeterminate,
            r.deadline is None,
            r.visibility is Delayed,
    {
        TaskOptions {
            label: String::new(),
            kind: TaskKind::Indeterminate,
            deadline: None,
            visibility: TaskVisibility::Delayed,
        }
    }
}

/// A task whose options were checked.
#[derive(Clone, Debug, PartialEq, Eq)]
pub struct ValidatedTaskOptions {
    pub label: String,
    pub kind: TaskKind,
    pub deadline: Option<Duration>,
    pub visibility: TaskVisibility,
}

/// What a kind of task counts to, where it counts.
pub open spec fn total_of(kind: TaskKind) -> Option<u64> {
    match kind {
        TaskKind::Indeterminate => None,
        TaskKind::Counter { total, .. } => Some(total),
        TaskKind::Countdown { total } => Some(total),
    }
}

impl TaskOptions {
    /// Why a task is refused.
    pub open spec fn fault(self) -> Option<UiError> {
        if text::trimmed(self.label@).len() == 0 {
            Some(UiError::EmptyTaskLabel)
        } else if total_of(self.kind) == Some(0u64) {
            Some(UiError::ZeroTotal)
        } else if self.deadline matches Some(d) && d@ == 0 {
            Some(UiError::ZeroDeadline)
        } else {
            None
        }
    }

    /// Checks a task.
    pub fn validate(self) -> (r: Result<ValidatedTaskOptions, UiError>)
        ensures
            match self.fault() {
                Some(e) => r == Err::<ValidatedTaskOptions, UiError>(e),
                None => r matches Ok(o) && o.label@ == text::trimmed(self.label@) && o.kind
                    == self.kind && o.deadline == self.deadline && o.visibility == self.visibility,
            },
    {
        let label = text::trim(self.label.as_str());
        if label.as_str().is_empty() {
            return Err(UiError::EmptyTaskLabel);
        }
        let zero = match &self.kind {
            TaskKind::Indeterminate => false,
            TaskKind::Counter { total, .. } => *total == 0,
            TaskKind::Countdown { total } => *total == 0,
        };
        if zero {
            return Err(UiError::ZeroTotal);
        }
        if let Some(deadline) = self.deadline {
            if deadline.is_zero() {
                return Err(UiError::ZeroDeadline);
            }
        }
        Ok(
            ValidatedTaskOptions {
                label,
                kind: self.kind,
                deadline: self.deadline,
                visibility: self.visibility,
            },
        )
    }
}

/// How a task ended.
#[derive(Clone, Debug, PartialEq, Eq)]
pub enum TaskOutcome {
    Success(String),
    Failure(String),
    Abandoned(String),
    Clear,
}

/// A task under way.
#[derive(Debug, PartialEq, Eq)]
pub struct TaskState {
    options: ValidatedTaskOptions,
    phase: Option<String>,
    detail: Option<String>,
    position: u64,
    phase_revision: u64,
    outcome: Option<TaskOutcome>,
}

/// A text behind a separator, where there is one.
pub open spec fn appended(s: Option<String>) -> Seq<char> {
    match s {
        Some(t) => " · "@ + t@,
        None => Seq::empty(),
    }
}

/// The count of a task.
pub open spec fn count_text(kind: TaskKind, position: u64) -> Seq<char> {
    match kind {
        TaskKind::Indeterminate => Seq::empty(),
        TaskKind::Counter { total, unit } => " · "@ + text::decimal(position as nat) + "/"@
            + text::decimal(total as nat) + match unit {
            Some(u) => " "@ + u@,
            None => Seq::empty(),
        },
        TaskKind::Countdown { total } => " · "@ + clock(
            if total >= position {
                (total - position) as nat
            } else {
                0
            },
        ) + " remaining"@,
    }
}

/// The time that a task has left.
pub open spec fn deadline_text(deadline: Option<Duration>, elapsed: nat) -> Seq<char> {
    match deadline {
        Some(d) => " · deadline in "@ + span_text(
            if d@ >= elapsed {
                (d@ - elapsed) as nat
            } else {
                0
            },
        ),
        None => Seq::empty(),
    }
}

impl TaskState {
    /// A position never goes beyond the total.
    #[verifier::type_invariant]
    pub closed spec fn within_total(self) -> bool {
        total_of(self.options.kind) matches Some(total) ==> self.position <= total
    }

    /// The options of the task.
    pub closed spec fn declared(self) -> ValidatedTaskOptions {
        self.options
    }

    /// The phase and the detail of the task.
    pub closed spec fn notes(self) -> (Option<String>, Option<String>) {
        (self.phase, self.detail)
    }

    /// How far the task has come.
    pub closed spec fn reached(self) -> u64 {
        self.position
    }

    /// How often the phase was set, counted round.
    pub closed spec fn revision(self) -> u64 {
        self.phase_revision
    }

    /// How the task ended, once it has.
    pub closed spec fn ended(self) -> Option<TaskOutcome> {
        self.outcome
    }

    /// The greatest position of the task.
    pub open spec fn limit(self) -> int {
        match total_of(self.declared().kind) {
            Some(total) => total as int,
            None => u64::MAX as int,
        }
    }

    /// A task that has just begun.
    pub fn new(options: ValidatedTaskOptions) -> (r: TaskState)
        ensures
            r.declared() == options,
            r.notes() == (None::<String>, None::<String>),
            r.reached() == 0,
            r.revision() == 0,
            r.ended() is None,
    {
        TaskState {
            options,
            phase: None,
            detail: None,
            position: 0,
            phase_revision: 0,
            outcome: None,
        }
    }

    /// The label of the task.
    pub fn label(&self) -> (r: &String)
        ensures
            *r == self.declared().label,
    {
        &self.options.label
    }

    fn total(&self) -> (r: Option<u64>)
        ensures
            r == total_of(self.declared().kind),
    {
        match &self.options.kind {
            TaskKind::Indeterminate => None,
            TaskKind::Counter { total, .. } => Some(*total),
            TaskKind::Countdown { total } => Some(*total),
        }
    }

    /// Sets the phase.
    pub fn set_phase(&mut self, phase: String)
        ensures
            final(self).declared() == old(self).declared(),
            final(self).notes() == (Some(phase), old(self).notes().1),
            final(self).reached() == old(self).reached(),
            final(self).revision() == if old(self).revision() == u64::MAX {
                0
            } else {
                old(self).revision() + 1
            },
            final(self).ended() == old(self).ended(),
    {
        proof {
            use_type_invariant(&*self);
        }
        self.phase = Some(phase);
        if self.phase_revision == u64::MAX {
            self.phase_revision = 0;
        } else {
            self.phase_revision = self.phase_revision + 1;
        }
    }

    /// Sets the detail.
    pub fn set_detail(&mut self, detail: String)
        ensures
            final(self).declared() == old(self).declared(),
            final(self).notes() == (old(self).notes().0, Some(detail)),
            final(self).reached() == old(self).reached(),
            final(self).revision() == old(self).revision(),
            final(self).ended() == old(self).ended(),
    {
        proof {
            use_type_invariant(&*self);
        }
        self.detail = Some(detail);
    }

    /// Clears the detail.
    pub fn clear_detail(&mut self)
        ensures
            final(self).declared() == old(self).declared(),
            final(self).notes() == (old(self).notes().0, None::<String>),
            final(self).reached() == old(self).reached(),
            final(self).revision() == old(self).revision(),
            final(self).ended() == old(self).ended(),
    {
        proof {
            use_type_invariant(&*self);
        }
        self.detail = None;
    }

    /// Sets the position, up to the total.
    pub fn set_position(&mut self, position: u64)
        ensures
            final(self).declared() == old(self).declared(),
            final(self).notes() == old(self).notes(),
            final(self).reached() == if position <= old(self).limit() {
                position as int
            } else {
                old(self).limit()
            },
            final(self).revision() == old(self).revision(),
            final(self).ended() == old(self).ended(),
    {
        proof {
            use_type_invariant(&*self);
        }
        let limit: u64 = match self.total() {
            Some(total) => total,
            None => u64::MAX,
        };
        self.position = if position <= limit { position } else { limit };
    }

    /// Moves the position forward, up to the total.
    pub fn inc(&mut self, delta: u64)
        ensures
            final(self).declared() == old(self).declared(),
            final(self).notes() == old(self).notes(),
            final(self).reached() == if old(self).reached() + delta <= old(self).limit() {
                old(self).reached() + delta
            } else {
                old(self).limit()
            },
            final(self).revision() == old(self).revision(),
            final(self).ended() == old(self).ended(),
    {
        let sum: u64 = if self.position > u64::MAX - delta {
            u64::MAX
        } else {
            self.position + delta
        };
        self.set_position(sum);
    }

    /// Ends the task, unless it has ended: the first outcome stands.
    pub fn set_outcome(&mut self, outcome: TaskOutcome)
        ensures
            final(self).declared() == old(self).declared(),
            final(self).notes() == old(self).notes(),
            final(self).reached() == old(self).reached(),
            final(self).revision() == old(self).revision(),
            final(self).ended() == match old(self).ended() {
                Some(first) => Some(first),
                None => Some(outcome),
            },
    {
        proof {
            use_type_invariant(&*self);
        }
        if self.outcome.is_none() {
            self.outcome = Some(outcome);
        }
    }

    /// The message of the task.
    pub open spec fn text(self, elapsed: nat) -> Seq<char> {
        let o = self.declared();
        o.label@ + appended(self.notes().0) + appended(self.notes().1) + count_text(
            o.kind,
            self.reached(),
        ) + " · elapsed "@ + span_text(elapsed) + deadline_text(o.deadline, elapsed)
    }

    /// The message of the task after some time.
    pub fn render_message(&self, elapsed: Duration) -> (out: String)
        ensures
            out@ == self.text(elapsed@),
    {
        let mut message = self.options.label.clone();
        append_note(&mut message, &self.phase);
        append_note(&mut message, &self.detail);
        let count = render_count(&self.options.kind, self.position);
        message.append(count.as_str());
        message.append(" · elapsed ");
        let span = format_duration(elapsed);
        message.append(span.as_str());
        let deadline = render_deadline(&self.options.deadline, elapsed);
        message.append(deadline.as_str());
        message
    }
}

fn append_note(message: &mut String, note: &Option<String>)
    ensures
        final(message)@ == old(message)@ + appended(*note),
{
    let ghost before = message@;
    if let Some(t) = note {
        message.append(" · ");
        message.append(t.as_str());
    }
    assert(message@ =~= before + appended(*note));
}

fn render_count(kind: &TaskKind, position: u64) -> (out: String)
    ensures
        out@ == count_text(*kind, position),
{
    match kind {
        TaskKind::Indeterminate => String::new(),
        TaskKind::Counter { total, unit } => {
            let done = text::decimal_u64(position);
            let all = text::decimal_u64(*total);
            let mut out = " · ".to_owned().concat(done.as_str()).concat("/").concat(all.as_str());
            let ghost plain = out@;
            if let Some(u) = unit {
                out.append(" ");
                out.append(u.as_str());
            }
            assert(out@ =~= plain + match unit {
                Some(u) => " "@ + u@,
                None => Seq::empty(),
            });
            out
        },
        TaskKind::Countdown { total } => {
            let remaining: u64 = if *total >= position { *total - position } else { 0 };
            let left = format_seconds(remaining);
            " · ".to_owned().concat(left.as_str()).concat(" remaining")
        },
    }
}

fn render_deadline(deadline: &Option<Duration>, elapsed: Duration) -> (out: String)
    ensures
        out@ == deadline_text(*deadline, elapsed@),
{
    match deadline {
        Some(d) => {
            let left = format_duration(d.saturating_sub(&elapsed));
            " · deadline in ".to_owned().concat(left.as_str())
        },
        None => String::new(),
    }
}

/// A message with a mark in front and the time behind.
pub open spec fn ended_text(mark: Seq<char>, message: Seq<char>, elapsed: nat) -> Seq<char> {
    mark + " "@ + message + " · "@ + span_text(elapsed)
}

fn render_ended(mark: &str, message: &str, elapsed: Duration) -> (out: String)
    ensures
        out@ == ended_text(mark@, message@, elapsed@),
{
    let span = format_duration(elapsed);
    mark.to_owned().concat(" ").concat(message).concat(" · ").concat(span.as_str())
}

/// The line for the end of a task that is shown as lines.
pub open spec fn plain_outcome(outcome: TaskOutcome, label: Seq<char>, elapsed: nat) -> Seq<char> {
    match outcome {
        TaskOutcome::Success(m) => ended_text("[ok]"@, m@, elapsed),
        TaskOutcome::Failure(m) => ended_text("[fail]"@, m@, elapsed),
        TaskOutcome::Abandoned(m) => ended_text("[stop]"@, m@, elapsed),
        TaskOutcome::Clear => ended_text("[done]"@, label, elapsed),
    }
}

/// The line for the end of a task that is shown as a bar, where it leaves one.
pub open spec fn interactive_outcome(outcome: TaskOutcome, elapsed: nat) -> Option<Seq<char>> {
    match outcome {
        TaskOutcome::Success(m) => Some(ended_text("✓"@, m@, elapsed)),
        TaskOutcome::Failure(m) => Some(ended_text("✗"@, m@, elapsed)),
        TaskOutcome::Abandoned(m) => Some(ended_text("!"@, m@, elapsed)),
        TaskOutcome::Clear => None,
    }
}

/// The line for the end of a task that is shown as lines.
pub fn render_plain_outcome(outcome: &TaskOutcome, label: &str, elapsed: Duration) -> (out: String)
    ensures
        out@ == plain_outcome(*outcome, label@, elapsed@),
{
    match outcome {
        TaskOutcome::Success(m) => render_ended("[ok]", m.as_str(), elapsed),
        TaskOutcome::Failure(m) => render_ended("[fail]", m.as_str(), elapsed),
        TaskOutcome::Abandoned(m) => render_ended("[stop]", m.as_str(), elapsed),
        TaskOutcome::Clear => render_ended("[done]", label, elapsed),
    }
}

/// The line for the end of a task that is shown as a bar, where it leaves one.
pub fn render_interactive_outcome(outcome: &TaskOutcome, elapsed: Duration) -> (r: Option<String>)
    ensures
        text::opt(r) == interactive_outcome(*outcome, elapsed@),
{
    match outcome {
        TaskOutcome::Success(m) => Some(render_ended("✓", m.as_str(), elapsed)),
        TaskOutcome::Failure(m) => Some(render_ended("✗", m.as_str(), elapsed)),
        TaskOutcome::Abandoned(m) => Some(render_ended("!", m.as_str(), elapsed)),
        TaskOutcome::Clear => None,
    }
}

impl TaskState {
    /// The line for a task that ended before it was shown: none where it was
    /// only cleared.
    pub fn fast_completion(&self, elapsed: Duration) -> (r: Option<String>)
        ensures
            text::opt(r) == match self.ended() {
                Some(TaskOutcome::Clear) => None,
                Some(outcome) => Some(
                    plain_outcome(outcome, self.declared().label@, elapsed@),
                ),
                None => None,
            },
    {
        match &self.outcome {
            Some(TaskOutcome::Clear) => None,
            Some(outcome) => Some(
                render_plain_outcome(outcome, self.options.label.as_str(), elapsed),
            ),
            None => None,
        }
    }

    /// How long the task stays hidden.
    pub fn visibility_delay(&self, default_delay: Duration) -> (r: Duration)
        ensures
            r@ == match self.declared().visibility {
                TaskVisibility::Immediate => 0,
                TaskVisibility::Delayed => default_delay@,
            },
    {
        match self.options.visibility {
            TaskVisibility::Immediate => Duration::zero(),
            TaskVisibility::Delayed => default_delay,
        }
    }
}

/// What a task that is shown as lines shows after a wait.
#[derive(Debug, PartialEq, Eq)]
pub enum PlainStep {
    Phase(String),
    Heartbeat(String),
    Quiet,
}

impl TaskState {
    /// The first line of a task that is shown as lines.
    pub fn start_line(&self, elapsed: Duration) -> (out: String)
        ensures
            out@ == "[start] "@ + self.text(elapsed@),
    {
        let message = self.render_message(elapsed);
        "[start] ".to_owned().concat(message.as_str())
    }

    /// The last line of a task that is shown as lines, once it has ended.
    pub fn end_line(&self, elapsed: Duration) -> (r: Option<String>)
        ensures
            text::opt(r) == match self.ended() {
                Some(outcome) => Some(plain_outcome(outcome, self.declared().label@, elapsed@)),
                None => None,
            },
    {
        match &self.outcome {
            Some(outcome) => Some(
                render_plain_outcome(outcome, self.options.label.as_str(), elapsed),
            ),
            None => None,
        }
    }

    /// What a task that is shown as lines shows after a wait: a phase that was
    /// not shown yet, else a sign of life where the last line is long ago.
    pub fn plain_step(
        &self,
        seen_revision: u64,
        since_line: Duration,
        heartbeat: Duration,
        elapsed: Duration,
    ) -> (r: PlainStep)
        ensures
            if self.revision() != seen_revision {
                r matches PlainStep::Phase(line) && line@ == "[phase] "@ + self.text(elapsed@)
            } else if since_line@ >= heartbeat@ {
                r matches PlainStep::Heartbeat(line) && line@ == "[wait] "@ + self.text(elapsed@)
            } else {
                r is Quiet
            },
    {
        let message = self.render_message(elapsed);
        if self.phase_revision != seen_revision {
            PlainStep::Phase("[phase] ".to_owned().concat(message.as_str()))
        } else if heartbeat.at_most(&since_line) {
            PlainStep::Heartbeat("[wait] ".to_owned().concat(message.as_str()))
        } else {
            PlainStep::Quiet
        }
    }

    /// The revision of the phase that was shown last.
    pub fn phase_revision(&self) -> (r: u64)
        ensures
            r == self.revision(),
    {
        self.phase_revision
    }

    /// The position of the task.
    pub fn position(&self) -> (r: u64)
        ensures
            r == self.reached(),
            r <= self.limit(),
    {
        proof {
            use_type_invariant(self);
        }
        self.position
    }

    /// How the task ended, once it has.
    pub fn outcome(&self) -> (r: &Option<TaskOutcome>)
        ensures
            *r == self.ended(),
    {
        &self.outcome
    }
}

/// How a task ends whose operation succeeded or failed: a success clears it, an
/// interrupt abandons it, and any other error fails it.
pub fn run_outcome(label: &str, error: Option<&ErrorChain>) -> (r: TaskOutcome)
    ensures
        match error {
            None => r is Clear,
            Some(e) => if holds_cancellation(e.causes@) {
                r matches TaskOutcome::Abandoned(m) && m@ == label@ + " interrupted"@
            } else {
                r matches TaskOutcome::Failure(m) && m@ == e.words()
            },
        },
{
    match error {
        None => TaskOutcome::Clear,
        Some(e) => if error_is_cancelled(e) {
            TaskOutcome::Abandoned(label.to_owned().concat(" interrupted"))
        } else {
            TaskOutcome::Failure(e.message())
        },
    }
}

// ---------------------------------------------------------------------------
// Live groups and rows
// ---------------------------------------------------------------------------

/// What is shown of a live group or row: nothing, one more line, another
/// message in its place on the screen, a last message there, or nothing there
/// any more.
#[derive(Debug, PartialEq, Eq)]
pub enum Display {
    Nothing,
    Line(String),
    Update(String),
    Close(String),
    Erase,
}

/// The mark of an ending on a line.
pub open spec fn line_mark(ending: LiveEnding) -> Seq<char> {
    match ending {
        LiveEnding::Finished => "[ok]"@,
        LiveEnding::Failed => "[fail]"@,
        LiveEnding::Abandoned => "[stop]"@,
    }
}

/// The mark of an ending on a screen.
pub open spec fn screen_mark(ending: LiveEnding) -> Seq<char> {
    match ending {
        LiveEnding::Finished => "✓"@,
        LiveEnding::Failed => "✗"@,
        LiveEnding::Abandoned => "!"@,
    }
}

/// How a live group or row ended.
#[derive(Clone, Copy, Debug, PartialEq, Eq, Structural)]
pub enum LiveEnding {
    Finished,
    Failed,
    Abandoned,
}

fn line_mark_of(ending: LiveEnding) -> (r: &'static str)
    ensures
        r@ == line_mark(ending),
{
    match ending {
        LiveEnding::Finished => "[ok]",
        LiveEnding::Failed => "[fail]",
        LiveEnding::Abandoned => "[stop]",
    }
}

fn screen_mark_of(ending: LiveEnding) -> (r: &'static str)
    ensures
        r@ == screen_mark(ending),
{
    match ending {
        LiveEnding::Finished => "✓",
        LiveEnding::Failed => "✗",
        LiveEnding::Abandoned => "!",
    }
}

/// Whether what is shown is one more line.
pub open spec fn shows_line(d: Display, line: Seq<char>) -> bool {
    d matches Display::Line(s) && s@ == line
}

/// Whether what is shown is another message on the screen.
pub open spec fn shows_update(d: Display, message: Seq<char>) -> bool {
    d matches Display::Update(s) && s@ == message
}

/// Whether what is shown is a last message on the screen.
pub open spec fn shows_close(d: Display, message: Seq<char>) -> bool {
    d matches Display::Close(s) && s@ == message
}

/// A group of rows that are shown while they change.
#[derive(Debug, PartialEq, Eq)]
pub struct LiveGroup {
    mode: ResolvedProgressMode,
    finished: bool,
}

impl LiveGroup {
    /// How the group is shown.
    pub closed spec fn shown_as(self) -> ResolvedProgressMode {
        self.mode
    }

    /// Whether the group has ended.
    pub closed spec fn over(self) -> bool {
        self.finished
    }

    /// A group with a label.
    pub fn new(mode: ResolvedProgressMode, label: &str) -> (r: Result<(LiveGroup, Display), UiError>)
        ensures
            ({
                let name = text::trimmed(label@);
                if name.len() == 0 {
                    r == Err::<(LiveGroup, Display), UiError>(UiError::EmptyGroupLabel)
                } else {
                    r matches Ok(pair) && pair.0.shown_as() == mode && !pair.0.over() && match mode {
                        ResolvedProgressMode::Interactive => shows_update(pair.1, name),
                        ResolvedProgressMode::Plain => shows_line(pair.1, "[start] "@ + name),
                        ResolvedProgressMode::Off => pair.1 is Nothing,
                    }
                }
            }),
    {
        let name = text::trim(label);
        if name.as_str().is_empty() {
            return Err(UiError::EmptyGroupLabel);
        }
        let display = match mode {
            ResolvedProgressMode::Interactive => Display::Update(name),
            ResolvedProgressMode::Plain => Display::Line(
                "[start] ".to_owned().concat(name.as_str()),
            ),
            ResolvedProgressMode::Off => Display::Nothing,
        };
        Ok((LiveGroup { mode, finished: false }, display))
    }

    /// A row with a label and a phase.
    pub fn row(&self, label: &str, phase: String) -> (r: Result<(LiveRow, Display), UiError>)
        ensures
            ({
                let name = text::trimmed(label@);
                if name.len() == 0 {
                    r == Err::<(LiveRow, Display), UiError>(UiError::EmptyRowLabel)
                } else {
                    r matches Ok(pair) && pair.0.begun(self.shown_as(), Some(name), phase)
                        && row_started(self.shown_as(), Some(name), phase@, pair.1)
                }
            }),
    {
        let name = text::trim(label);
        if name.as_str().is_empty() {
            return Err(UiError::EmptyRowLabel);
        }
        Ok(LiveRow::start(self.mode, Some(name), phase))
    }

    /// A row whose message is laid out by the caller.
    pub fn rendered_row(&self, message: String) -> (r: Result<(LiveRow, Display), UiError>)
        ensures
            if text::trimmed(message@).len() == 0 {
                r == Err::<(LiveRow, Display), UiError>(UiError::EmptyRenderedRow)
            } else {
                r matches Ok(pair) && pair.0.begun(self.shown_as(), None, message) && row_started(
                    self.shown_as(),
                    None,
                    message@,
                    pair.1,
                )
            },
    {
        let trimmed = text::trim(message.as_str());
        if trimmed.as_str().is_empty() {
            return Err(UiError::EmptyRenderedRow);
        }
        Ok(LiveRow::start(self.mode, None, message))
    }

    /// Shows a summary: on the screen at once, as a line only where the last is
    /// long ago.
    pub fn set_summary(&self, message: String, since_summary: Duration, heartbeat: Duration) -> (r:
        Display)
        ensures
            match self.shown_as() {
                ResolvedProgressMode::Interactive => if self.over() {
                    r is Nothing
                } else {
                    shows_update(r, message@)
                },
                ResolvedProgressMode::Plain => if since_summary@ >= heartbeat@ {
                    shows_line(r, "[wait] "@ + message@)
                } else {
                    r is Nothing
                },
                ResolvedProgressMode::Off => r is Nothing,
            },
    {
        match self.mode {
            ResolvedProgressMode::Interactive => if self.finished {
                Display::Nothing
            } else {
                Display::Update(message)
            },
            ResolvedProgressMode::Plain => if heartbeat.at_most(&since_summary) {
                Display::Line("[wait] ".to_owned().concat(message.as_str()))
            } else {
                Display::Nothing
            },
            ResolvedProgressMode::Off => Display::Nothing,
        }
    }

    /// Shows a summary at once.
    pub fn print_summary(&self, message: String) -> (r: Display)
        ensures
            match self.shown_as() {
                ResolvedProgressMode::Interactive => if self.over() {
                    r is Nothing
                } else {
                    shows_update(r, message@)
                },
                ResolvedProgressMode::Plain => shows_line(r, "[status] "@ + message@),
                ResolvedProgressMode::Off => r is Nothing,
            },
    {
        match self.mode {
            ResolvedProgressMode::Interactive => if self.finished {
                Display::Nothing
            } else {
                Display::Update(message)
            },
            ResolvedProgressMode::Plain => Display::Line(
                "[status] ".to_owned().concat(message.as_str()),
            ),
            ResolvedProgressMode::Off => Display::Nothing,
        }
    }

    /// Whether the group ended as is said, or had ended before.
    pub open spec fn ends(
        self,
        after: LiveGroup,
        ending: LiveEnding,
        message: Seq<char>,
        elapsed: nat,
        shown: Display,
    ) -> bool {
        &&& after.shown_as() == self.shown_as()
        &&& after.over()
        &&& if self.over() {
            shown is Nothing
        } else {
            match self.shown_as() {
                ResolvedProgressMode::Interactive => shows_close(
                    shown,
                    ended_text(screen_mark(ending), message, elapsed),
                ),
                ResolvedProgressMode::Plain => shows_line(
                    shown,
                    ended_text(line_mark(ending), message, elapsed),
                ),
                ResolvedProgressMode::Off => shown is Nothing,
            }
        }
    }

    /// Ends the group with success, unless it has ended.
    pub fn finish(&mut self, message: &str, elapsed: Duration) -> (r: Display)
        ensures
            old(self).ends(*final(self), LiveEnding::Finished, message@, elapsed@, r),
    {
        self.complete(LiveEnding::Finished, message, elapsed)
    }

    /// Ends the group with a failure, unless it has ended.
    pub fn fail(&mut self, message: &str, elapsed: Duration) -> (r: Display)
        ensures
            old(self).ends(*final(self), LiveEnding::Failed, message@, elapsed@, r),
    {
        self.complete(LiveEnding::Failed, message, elapsed)
    }

    /// Ends the group before its work is done, unless it has ended.
    pub fn abandon(&mut self, message: &str, elapsed: Duration) -> (r: Display)
        ensures
            old(self).ends(*final(self), LiveEnding::Abandoned, message@, elapsed@, r),
    {
        self.complete(LiveEnding::Abandoned, message, elapsed)
    }

    fn complete(&mut self, ending: LiveEnding, message: &str, elapsed: Duration) -> (r: Display)
        ensures
            old(self).ends(*final(self), ending, message@, elapsed@, r),
    {
        if self.finished {
            return Display::Nothing;
        }
        self.finished = true;
        match self.mode {
            ResolvedProgressMode::Interactive => Display::Close(
                render_ended(screen_mark_of(ending), message, elapsed),
            ),
            ResolvedProgressMode::Plain => Display::Line(
                render_ended(line_mark_of(ending), message, elapsed),
            ),
            ResolvedProgressMode::Off => Display::Nothing,
        }
    }

    /// Ends the group without a word, unless it has ended.
    pub fn clear(&mut self) -> (r: Display)
        ensures
            final(self).shown_as() == old(self).shown_as(),
            final(self).over(),
            r == if !old(self).over() && old(self).shown_as() is Interactive {
                Display::Erase
            } else {
                Display::Nothing
            },
    {
        if self.finished {
            return Display::Nothing;
        }
        self.finished = true;
        match self.mode {
            ResolvedProgressMode::Interactive => Display::Erase,
            _ => Display::Nothing,
        }
    }
}

/// A row of a live group. Its label is missing where the caller lays out its
/// messages.
#[derive(Debug, PartialEq, Eq)]
pub struct LiveRow {
    mode: ResolvedProgressMode,
    label: Option<String>,
    message: String,
    finished: bool,
}

/// The message of a row on a line.
pub open spec fn row_line(label: Option<Seq<char>>, message: Seq<char>) -> Seq<char> {
    match label {
        Some(l) => l + " · "@ + message,
        None => message,
    }
}

/// Whether what is shown is a row that has just begun.
pub open spec fn row_started(
    mode: ResolvedProgressMode,
    label: Option<Seq<char>>,
    message: Seq<char>,
    d: Display,
) -> bool {
    match mode {
        ResolvedProgressMode::Interactive => shows_update(d, message),
        ResolvedProgressMode::Plain => shows_line(d, "[item] "@ + row_line(label, message)),
        ResolvedProgressMode::Off => d is Nothing,
    }
}

impl LiveRow {
    /// How the row is shown.
    pub closed spec fn shown_as(self) -> ResolvedProgressMode {
        self.mode
    }

    /// The label of the row.
    pub closed spec fn name(self) -> Option<Seq<char>> {
        text::opt(self.label)
    }

    /// The message of the row.
    pub closed spec fn current(self) -> Seq<char> {
        self.message@
    }

    /// Whether the row has ended.
    pub closed spec fn over(self) -> bool {
        self.finished
    }

    /// Whether the row has just begun.
    pub open spec fn begun(
        self,
        mode: ResolvedProgressMode,
        label: Option<Seq<char>>,
        message: String,
    ) -> bool {
        self.shown_as() == mode && self.name() == label && self.current() == message@
            && !self.over()
    }

    fn start(mode: ResolvedProgressMode, label: Option<String>, message: String) -> (r: (
        LiveRow,
        Display,
    ))
        ensures
            r.0.begun(mode, text::opt(label), message),
            row_started(mode, text::opt(label), message@, r.1),
    {
        let display = match mode {
            ResolvedProgressMode::Interactive => Display::Update(message.clone()),
            ResolvedProgressMode::Plain => {
                let line = render_row(&label, message.as_str());
                Display::Line("[item] ".to_owned().concat(line.as_str()))
            },
            ResolvedProgressMode::Off => Display::Nothing,
        };
        (LiveRow { mode, label, message, finished: false }, display)
    }

    /// Whether the row shows another message, unless it is the same or the row
    /// had ended.
    pub open spec fn turns_to(self, after: LiveRow, message: Seq<char>, shown: Display) -> bool {
        &&& after.shown_as() == self.shown_as()
        &&& after.name() == self.name()
        &&& after.over() == self.over()
        &&& if self.current() == message || self.over() {
            shown is Nothing && after.current() == self.current()
        } else {
            after.current() == message && match self.shown_as() {
                ResolvedProgressMode::Interactive => shows_update(shown, message),
                ResolvedProgressMode::Plain => shows_line(
                    shown,
                    "[phase] "@ + row_line(self.name(), message),
                ),
                ResolvedProgressMode::Off => shown is Nothing,
            }
        }
    }

    /// Shows another phase.
    pub fn set_phase(&mut self, phase: String) -> (r: Display)
        ensures
            old(self).turns_to(*final(self), phase@, r),
    {
        self.set_message(phase)
    }

    /// Shows another message that the caller laid out.
    pub fn set_rendered(&mut self, message: String) -> (r: Display)
        ensures
            old(self).turns_to(*final(self), message@, r),
    {
        self.set_message(message)
    }

    fn set_message(&mut self, message: String) -> (r: Display)
        ensures
            old(self).turns_to(*final(self), message@, r),
    {
        if self.message == message || self.finished {
            return Display::Nothing;
        }
        self.message = message.clone();
        match self.mode {
            ResolvedProgressMode::Interactive => Display::Update(message),
            ResolvedProgressMode::Plain => {
                let line = render_row(&self.label, message.as_str());
                Display::Line("[phase] ".to_owned().concat(line.as_str()))
            },
            ResolvedProgressMode::Off => Display::Nothing,
        }
    }

    /// Shows a message on the screen and leaves lines alone, unless the row has
    /// ended.
    pub fn set_detail(&mut self, detail: String) -> (r: Display)
        ensures
            final(self).shown_as() == old(self).shown_as(),
            final(self).name() == old(self).name(),
            final(self).over() == old(self).over(),
            if old(self).over() {
                r is Nothing && final(self).current() == old(self).current()
            } else {
                final(self).current() == detail@ && if old(self).shown_as() is Interactive {
                    shows_update(r, detail@)
                } else {
                    r is Nothing
                }
            },
    {
        if self.finished {
            return Display::Nothing;
        }
        self.message = detail.clone();
        match self.mode {
            ResolvedProgressMode::Interactive => Display::Update(detail),
            _ => Display::Nothing,
        }
    }

    /// Whether the row ended as is said, or had ended before.
    pub open spec fn ends(
        self,
        after: LiveRow,
        ending: LiveEnding,
        message: Seq<char>,
        elapsed: nat,
        shown: Display,
    ) -> bool {
        let line = row_line(self.name(), message);
        &&& after.shown_as() == self.shown_as()
        &&& after.name() == self.name()
        &&& after.current() == self.current()
        &&& after.over()
        &&& if self.over() {
            shown is Nothing
        } else {
            match self.shown_as() {
                ResolvedProgressMode::Interactive => shows_close(
                    shown,
                    ended_text(screen_mark(ending), line, elapsed),
                ),
                ResolvedProgressMode::Plain => shows_line(
                    shown,
                    ended_text(line_mark(ending), line, elapsed),
                ),
                ResolvedProgressMode::Off => shown is Nothing,
            }
        }
    }

    /// Ends the row with success, unless it has ended.
    pub fn finish(&mut self, message: &str, elapsed: Duration) -> (r: Display)
        ensures
            old(self).ends(*final(self), LiveEnding::Finished, message@, elapsed@, r),
    {
        self.complete(LiveEnding::Finished, message, elapsed)
    }

    /// Ends a row that the caller lays out with success, unless it has ended.
    pub fn finish_rendered(&mut self, message: &str, elapsed: Duration) -> (r: Display)
        ensures
            old(self).ends(*final(self), LiveEnding::Finished, message@, elapsed@, r),
    {
        self.complete(LiveEnding::Finished, message, elapsed)
    }

    /// Ends the row with a failure, unless it has ended.
    pub fn fail(&mut self, message: &str, elapsed: Duration) -> (r: Display)
        ensures
            old(self).ends(*final(self), LiveEnding::Failed, message@, elapsed@, r),
    {
        self.complete(LiveEnding::Failed, message, elapsed)
    }

    /// Ends the row before its work is done, unless it has ended.
    pub fn abandon(&mut self, message: &str, elapsed: Duration) -> (r: Display)
        ensures
            old(self).ends(*final(self), LiveEnding::Abandoned, message@, elapsed@, r),
    {
        self.complete(LiveEnding::Abandoned, message, elapsed)
    }

    fn complete(&mut self, ending: LiveEnding, message: &str, elapsed: Duration) -> (r: Display)
        ensures
            old(self).ends(*final(self), ending, message@, elapsed@, r),
    {
        if self.finished {
            return Display::Nothing;
        }
        self.finished = true;
        let line = render_row(&self.label, message);
        match self.mode {
            ResolvedProgressMode::Interactive => Display::Close(
                render_ended(screen_mark_of(ending), line.as_str(), elapsed),
            ),
            ResolvedProgressMode::Plain => Display::Line(
                render_ended(line_mark_of(ending), line.as_str(), elapsed),
            ),
            ResolvedProgressMode::Off => Display::Nothing,
        }
    }

    /// Ends the row without a word, unless it has ended.
    pub fn clear(&mut self) -> (r: Display)
        ensures
            final(self).shown_as() == old(self).shown_as(),
            final(self).name() == old(self).name(),
            final(self).current() == old(self).current(),
            final(self).over(),
            r == if !old(self).over() && old(self).shown_as() is Interactive {
                Display::Erase
            } else {
                Display::Nothing
            },
    {
        if self.finished {
            return Display::Nothing;
        }
        self.finished = true;
        match self.mode {
            ResolvedProgressMode::Interactive => Display::Erase,
            _ => Display::Nothing,
        }
    }
}

fn render_row(label: &Option<String>, message: &str) -> (out: String)
    ensures
        out@ == row_line(text::opt(*label), message@),
{
    match label {
        Some(l) => l.clone().concat(" · ").concat(message),
        None => message.to_owned(),
    }
}

// ---------------------------------------------------------------------------
// The user interface
// ---------------------------------------------------------------------------

/// A user interface with settled options.
#[derive(Clone, Copy, Debug, PartialEq, Eq)]
pub struct Ui {
    pub options: ValidatedUiOptions,
}

/// A line with a label in front.
pub open spec fn labelled(color: bool, code: Seq<char>, label: Seq<char>, message: Seq<char>) -> Seq<
    char,
> {
    if color {
        code + label + ":\x1b[0m "@ + message
    } else {
        label + ": "@ + message
    }
}

impl Ui {
    /// A user interface with settled options.
    pub fn new(options: ValidatedUiOptions) -> (r: Ui)
        ensures
            r.options == options,
    {
        Ui { options }
    }

    /// Whether progress is shown on a screen.
    pub fn is_interactive(&self) -> (r: bool)
        ensures
            r == (self.options.progress is Interactive),
    {
        match self.options.progress {
            ResolvedProgressMode::Interactive => true,
            _ => false,
        }
    }

    /// Whether progress is shown at all.
    pub fn progress_is_enabled(&self) -> (r: bool)
        ensures
            r == !(self.options.progress is Off),
    {
        match self.options.progress {
            ResolvedProgressMode::Off => false,
            _ => true,
        }
    }

    /// Whether the standard error output is colored.
    pub fn color_is_enabled(&self) -> (r: bool)
        ensures
            r == self.options.color,
    {
        self.options.color
    }

    /// Whether the standard output is colored.
    pub fn stdout_color_is_enabled(&self) -> (r: bool)
        ensures
            r == self.options.stdout_color,
    {
        self.options.stdout_color
    }

    /// A task that has just begun.
    pub fn task(&self, options: TaskOptions) -> (r: Result<TaskState, UiError>)
        ensures
            match options.fault() {
                Some(e) => r matches Err(actual) && actual == e,
                None => r matches Ok(task) && task.declared().label@ == text::trimmed(
                    options.label@,
                ) && task.declared().kind == options.kind && task.declared().deadline
                    == options.deadline && task.declared().visibility == options.visibility
                    && task.notes() == (None::<String>, None::<String>) && task.reached() == 0
                    && task.revision() == 0 && task.ended() is None,
            },
    {
        match options.validate() {
            Ok(checked) => Ok(TaskState::new(checked)),
            Err(e) => Err(e),
        }
    }

    /// A group of rows with a label.
    pub fn live_group(&self, label: &str) -> (r: Result<(LiveGroup, Display), UiError>)
        ensures
            ({
                let name = text::trimmed(label@);
                if name.len() == 0 {
                    r == Err::<(LiveGroup, Display), UiError>(UiError::EmptyGroupLabel)
                } else {
                    r matches Ok(pair) && pair.0.shown_as() == self.options.progress
                        && !pair.0.over() && match self.options.progress {
                        ResolvedProgressMode::Interactive => shows_update(pair.1, name),
                        ResolvedProgressMode::Plain => shows_line(pair.1, "[start] "@ + name),
                        ResolvedProgressMode::Off => pair.1 is Nothing,
                    }
                }
            }),
    {
        LiveGroup::new(self.options.progress, label)
    }

    fn line(&self, label: &str, message: &str, code: &str) -> (out: String)
        ensures
            out@ == labelled(self.options.color, code@, label@, message@),
    {
        if self.options.color {
            code.to_owned().concat(label).concat(":\x1b[0m ").concat(message)
        } else {
            label.to_owned().concat(": ").concat(message)
        }
    }

    /// The line of an information.
    pub fn info(&self, message: &str) -> (out: String)
        ensures
            out@ == labelled(self.options.color, "\x1b[1;36m"@, "info"@, message@),
    {
        self.line("info", message, "\x1b[1;36m")
    }

    /// The line of a success.
    pub fn success(&self, message: &str) -> (out: String)
        ensures
            out@ == labelled(self.options.color, "\x1b[1;32m"@, "ok"@, message@),
    {
        self.line("ok", message, "\x1b[1;32m")
    }

    /// The line of a warning.
    pub fn warn(&self, message: &str) -> (out: String)
        ensures
            out@ == labelled(self.options.color, "\x1b[1;33m"@, "warning"@, message@),
    {
        self.line("warning", message, "\x1b[1;33m")
    }

    /// The line of an error.
    pub fn error(&self, message: &str) -> (out: String)
        ensures
            out@ == labelled(self.options.color, "\x1b[1;31m"@, "error"@, message@),
    {
        self.line("error", message, "\x1b[1;31m")
    }

    /// The line of a detail.
    pub fn detail(&self, message: &str) -> (out: String)
        ensures
            out@ == "    "@ + message@,
    {
        "    ".to_owned().concat(message)
    }
}

/// The template of a task's bar.
pub fn task_template(kind: &TaskKind, color: bool) -> (r: &'static str)
    ensures
        r@ == match (kind, color) {
            (TaskKind::Indeterminate, true) => "{spinner:.cyan} {msg}"@,
            (TaskKind::Indeterminate, false) => "{spinner} {msg}"@,
            (_, true) => "[{bar:28.cyan/blue}] {msg}"@,
            (_, false) => "[{bar:28}] {msg}"@,
        },
{
    match kind {
        TaskKind::Indeterminate => if color {
            "{spinner:.cyan} {msg}"
        } else {
            "{spinner} {msg}"
        },
        _ => if color {
            "[{bar:28.cyan/blue}] {msg}"
        } else {
            "[{bar:28}] {msg}"
        },
    }
}

/// The template of a row's bar.
pub fn row_template(labelled: bool, color: bool) -> (r: &'static str)
    ensures
        r@ == match (labelled, color) {
            (true, true) => "{spinner:.cyan} {prefix:<24} {msg}"@,
            (true, false) => "{spinner} {prefix:<24} {msg}"@,
            (false, true) => "{spinner:.cyan} {msg}"@,
            (false, false) => "{spinner} {msg}"@,
        },
{
    if labelled {
        if color {
            "{spinner:.cyan} {prefix:<24} {msg}"
        } else {
            "{spinner} {prefix:<24} {msg}"
        }
    } else if color {
        "{spinner:.cyan} {msg}"
    } else {
        "{spinner} {msg}"
    }
}

} // verus!
