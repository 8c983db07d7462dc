//! What holds of what is shown to the user.

use vstd::prelude::*;

use crate::cancel::ErrorChain;
use crate::duration::Duration;
use crate::progress;
use crate::progress::{
    Display, LiveEnding, LiveGroup, LiveRow, PlainStep, ResolvedProgressMode, TaskKind, TaskOptions,
    TaskOutcome, TaskState, TerminalCapabilities, Ui, UiError, UiOptions, ValidatedTaskOptions,
    ValidatedUiOptions,
};
use crate::text;
use crate::ui;
use crate::ui::{
    Color, ConfirmRequest, RenderTarget, StderrRenderTarget, StdoutRenderTarget, TextEffect,
};

verus! {

proof fn lemma_two_digits(n: nat)
    requires
        n < 100,
    ensures
        progress::two_digits(n).len() == 2,
        text::decimal_value(progress::two_digits(n)) == n,
{
    reveal_with_fuel(text::decimal, 3);
    reveal_with_fuel(text::decimal_value, 3);
    let t = progress::two_digits(n);
    if n < 10 {
        assert(text::decimal(n).len() == 1);
        assert(t =~= seq!['0', text::digit(n as int)]);
    } else {
        assert(t =~= seq![text::digit((n / 10) as int), text::digit((n % 10) as int)]);
    }
    assert(t.drop_last() =~= seq![t[0]]);
    assert(t.drop_last().drop_last() =~= Seq::empty());
}

/// A number of seconds is read back from the clock: its last two digits are the
/// seconds, behind a colon; before that the minutes, and before a second colon,
/// where there is one, the hours.
pub proof fn law_a_clock_tells_the_seconds(seconds: u64, out: String)
    requires
        call_ensures(progress::format_seconds, (seconds,), out),
    ensures
        ({
            let n = out@.len() as int;
            &&& n >= 4
            &&& out@[n - 3] == ':'
            &&& text::decimal_value(out@.skip(n - 2)) == seconds % 60
            &&& seconds < 3600 ==> text::decimal_value(out@.take(n - 3)) * 60
                + text::decimal_value(out@.skip(n - 2)) == seconds
            &&& seconds >= 3600 ==> n >= 7 && out@[n - 6] == ':' && text::decimal_value(
                out@.take(n - 6),
            ) * 3600 + text::decimal_value(out@.subrange(n - 5, n - 3)) * 60
                + text::decimal_value(out@.skip(n - 2)) == seconds && text::decimal_value(
                out@.subrange(n - 5, n - 3),
            ) < 60
        }),
{
    reveal_strlit(":");
    let s = seconds as nat;
    let n = out@.len() as int;
    lemma_two_digits(s % 60);
    lemma_two_digits(s % 3600 / 60);
    text::lemma_decimal_value(s % 3600 / 60);
    text::lemma_decimal_value(s / 3600);
    assert(out@.skip(n - 2) =~= progress::two_digits(s % 60));
    if s < 3600 {
        assert(out@.take(n - 3) =~= text::decimal(s % 3600 / 60));
    } else {
        assert(out@.take(n - 6) =~= text::decimal(s / 3600));
        assert(out@.subrange(n - 5, n - 3) =~= progress::two_digits(s % 3600 / 60));
    }
}

/// A span of less than a second is told in milliseconds, a longer one by the
/// clock.
pub proof fn law_a_span_is_told_by_its_length(
    span: Duration,
    seconds: u64,
    clock: String,
    out: String,
)
    requires
        seconds as nat == span@ / 1_000_000_000,
        call_ensures(progress::format_duration, (span,), out),
        call_ensures(progress::format_seconds, (seconds,), clock),
    ensures
        span@ >= 1_000_000_000 ==> out@ == clock@,
        span@ < 1_000_000_000 ==> out@ == text::decimal(span@ / 1_000_000) + "ms"@,
{
}

/// Progress is drawn only on a terminal; it is refused where it must be drawn and
/// there is none, and where its heartbeat is zero. Colors follow what is asked,
/// else the terminal, unless they are not wanted.
pub proof fn law_progress_is_drawn_on_terminals(
    options: UiOptions,
    terminal: TerminalCapabilities,
    no_color: bool,
    r: Result<ValidatedUiOptions, UiError>,
)
    requires
        call_ensures(UiOptions::validate, (options, terminal, no_color), r),
    ensures
        r is Err <==> options.heartbeat_interval@ == 0 || options.progress is Interactive
            && !terminal.stderr,
        options.heartbeat_interval@ == 0 <==> r is Err && r->Err_0 is ZeroHeartbeat,
        r is Err ==> r->Err_0 is ZeroHeartbeat || r->Err_0 is NoTerminal,
        r matches Ok(o) ==> {
            &&& o.progress is Interactive ==> terminal.stderr
            &&& o.progress is Off <==> options.progress is Off
            &&& o.progress is Interactive <==> terminal.stderr && (options.progress is Auto
                || options.progress is Interactive)
            &&& options.color is Always ==> o.color && o.stdout_color
            &&& options.color is Never ==> !o.color && !o.stdout_color
            &&& options.color is Auto ==> (o.color <==> terminal.stderr && !no_color) && (
            o.stdout_color <==> terminal.stdout && !no_color)
            &&& o.heartbeat_interval == options.heartbeat_interval
            &&& o.visibility_delay == options.visibility_delay
            &&& o.cancellation == options.cancellation
        },
{
}

/// A task has a name, and neither its total nor its deadline is zero; otherwise
/// it is refused.
pub proof fn law_a_task_has_a_name_and_an_end(
    options: TaskOptions,
    r: Result<ValidatedTaskOptions, UiError>,
)
    requires
        call_ensures(TaskOptions::validate, (options,), r),
    ensures
        r is Ok <==> text::trimmed(options.label@).len() > 0 && (match options.kind {
            TaskKind::Indeterminate => true,
            TaskKind::Counter { total, .. } => total > 0,
            TaskKind::Countdown { total } => total > 0,
        }) && (options.deadline is Some ==> options.deadline->Some_0@ > 0),
        r is Err && r->Err_0 is EmptyTaskLabel <==> text::trimmed(options.label@).len() == 0,
        r matches Ok(o) ==> o.label@ == text::trimmed(options.label@) && o.kind == options.kind
            && o.deadline == options.deadline && o.visibility == options.visibility,
{
}

/// The message of a counter begins with its name and tells how much of the total
/// is reached, and that of a countdown how much remains.
pub proof fn law_a_message_tells_what_is_reached(
    task: TaskState,
    elapsed: Duration,
    remaining: u64,
    position: u64,
    out: String,
    clock: String,
    span: String,
)
    requires
        task.notes() == (None::<String>, None::<String>),
        task.declared().deadline is None,
        call_ensures(TaskState::render_message, (&task, elapsed), out),
        call_ensures(TaskState::position, (&task,), position),
        call_ensures(progress::format_seconds, (remaining,), clock),
        call_ensures(progress::format_duration, (elapsed,), span),
    ensures
        ({
            let label = task.declared().label@;
            match task.declared().kind {
                TaskKind::Indeterminate => out@ == label + " · elapsed "@ + span@,
                TaskKind::Counter { total, unit } => unit is None ==> out@ == label + (" · "@
                    + text::decimal(position as nat) + "/"@ + text::decimal(total as nat))
                    + " · elapsed "@ + span@ && position <= total,
                TaskKind::Countdown { total } => position <= total && (position + remaining == total
                    ==> out@ == label + (" · "@ + clock@ + " remaining"@) + " · elapsed "@ + span@),
            }
        }),
{
    let label = task.declared().label@;
    let e = Seq::<char>::empty();
    assert(label + e + e =~= label);
    assert(label + e =~= label);
    let count = progress::count_text(task.declared().kind, task.reached());
    let whole = label + count + " · elapsed "@ + span@;
    assert(whole + e =~= whole);
    match task.declared().kind {
        TaskKind::Counter { total, unit } => {
            let c = " · "@ + text::decimal(position as nat) + "/"@ + text::decimal(total as nat);
            assert(c + e =~= c);
        },
        _ => {},
    }
}

/// An outcome is told by its mark and its message; a task that was cleared is
/// told on lines only.
pub proof fn law_an_outcome_is_told_by_its_mark(
    outcome: TaskOutcome,
    label: &str,
    elapsed: Duration,
    line: String,
    drawn: Option<String>,
    span: String,
)
    requires
        call_ensures(progress::render_plain_outcome, (&outcome, label, elapsed), line),
        call_ensures(progress::render_interactive_outcome, (&outcome, elapsed), drawn),
        call_ensures(progress::format_duration, (elapsed,), span),
    ensures
        match outcome {
            TaskOutcome::Success(m) => line@ == "[ok]"@ + " "@ + m@ + " · "@ + span@ && drawn
                is Some && drawn->Some_0@ == "✓"@ + " "@ + m@ + " · "@ + span@,
            TaskOutcome::Failure(m) => line@ == "[fail]"@ + " "@ + m@ + " · "@ + span@ && drawn
                is Some && drawn->Some_0@ == "✗"@ + " "@ + m@ + " · "@ + span@,
            TaskOutcome::Abandoned(m) => line@ == "[stop]"@ + " "@ + m@ + " · "@ + span@ && drawn
                is Some && drawn->Some_0@ == "!"@ + " "@ + m@ + " · "@ + span@,
            TaskOutcome::Clear => line@ == "[done]"@ + " "@ + label@ + " · "@ + span@ && drawn
                is None,
        },
{
}

/// A change of phase is told at once, and otherwise a line comes only after the
/// pause between two of them; every line holds the whole message.
pub proof fn law_lines_come_with_changes_or_after_a_pause(
    task: TaskState,
    seen: u64,
    revision: u64,
    since: Duration,
    heartbeat: Duration,
    elapsed: Duration,
    message: String,
    step: PlainStep,
)
    requires
        call_ensures(TaskState::phase_revision, (&task,), revision),
        call_ensures(TaskState::render_message, (&task, elapsed), message),
        call_ensures(TaskState::plain_step, (&task, seen, since, heartbeat, elapsed), step),
    ensures
        step is Phase <==> revision != seen,
        step is Heartbeat <==> revision == seen && since@ >= heartbeat@,
        step matches PlainStep::Phase(line) ==> line@ == "[phase] "@ + message@,
        step matches PlainStep::Heartbeat(line) ==> line@ == "[wait] "@ + message@,
{
}

/// Work that ended well is cleared, work that was cancelled is abandoned, and any
/// other failure is told in its own words.
pub proof fn law_an_error_decides_the_outcome(
    label: &str,
    error: ErrorChain,
    well: TaskOutcome,
    ill: TaskOutcome,
)
    requires
        call_ensures(progress::run_outcome, (label, None::<&ErrorChain>), well),
        call_ensures(progress::run_outcome, (label, Some(&error)), ill),
    ensures
        well is Clear,
        ill is Abandoned <==> exists|i: int|
            0 <= i < error.causes@.len() && (#[trigger] error.causes@[i]) is Cancelled,
        ill is Abandoned || ill is Failure,
        ill matches TaskOutcome::Abandoned(m) ==> m@ == label@ + " interrupted"@,
        ill matches TaskOutcome::Failure(m) ==> m@ == error.words(),
{
}

/// A task is shown at once or after the usual delay, as it asks.
pub proof fn law_a_task_is_shown_when_it_asks(task: TaskState, usual: Duration, delay: Duration)
    requires
        call_ensures(TaskState::visibility_delay, (&task, usual), delay),
    ensures
        task.declared().visibility is Immediate ==> delay@ == 0,
        task.declared().visibility is Delayed ==> delay@ == usual@,
{
}

/// Whether what is shown is fit for a mode: nothing where progress is off, lines
/// where it is plain, and no lines where it is drawn.
pub open spec fn fits(mode: ResolvedProgressMode, shown: Display) -> bool {
    match mode {
        ResolvedProgressMode::Off => shown is Nothing,
        ResolvedProgressMode::Plain => shown is Nothing || shown is Line,
        ResolvedProgressMode::Interactive => !(shown is Line),
    }
}

/// A group ends once: it is told how, in the way of its mode, and nothing is told
/// of it again.
pub proof fn law_a_group_ends_once(
    group: LiveGroup,
    after: LiveGroup,
    later: LiveGroup,
    first: LiveEnding,
    second: LiveEnding,
    message: Seq<char>,
    elapsed: nat,
    shown: Display,
    again: Display,
)
    requires
        !group.over(),
        group.ends(after, first, message, elapsed, shown),
        after.ends(later, second, message, elapsed, again),
    ensures
        after.over(),
        again is Nothing,
        fits(group.shown_as(), shown),
        shown is Nothing <==> group.shown_as() is Off,
        group.shown_as() is Plain ==> shown->Line_0@ == (match first {
            LiveEnding::Finished => "[ok]"@,
            LiveEnding::Failed => "[fail]"@,
            LiveEnding::Abandoned => "[stop]"@,
        }) + " "@ + message + " · "@ + progress::span_text(elapsed),
        group.shown_as() is Interactive ==> shown is Close && shown->Close_0@ == (match first {
            LiveEnding::Finished => "✓"@,
            LiveEnding::Failed => "✗"@,
            LiveEnding::Abandoned => "!"@,
        }) + " "@ + message + " · "@ + progress::span_text(elapsed),
{
}

/// A row ends once, under its name, and nothing is told of it again.
pub proof fn law_a_row_ends_once(
    row: LiveRow,
    after: LiveRow,
    later: LiveRow,
    ending: LiveEnding,
    message: Seq<char>,
    elapsed: nat,
    shown: Display,
    again: Display,
)
    requires
        !row.over(),
        row.ends(after, ending, message, elapsed, shown),
        after.turns_to(later, message, again),
    ensures
        after.over(),
        later.over(),
        again is Nothing,
        later.current() == row.current(),
        fits(row.shown_as(), shown),
        shown is Nothing <==> row.shown_as() is Off,
        row.shown_as() is Plain ==> shown->Line_0@ == (match ending {
            LiveEnding::Finished => "[ok]"@,
            LiveEnding::Failed => "[fail]"@,
            LiveEnding::Abandoned => "[stop]"@,
        }) + " "@ + (match row.name() {
            Some(name) => name + " · "@ + message,
            None => message,
        }) + " · "@ + progress::span_text(elapsed),
{
}

/// A row tells a phase once: where it is new and the row has not ended.
pub proof fn law_a_phase_is_told_once(
    row: LiveRow,
    after: LiveRow,
    later: LiveRow,
    phase: Seq<char>,
    shown: Display,
    again: Display,
)
    requires
        row.turns_to(after, phase, shown),
        after.turns_to(later, phase, again),
    ensures
        again is Nothing,
        fits(row.shown_as(), shown),
        after.over() == row.over(),
        !row.over() ==> after.current() == phase,
        row.over() ==> after.current() == row.current(),
        !row.over() && row.current() != phase && !(row.shown_as() is Off) ==> !(shown is Nothing),
        shown is Update ==> shown->Update_0@ == phase,
        shown is Line ==> shown->Line_0@ == "[phase] "@ + (match row.name() {
            Some(name) => name + " · "@ + phase,
            None => phase,
        }),
{
}

/// A group and a row need a name; they begin open and are shown in the way of
/// their mode.
pub proof fn law_groups_and_rows_begin_open(
    mode: ResolvedProgressMode,
    label: &str,
    phase: String,
    group: Result<(LiveGroup, Display), UiError>,
    row: Result<(LiveRow, Display), UiError>,
    rendered: Result<(LiveRow, Display), UiError>,
)
    requires
        call_ensures(LiveGroup::new, (mode, label), group),
        group is Ok ==> call_ensures(LiveGroup::row, (&group->Ok_0.0, label, phase), row),
        group is Ok ==> call_ensures(LiveGroup::rendered_row, (&group->Ok_0.0, phase), rendered),
    ensures
        group is Err <==> text::trimmed(label@).len() == 0,
        group is Ok ==> {
            &&& !group->Ok_0.0.over()
            &&& group->Ok_0.0.shown_as() == mode
            &&& fits(mode, group->Ok_0.1)
            &&& group->Ok_0.1 is Nothing <==> mode is Off
            &&& mode is Plain ==> group->Ok_0.1->Line_0@ == "[start] "@ + text::trimmed(label@)
            &&& row is Ok
            &&& !row->Ok_0.0.over()
            &&& row->Ok_0.0.shown_as() == mode
            &&& row->Ok_0.0.current() == phase@
            &&& fits(mode, row->Ok_0.1)
            &&& mode is Plain ==> row->Ok_0.1->Line_0@ == "[item] "@ + (text::trimmed(label@)
                + " · "@ + phase@)
            &&& rendered is Err <==> text::trimmed(phase@).len() == 0
            &&& rendered is Ok ==> fits(mode, rendered->Ok_0.1) && (mode is Plain
                ==> rendered->Ok_0.1->Line_0@ == "[item] "@ + phase@)
        },
{
}

/// A summary is drawn while its group is open; on lines it is printed when asked,
/// and kept up only after the pause.
pub proof fn law_a_summary_is_shown_while_open(
    group: LiveGroup,
    message: String,
    since: Duration,
    heartbeat: Duration,
    set: Display,
    printed: Display,
)
    requires
        call_ensures(LiveGroup::set_summary, (&group, message, since, heartbeat), set),
        call_ensures(LiveGroup::print_summary, (&group, message), printed),
    ensures
        fits(group.shown_as(), set),
        fits(group.shown_as(), printed),
        set is Update <==> group.shown_as() is Interactive && !group.over(),
        set is Line <==> group.shown_as() is Plain && since@ >= heartbeat@,
        printed is Line <==> group.shown_as() is Plain,
        printed is Update <==> set is Update,
        set is Update ==> set->Update_0@ == message@ && printed->Update_0@ == message@,
        set is Line ==> set->Line_0@ == "[wait] "@ + message@,
        printed is Line ==> printed->Line_0@ == "[status] "@ + message@,
{
}

/// The ways in which a user interface shows things are those of its options.
pub proof fn law_an_interface_keeps_its_options(
    options: ValidatedUiOptions,
    made: Ui,
    interactive: bool,
    enabled: bool,
    color: bool,
    stdout_color: bool,
)
    requires
        call_ensures(Ui::new, (options,), made),
        call_ensures(Ui::is_interactive, (&made,), interactive),
        call_ensures(Ui::progress_is_enabled, (&made,), enabled),
        call_ensures(Ui::color_is_enabled, (&made,), color),
        call_ensures(Ui::stdout_color_is_enabled, (&made,), stdout_color),
    ensures
        interactive <==> options.progress is Interactive,
        !enabled <==> options.progress is Off,
        color == options.color,
        stdout_color == options.stdout_color,
{
}

/// A line of the interface ends in its message and begins with its label, in
/// color only where colors are used.
pub proof fn law_a_line_is_labelled(made: Ui, message: &str, lines: (String, String, String, String))
    requires
        call_ensures(Ui::info, (&made, message), lines.0),
        call_ensures(Ui::success, (&made, message), lines.1),
        call_ensures(Ui::warn, (&made, message), lines.2),
        call_ensures(Ui::error, (&made, message), lines.3),
    ensures
        !made.options.color ==> {
            &&& lines.0@ == "info"@ + ": "@ + message@
            &&& lines.1@ == "ok"@ + ": "@ + message@
            &&& lines.2@ == "warning"@ + ": "@ + message@
            &&& lines.3@ == "error"@ + ": "@ + message@
        },
        made.options.color ==> {
            &&& lines.0@ == "\x1b[1;36m"@ + "info"@ + ":\x1b[0m "@ + message@
            &&& lines.1@ == "\x1b[1;32m"@ + "ok"@ + ":\x1b[0m "@ + message@
            &&& lines.2@ == "\x1b[1;33m"@ + "warning"@ + ":\x1b[0m "@ + message@
            &&& lines.3@ == "\x1b[1;31m"@ + "error"@ + ":\x1b[0m "@ + message@
        },
{
}

/// A styled text is the text itself where it is not for a terminal or has no
/// style, and otherwise ends in a reset, with the text before it.
pub proof fn law_a_styled_text_holds_the_text(
    content: &str,
    color: Option<Color>,
    effect: TextEffect,
    plain: String,
    shown: String,
)
    requires
        call_ensures(ui::style_for_terminal, (content, color, effect, false), plain),
        call_ensures(ui::style_for_terminal, (content, color, effect, true), shown),
    ensures
        plain@ == content@,
        color is None && effect is Plain ==> shown@ == content@,
        color is Some || effect is Strikethrough ==> {
            let end = shown@.len() - 4;
            &&& end >= content@.len()
            &&& shown@.skip(end) == "\x1b[0m"@
            &&& shown@.subrange(end - content@.len(), end) == content@
            &&& end - content@.len() == (if effect is Strikethrough {
                4int
            } else {
                0int
            }) + (if color is Some {
                5int
            } else {
                0int
            })
        },
        effect is Strikethrough ==> shown@.take(4) == "\x1b[9m"@,
        color is Some && effect is Plain ==> shown@[2] == '3' && shown@[3] == (
        match color->Some_0 {
            Color::Red => '1',
            Color::Green => '2',
            Color::Yellow => '3',
            Color::Blue => '4',
            Color::Cyan => '6',
        }),
{
    reveal_strlit("\x1b[34m");
    reveal_strlit("\x1b[36m");
    reveal_strlit("\x1b[32m");
    reveal_strlit("\x1b[31m");
    reveal_strlit("\x1b[33m");
    reveal_strlit("\x1b[9m");
    reveal_strlit("\x1b[0m");
    if color is Some || effect is Strikethrough {
        let end = shown@.len() - 4;
        assert(shown@.skip(end) =~= "\x1b[0m"@);
        assert(shown@.subrange(end - content@.len(), end) =~= content@);
        if effect is Strikethrough {
            assert(shown@.take(4) =~= "\x1b[9m"@);
        }
    }
}

/// A question is put only where somebody can answer it, as it was worded.
pub proof fn law_questions_need_a_terminal(
    prompt: &str,
    default: bool,
    message: &str,
    interactive: bool,
    asked: Result<ConfirmRequest, String>,
    told: Result<ConfirmRequest, String>,
)
    requires
        call_ensures(ui::prompt_confirm, (prompt, default, interactive), asked),
        call_ensures(
            ui::prompt_confirm_with_message,
            (prompt, default, message, interactive),
            told,
        ),
    ensures
        interactive <==> asked is Ok,
        interactive <==> told is Ok,
        interactive ==> asked->Ok_0.prompt@ == prompt@ && asked->Ok_0.default == default
            && told->Ok_0.prompt@ == prompt@ && told->Ok_0.default == default,
        !interactive ==> told->Err_0@ == message@,
{
}

/// What a task has reached grows by what is added and stays within its total; a
/// position beyond the total stands for the total.
pub proof fn law_a_task_stays_within_its_total()
    ensures
        forall|task: &mut TaskState, delta: u64| #[trigger]
            call_ensures(TaskState::inc, (task, delta), ()) && mut_ref_current(task).reached()
                <= mut_ref_current(task).limit() ==> {
                let before = mut_ref_current(task);
                let after = mut_ref_future(task);
                &&& before.reached() <= after.reached() <= before.limit()
                &&& after.reached() <= before.reached() + delta
                &&& after.reached() < before.reached() + delta ==> after.reached() == before.limit()
                &&& after.declared() == before.declared() && after.notes() == before.notes()
                    && after.revision() == before.revision() && after.ended() == before.ended()
            },
        forall|task: &mut TaskState, position: u64| #[trigger]
            call_ensures(TaskState::set_position, (task, position), ()) ==> {
                let before = mut_ref_current(task);
                let after = mut_ref_future(task);
                &&& position <= before.limit() ==> after.reached() == position
                &&& position > before.limit() ==> after.reached() == before.limit()
                &&& after.declared() == before.declared() && after.notes() == before.notes()
                    && after.revision() == before.revision() && after.ended() == before.ended()
            },
{
}

/// A phase is a change that is told, a detail is not; and the first outcome of a
/// task is the one that stays.
pub proof fn law_the_first_outcome_stays()
    ensures
        forall|task: &mut TaskState, phase: String| #[trigger]
            call_ensures(TaskState::set_phase, (task, phase), ()) ==> {
                let before = mut_ref_current(task);
                let after = mut_ref_future(task);
                &&& after.notes() == (Some(phase), before.notes().1)
                &&& after.revision() != before.revision()
                &&& after.reached() == before.reached() && after.ended() == before.ended()
                    && after.declared() == before.declared()
            },
        forall|task: &mut TaskState, detail: String| #[trigger]
            call_ensures(TaskState::set_detail, (task, detail), ()) ==> {
                let before = mut_ref_current(task);
                let after = mut_ref_future(task);
                &&& after.notes() == (before.notes().0, Some(detail))
                &&& after.revision() == before.revision()
                &&& after.reached() == before.reached() && after.ended() == before.ended()
                    && after.declared() == before.declared()
            },
        forall|task: &mut TaskState, outcome: TaskOutcome| #[trigger]
            call_ensures(TaskState::set_outcome, (task, outcome), ()) ==> {
                let before = mut_ref_current(task);
                let after = mut_ref_future(task);
                &&& before.ended() is None ==> after.ended() == Some(outcome)
                &&& before.ended() is Some ==> after.ended() == before.ended()
                &&& after.notes() == before.notes() && after.revision() == before.revision()
                    && after.reached() == before.reached() && after.declared() == before.declared()
            },
{
}

/// Finishing, failing and abandoning are told by their own marks, and only once;
/// clearing erases what is drawn and tells nothing.
pub proof fn law_endings_are_told_apart()
    ensures
        forall|group: &mut LiveGroup, message: &str, elapsed: Duration, shown: Display| #[trigger]
            call_ensures(LiveGroup::finish, (group, message, elapsed), shown) ==> ends_plainly(
                mut_ref_current(group),
                mut_ref_future(group),
                "[ok]"@,
                message@,
                elapsed@,
                shown,
            ),
        forall|group: &mut LiveGroup, message: &str, elapsed: Duration, shown: Display| #[trigger]
            call_ensures(LiveGroup::fail, (group, message, elapsed), shown) ==> ends_plainly(
                mut_ref_current(group),
                mut_ref_future(group),
                "[fail]"@,
                message@,
                elapsed@,
                shown,
            ),
        forall|group: &mut LiveGroup, message: &str, elapsed: Duration, shown: Display| #[trigger]
            call_ensures(LiveGroup::abandon, (group, message, elapsed), shown) ==> ends_plainly(
                mut_ref_current(group),
                mut_ref_future(group),
                "[stop]"@,
                message@,
                elapsed@,
                shown,
            ),
        forall|group: &mut LiveGroup, shown: Display| #[trigger]
            call_ensures(LiveGroup::clear, (group,), shown) ==> mut_ref_future(group).over() && (
            shown is Erase <==> !mut_ref_current(group).over() && mut_ref_current(
                group,
            ).shown_as() is Interactive) && (shown is Erase || shown is Nothing),
{
}

/// Whether a group has ended, with the mark and the message on a line where it is
/// shown as lines.
pub open spec fn ends_plainly(
    group: LiveGroup,
    after: LiveGroup,
    mark: Seq<char>,
    message: Seq<char>,
    elapsed: nat,
    shown: Display,
) -> bool {
    &&& after.over()
    &&& after.shown_as() == group.shown_as()
    &&& fits(group.shown_as(), shown)
    &&& group.over() ==> shown is Nothing
    &&& !group.over() && group.shown_as() is Plain ==> shown->Line_0@ == mark + " "@ + message
        + " · "@ + progress::span_text(elapsed)
    &&& !group.over() && group.shown_as() is Interactive ==> shown is Close
}

/// A row that finished, failed or was abandoned has ended, under its own mark; a
/// detail is drawn but never told on a line.
pub proof fn law_rows_end_under_their_marks()
    ensures
        forall|row: &mut LiveRow, message: &str, elapsed: Duration, shown: Display| #[trigger]
            call_ensures(LiveRow::finish, (row, message, elapsed), shown) ==> row_ends_plainly(
                mut_ref_current(row),
                mut_ref_future(row),
                "[ok]"@,
                message@,
                elapsed@,
                shown,
            ),
        forall|row: &mut LiveRow, message: &str, elapsed: Duration, shown: Display| #[trigger]
            call_ensures(LiveRow::fail, (row, message, elapsed), shown) ==> row_ends_plainly(
                mut_ref_current(row),
                mut_ref_future(row),
                "[fail]"@,
                message@,
                elapsed@,
                shown,
            ),
        forall|row: &mut LiveRow, message: &str, elapsed: Duration, shown: Display| #[trigger]
            call_ensures(LiveRow::abandon, (row, message, elapsed), shown) ==> row_ends_plainly(
                mut_ref_current(row),
                mut_ref_future(row),
                "[stop]"@,
                message@,
                elapsed@,
                shown,
            ),
        forall|row: &mut LiveRow, detail: String, shown: Display| #[trigger]
            call_ensures(LiveRow::set_detail, (row, detail), shown) ==> {
                let before = mut_ref_current(row);
                let after = mut_ref_future(row);
                &&& shown is Update <==> !before.over() && before.shown_as() is Interactive
                &&& !(shown is Line)
                &&& after.over() == before.over() && after.name() == before.name()
                &&& !before.over() ==> after.current() == detail@
                &&& before.over() ==> after.current() == before.current()
            },
{
}

/// Whether a row has ended, with the mark, its name and the message on a line
/// where it is shown as lines.
pub open spec fn row_ends_plainly(
    row: LiveRow,
    after: LiveRow,
    mark: Seq<char>,
    message: Seq<char>,
    elapsed: nat,
    shown: Display,
) -> bool {
    let line = match row.name() {
        Some(name) => name + " · "@ + message,
        None => message,
    };
    &&& after.over()
    &&& after.shown_as() == row.shown_as() && after.name() == row.name() && after.current()
        == row.current()
    &&& fits(row.shown_as(), shown)
    &&& row.over() ==> shown is Nothing
    &&& !row.over() && row.shown_as() is Plain ==> shown->Line_0@ == mark + " "@ + line + " · "@
        + progress::span_text(elapsed)
    &&& !row.over() && row.shown_as() is Interactive ==> shown is Close
}

/// A line that is printed ends in its message, behind its own mark, which is in
/// color only on a terminal.
pub proof fn law_printed_lines_are_marked(
    message: &str,
    plain: (String, String, String, String),
    shown: (String, String, String, String),
)
    requires
        call_ensures(ui::print_warning, (message, false), plain.0),
        call_ensures(ui::print_error, (message, false), plain.1),
        call_ensures(ui::print_stage, (message, false), plain.2),
        call_ensures(ui::success_line, (message, false), plain.3),
        call_ensures(ui::print_warning, (message, true), shown.0),
        call_ensures(ui::print_error, (message, true), shown.1),
        call_ensures(ui::print_stage, (message, true), shown.2),
        call_ensures(ui::success_line, (message, true), shown.3),
    ensures
        plain.0@ == "warning:"@ + " "@ + message@,
        plain.1@ == "error:"@ + " "@ + message@,
        plain.2@ == "==>"@ + " "@ + message@,
        plain.3@ == "ok:"@ + " "@ + message@,
        shown.0@ == "\x1b[1;33m"@ + "warning:"@ + "\x1b[0m "@ + message@,
        shown.1@ == "\x1b[1;31m"@ + "error:"@ + "\x1b[0m "@ + message@,
        shown.2@ == "\x1b[1;36m"@ + "==>"@ + "\x1b[0m "@ + message@,
        shown.3@ == "\x1b[1;32m"@ + "ok:"@ + "\x1b[0m "@ + message@,
{
}

/// A task that is shown as lines begins with its message and ends with its
/// outcome; one that ended before it was shown is told unless it was cleared.
pub proof fn law_a_task_is_told_from_start_to_end(
    task: TaskState,
    elapsed: Duration,
    message: String,
    start: String,
    end: Option<String>,
    fast: Option<String>,
    label: &str,
    line: String,
)
    requires
        call_ensures(TaskState::render_message, (&task, elapsed), message),
        call_ensures(TaskState::start_line, (&task, elapsed), start),
        call_ensures(TaskState::end_line, (&task, elapsed), end),
        call_ensures(TaskState::fast_completion, (&task, elapsed), fast),
        label@ == task.declared().label@,
        task.ended() is Some ==> call_ensures(
            progress::render_plain_outcome,
            (&task.ended()->Some_0, label, elapsed),
            line,
        ),
    ensures
        start@ == "[start] "@ + message@,
        end is Some <==> task.ended() is Some,
        end matches Some(s) ==> s@ == line@,
        fast is Some <==> task.ended() is Some && !(task.ended()->Some_0 is Clear),
        fast matches Some(s) ==> s@ == line@,
{
}

/// A task of an interface is a new one with the options that it was given, and is
/// refused where these are; a group is shown as the interface shows things.
pub proof fn law_an_interface_makes_what_it_is_asked(
    made: Ui,
    options: TaskOptions,
    checked: Result<ValidatedTaskOptions, UiError>,
    task: Result<TaskState, UiError>,
    label: &str,
    group: Result<(LiveGroup, Display), UiError>,
)
    requires
        call_ensures(TaskOptions::validate, (options,), checked),
        call_ensures(Ui::task, (&made, options), task),
        call_ensures(Ui::live_group, (&made, label), group),
    ensures
        task is Ok <==> checked is Ok,
        task is Err ==> task->Err_0 == checked->Err_0,
        task matches Ok(t) ==> t.declared().label@ == text::trimmed(options.label@) && t.reached()
            == 0 && t.ended() is None && t.notes() == (None::<String>, None::<String>),
        group is Ok <==> text::trimmed(label@).len() > 0,
        group is Ok ==> group->Ok_0.0.shown_as() == made.options.progress && !group->Ok_0.0.over()
            && fits(made.options.progress, group->Ok_0.1),
{
}

/// A link holds its URL and then its text on a terminal, and is the text alone
/// anywhere else; the error output has no links.
pub proof fn law_links_are_for_terminals(
    content: &str,
    url: &str,
    plain: String,
    shown: String,
    without: String,
    error: String,
)
    requires
        call_ensures(
            <StdoutRenderTarget as RenderTarget>::hyperlink,
            (&StdoutRenderTarget { interactive: false }, content, Some(url)),
            plain,
        ),
        call_ensures(
            <StdoutRenderTarget as RenderTarget>::hyperlink,
            (&StdoutRenderTarget { interactive: true }, content, Some(url)),
            shown,
        ),
        call_ensures(
            <StdoutRenderTarget as RenderTarget>::hyperlink,
            (&StdoutRenderTarget { interactive: true }, content, None::<&str>),
            without,
        ),
        call_ensures(
            <StderrRenderTarget as RenderTarget>::hyperlink,
            (&StderrRenderTarget { interactive: true }, content, Some(url)),
            error,
        ),
    ensures
        plain@ == content@ && without@ == content@ && error@ == content@,
        shown@ == "\x1b]8;;"@ + url@ + "\x1b\\"@ + content@ + "\x1b]8;;\x1b\\"@,
{
}

} // verus!
