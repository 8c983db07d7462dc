use capulus::cancel::{Cause, ErrorChain};
use capulus::duration::Duration;
use capulus::progress::{
    format_duration, format_seconds, run_outcome, CancellationMode, ColorMode, Display, LiveGroup,
    PlainStep, ProgressMode, ResolvedProgressMode, TaskKind, TaskOptions, TaskOutcome,
    TaskVisibility, TerminalCapabilities, Ui, UiError, UiOptions,
};
use capulus::ui::{
    browser_warning, detail_line, print_warning, prompt_confirm, require_interactive,
    stdout_render_target, style_for_terminal, Color, RenderTarget, TextEffect,
};

const NO_TERMINAL: TerminalCapabilities = TerminalCapabilities { stderr: false, stdout: false };

fn plain_ui(delay: Duration, heartbeat: Duration) -> Ui {
    Ui::new(
        UiOptions {
            progress: ProgressMode::Plain,
            color: ColorMode::Never,
            cancellation: CancellationMode::Passive,
            visibility_delay: delay,
            heartbeat_interval: heartbeat,
        }
        .validate(NO_TERMINAL, false)
        .expect("plain UI options"),
    )
}

#[test]
fn fast_clear_task_emits_nothing() {
    let ui = plain_ui(Duration::from_secs(1), Duration::from_secs(1));
    let mut task = ui
        .task(TaskOptions { label: "Fast query".to_string(), ..TaskOptions::default() })
        .expect("task");
    task.set_outcome(TaskOutcome::Clear);
    assert_eq!(task.visibility_delay(ui.options.visibility_delay), Duration::from_secs(1));
    assert_eq!(task.fast_completion(Duration::from_millis(1)), None);
}

#[test]
fn plain_task_reports_phases_and_completion() {
    let ui = plain_ui(Duration::zero(), Duration::from_secs(1));
    let mut task = ui
        .task(TaskOptions {
            label: "Enroll host".to_string(),
            visibility: TaskVisibility::Immediate,
            ..TaskOptions::default()
        })
        .expect("task");
    let elapsed = Duration::from_millis(5);
    assert!(task.start_line(elapsed).starts_with("[start] Enroll host · elapsed "));
    let seen = task.phase_revision();
    task.set_phase("activating".to_string());
    task.set_outcome(TaskOutcome::Success("Host enrolled".to_string()));
    match task.plain_step(seen, elapsed, Duration::from_secs(1), elapsed) {
        PlainStep::Phase(line) => assert!(line.contains("[phase] Enroll host · activating")),
        other => panic!("{other:?}"),
    }
    assert!(task.end_line(elapsed).unwrap().starts_with("[ok] Host enrolled"));
}

#[test]
fn task_options_reject_empty_labels_and_zero_totals() {
    assert!(TaskOptions::default().validate().is_err());
    assert!(TaskOptions {
        label: "count".to_string(),
        kind: TaskKind::Counter { total: 0, unit: None },
        ..TaskOptions::default()
    }
    .validate()
    .is_err());
}

#[test]
fn forced_interactive_requires_a_terminal() {
    assert!(UiOptions { progress: ProgressMode::Interactive, ..UiOptions::default() }
        .validate(NO_TERMINAL, false)
        .is_err());
}

#[test]
fn duration_format_is_compact_and_stable() {
    assert_eq!("25ms", format_duration(Duration::from_millis(25)));
    assert_eq!("1:05", format_duration(Duration::from_secs(65)));
    assert_eq!("2:03:04", format_duration(Duration::from_secs(7_384)));
}

fn line(display: Display) -> String {
    match display {
        Display::Line(line) => line,
        other => panic!("{other:?}"),
    }
}

#[test]
fn plain_live_group_reports_phase_and_outcomes() {
    let ui = plain_ui(Duration::zero(), Duration::from_secs(1));
    let (mut group, shown) = ui.live_group("Redeploying fleet").expect("live group");
    assert_eq!(line(shown), "[start] Redeploying fleet");
    let (mut row, shown) = group.row("coeus", "queued".to_string()).expect("live row");
    assert_eq!(line(shown), "[item] coeus · queued");
    assert_eq!(line(row.set_phase("installing".to_string())), "[phase] coeus · installing");
    let elapsed = Duration::from_millis(3);
    assert!(line(row.finish("redeployed", elapsed))
        .starts_with("[ok] coeus · redeployed"));
    assert!(line(group.finish("Fleet redeploy complete", elapsed))
        .starts_with("[ok] Fleet redeploy complete"));
}

#[test]
fn rendered_live_rows_preserve_caller_layout_and_silent_updates() {
    let ui = plain_ui(Duration::zero(), Duration::from_secs(1));
    let (mut group, _) = ui.live_group("Checking hosts").expect("live group");
    let (mut row, shown) =
        group.rendered_row("alpha    queued".to_string()).expect("rendered row");
    assert_eq!(line(shown), "[item] alpha    queued");
    assert_eq!(row.set_detail("alpha    probing".to_string()), Display::Nothing);
    assert_eq!(
        line(row.set_rendered("alpha    reachable".to_string())),
        "[phase] alpha    reachable"
    );
    assert!(line(row.finish_rendered("alpha    available", Duration::zero()))
        .starts_with("[ok] alpha    available"));
    group.clear();
    assert_eq!(group.fail("late", Duration::zero()), Display::Nothing);
    let (mut other, _) = ui.live_group("Checking hosts").expect("live group");
    assert!(line(other.abandon("stopped", Duration::zero())).starts_with("[stop] stopped"));
}

#[test]
fn explicit_color_mode_applies_to_stderr_and_stdout_renderers() {
    for (color, expected) in [(ColorMode::Always, true), (ColorMode::Never, false)] {
        let options = UiOptions { color, ..UiOptions::default() }
            .validate(TerminalCapabilities { stderr: false, stdout: true }, false)
            .expect("UI options");
        assert_eq!(expected, options.color);
        assert_eq!(expected, options.stdout_color);
    }
}

#[test]
fn automatic_modes_follow_the_terminal() {
    let terminal = TerminalCapabilities { stderr: true, stdout: true };
    let seen = UiOptions::default().validate(terminal, false).unwrap();
    assert_eq!(seen.progress, ResolvedProgressMode::Interactive);
    assert!(seen.color && seen.stdout_color);
    assert!(!UiOptions::default().validate(terminal, true).unwrap().color);
    let blind = UiOptions::default().validate(NO_TERMINAL, false).unwrap();
    assert_eq!(blind.progress, ResolvedProgressMode::Plain);
    let zero = UiOptions { heartbeat_interval: Duration::zero(), ..UiOptions::default() };
    assert_eq!(zero.validate(terminal, false).err(), Some(UiError::ZeroHeartbeat));
}

#[test]
fn each_fault_of_a_display_has_its_error() {
    let ui = plain_ui(Duration::zero(), Duration::from_secs(1));
    assert_eq!(
        ui.task(TaskOptions {
            label: "x".to_string(),
            deadline: Some(Duration::zero()),
            ..TaskOptions::default()
        })
        .err(),
        Some(UiError::ZeroDeadline)
    );
    assert_eq!(ui.live_group("  ").err(), Some(UiError::EmptyGroupLabel));
    let (group, _) = LiveGroup::new(ResolvedProgressMode::Plain, "group").unwrap();
    assert_eq!(group.row(" ", "x".to_string()).err(), Some(UiError::EmptyRowLabel));
    assert_eq!(group.rendered_row(String::new()).err(), Some(UiError::EmptyRenderedRow));
}

#[test]
fn a_position_never_passes_its_total_and_the_first_outcome_stands() {
    let ui = plain_ui(Duration::zero(), Duration::from_secs(1));
    let mut task = ui
        .task(TaskOptions {
            label: "Copy".to_string(),
            kind: TaskKind::Counter { total: 10, unit: Some("files".to_string()) },
            ..TaskOptions::default()
        })
        .unwrap();
    task.inc(4);
    assert_eq!(task.position(), 4);
    task.inc(u64::MAX);
    assert_eq!(task.position(), 10);
    task.set_position(3);
    task.set_outcome(TaskOutcome::Failure("no space".to_string()));
    task.set_outcome(TaskOutcome::Success("done".to_string()));
    assert_eq!(task.outcome(), &Some(TaskOutcome::Failure("no space".to_string())));
    assert!(task.end_line(Duration::zero()).unwrap().contains("no space"));
}

#[test]
fn a_run_ends_as_its_error_says() {
    assert!(matches!(run_outcome("Build", None), TaskOutcome::Clear));
    let cancelled = ErrorChain::cancelled().context("building".to_string());
    assert!(matches!(run_outcome("Build", Some(&cancelled)), TaskOutcome::Abandoned(_)));
    let broken = ErrorChain::new(Cause::Message("broken".to_string()));
    assert!(matches!(run_outcome("Build", Some(&broken)), TaskOutcome::Failure(_)));
}

#[test]
fn seconds_are_written_as_a_clock() {
    assert_eq!(format_seconds(5), "0:05");
    assert_eq!(format_seconds(3_600), "1:00:00");
}

#[test]
fn styles_are_for_terminals_only() {
    assert_eq!(style_for_terminal("x", Some(Color::Red), TextEffect::Plain, false), "x");
    let red = style_for_terminal("x", Some(Color::Red), TextEffect::Plain, true);
    assert!(red.starts_with("\u{1b}[") && red.contains('x') && red.ends_with("\u{1b}[0m"));
    assert_eq!(stdout_render_target(false).paint("x", Color::Blue), "x");
    assert_eq!(stdout_render_target(false).hyperlink("x", Some("https://example.com")), "x");
    assert!(print_warning("careful", false).contains("careful"));
    assert!(detail_line("more").contains("more"));
    assert!(browser_warning("none", "https://example.com").contains("https://example.com"));
    assert!(require_interactive("needs a terminal", true).is_ok());
    assert_eq!(
        require_interactive("needs a terminal", false),
        Err("needs a terminal".to_string())
    );
    assert!(prompt_confirm("Go?", true, true).unwrap().default);
    assert!(prompt_confirm("Go?", true, false).is_err());
}
