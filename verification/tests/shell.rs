use capulus::cancel::{
    error_is_cancelled, Cancellation, Cancelled, Cause, ErrorChain, InterruptAction, Interrupts,
    SleepStep,
};
use capulus::duration::Duration;
use capulus::lock::{
    bypass_token, lock_path, lock_request, wait_display, LockError, LockEvent, LockNext, LockStep,
    WaitDisplay,
};
use capulus::paths::{app_dir, sanitize_component, tool_dir};
use capulus::process::{
    ensure_command_available, failure_detail, invalid_json, render_command,
    require_streamed_success, require_success, run_status_code, run_text, truncate_ellipsis,
    CommandLine, CommandOutput, ProcessError,
};
use capulus::shell::{bash_command, shell_quote};
use capulus::store::{
    atomic_write, holds_value, load_optional_toml, load_toml, write_bytes, StoreError, TomlStore,
    WriteStep,
};
use capulus::temp::{requested_mode, temp_suffix};
use capulus::termination::CliTermination;
use capulus::unix_path;
use capulus::version::Version;

#[test]
fn shell_quote_quotes_empty_string() {
    assert_eq!("''", shell_quote(""));
}

#[test]
fn shell_quote_leaves_safe_atoms_unquoted() {
    assert_eq!("/tmp/demo-path", shell_quote("/tmp/demo-path"));
    assert_eq!("https://example.com", shell_quote("https://example.com"));
}

#[test]
fn shell_quote_escapes_apostrophes() {
    assert_eq!("'abc'\"'\"'def'", shell_quote("abc'def"));
}

#[test]
fn bash_command_wraps_shell_body() {
    assert_eq!("bash -lc 'echo hi'", bash_command("echo hi"));
}

#[test]
fn render_command_quotes_args_with_whitespace() {
    let mut command = CommandLine::new("ssh");
    command.args(&vec!["user@example.com".to_string(), "echo hello world".to_string()]);

    assert_eq!("ssh user@example.com 'echo hello world'", render_command(&command));
}

fn output(success: bool, code: Option<i32>, stdout: &str, stderr: &str) -> CommandOutput {
    CommandOutput { success, code, stdout: stdout.to_string(), stderr: stderr.to_string() }
}

#[test]
fn require_success_reports_stdout_when_stderr_is_empty() {
    let mut command = CommandLine::new("sh");
    command.arg("-c");
    command.arg("printf 'stdout-only'; exit 2");
    let error = require_success(
        "run failing command",
        &command,
        output(false, Some(2), "stdout-only", ""),
    )
    .expect_err("command should fail");
    assert!(error.message().contains("stdout-only"));
}

#[test]
fn commands_succeed_or_say_why_not() {
    let command = CommandLine::new("true");
    assert!(require_success("run", &command, output(true, Some(0), "x", "")).is_ok());
    assert_eq!(run_text("run", &command, output(true, Some(0), "x\n", "")).unwrap(), "x");
    assert!(require_streamed_success("run", &command, true, Some(0)).is_ok());
    assert!(matches!(
        require_streamed_success("run", &command, false, Some(3)),
        Err(ProcessError::Failed { .. })
    ));
    assert_eq!(run_status_code(Some(3)), 3);
    assert_eq!(run_status_code(None), 1);
    assert_eq!(failure_detail(&output(false, Some(1), "out", " err \n")), "err");
    assert!(ensure_command_available("x", &Some(output(true, Some(0), "", ""))).is_ok());
    assert!(matches!(
        ensure_command_available("x", &None),
        Err(ProcessError::NotFound { .. })
    ));
    assert!(matches!(
        ensure_command_available("x", &Some(output(false, Some(2), "", ""))),
        Err(ProcessError::VersionFailed { code: 2, .. })
    ));
    assert_eq!(truncate_ellipsis("abcdef", 4), "abc…");
    assert_eq!(truncate_ellipsis("abc", 4), "abc");
    assert!(matches!(invalid_json("read", "x"), ProcessError::InvalidJson { .. }));
}

#[test]
fn cancellation_remains_typed_through_context() {
    let error = ErrorChain::cancelled().context("state remains committed".to_string());
    assert!(error_is_cancelled(&error));
    assert!(!error_is_cancelled(&ErrorChain::new(Cause::Message("ordinary failure".to_string()))));
}

#[test]
fn uncancelled_sleep_reaches_its_deadline() {
    let started = std::time::Instant::now();
    let deadline = started + std::time::Duration::from_millis(2);
    loop {
        let left = deadline.saturating_duration_since(std::time::Instant::now());
        let remaining = Duration::from_parts(left.as_secs(), left.subsec_nanos()).unwrap();
        match Cancellation::passive().sleep_step(&Interrupts::new(), remaining) {
            SleepStep::Over => break,
            SleepStep::SleepFor(step) => assert!(step.at_most(&remaining)),
            SleepStep::Interrupted => panic!("sleep should not be cancelled"),
        }
    }
    assert!(started.elapsed() >= std::time::Duration::from_millis(2));
}

#[test]
fn a_sleep_is_over_at_its_deadline_or_interrupted() {
    let passive = Cancellation::passive();
    let mut state = Interrupts::new();
    assert!(!passive.is_requested(&state));
    assert!(passive.check(&state).is_ok());
    assert!(matches!(passive.sleep_step(&state, Duration::zero()), SleepStep::Over));
    match passive.sleep_step(&state, Duration::from_millis(2)) {
        SleepStep::SleepFor(step) => assert_eq!(step, Duration::from_millis(2)),
        other => panic!("{other:?}"),
    }
    match passive.sleep_step(&state, Duration::from_secs(2)) {
        SleepStep::SleepFor(step) => assert_eq!(step, Duration::from_millis(50)),
        other => panic!("{other:?}"),
    }
    assert_eq!(state.note_interrupt(), InterruptAction::Remember);
    assert!(passive.is_requested(&state));
    assert!(matches!(passive.check(&state), Err(Cancelled)));
    assert!(matches!(passive.sleep_step(&state, Duration::zero()), SleepStep::Interrupted));
    assert!(matches!(passive.sleep_step(&state, Duration::from_secs(2)), SleepStep::Interrupted));
}

#[test]
fn an_interrupt_is_seen_by_every_cancellation_and_stays() {
    let mut state = Interrupts::new();
    let before = Cancellation::passive();
    assert!(!before.is_requested(&state));
    assert_eq!(state.note_interrupt(), InterruptAction::Remember);
    let installed = Cancellation::install(Ok(())).expect("the handler was installed");
    for cancellation in [before, Cancellation::passive(), installed] {
        assert!(cancellation.is_requested(&state));
        assert!(matches!(cancellation.check(&state), Err(Cancelled)));
    }
    assert_eq!(state.note_interrupt(), InterruptAction::ExitAtOnce(130));
    assert_eq!(state.note_interrupt(), InterruptAction::ExitAtOnce(130));
    assert!(before.is_requested(&state));
    assert_eq!(Cancellation::install(Err(22)).err(), Some(22));
}

#[test]
fn a_program_ends_with_the_code_of_its_result() {
    let success = CliTermination::new(Ok(7)).report();
    assert_eq!((success.code, success.error), (7, None));
    let cancelled = CliTermination::new(Err(ErrorChain::cancelled())).report();
    assert_eq!(cancelled.code, 130);
    let failed =
        CliTermination::new(Err(ErrorChain::new(Cause::Message("broken".to_string())))).report();
    assert_eq!(failed.code, 1);
    assert!(failed.error.unwrap().contains("broken"));
}

#[test]
fn components_are_safe_names() {
    assert_eq!(sanitize_component("Fancy Tool!"), "fancy-tool");
    assert_eq!(sanitize_component("../.."), "tool");
    assert_eq!(app_dir("/home/example", "Fancy Tool!"), "/home/example/.fancy-tool");
    assert_eq!(tool_dir("state", "Fancy Tool!"), "state/fancy-tool");
}

#[test]
fn a_lock_is_taken_only_when_it_is_free() {
    let request = lock_request("/run/locks", "Fancy Tool!", &None);
    assert!(!request.bypassed);
    assert_eq!(request.path, lock_path("/run/locks", &request.tool));
    let next = |wait, step, event| request.advance("/run/locks", wait, step, event);
    assert_eq!(
        next(false, LockStep::TryLock, LockEvent::Done),
        LockNext::Continue(LockStep::WriteMetadata)
    );
    assert!(matches!(
        next(false, LockStep::TryLock, LockEvent::Busy),
        LockNext::Refused { error: LockError::AlreadyRunning { .. }, .. }
    ));
    assert_eq!(
        next(true, LockStep::TryLock, LockEvent::Busy),
        LockNext::Continue(LockStep::Sleep)
    );
    assert!(matches!(
        next(true, LockStep::Sleep, LockEvent::Interrupted),
        LockNext::Refused { error: LockError::Interrupted { .. }, .. }
    ));
    assert_eq!(next(true, LockStep::WriteMetadata, LockEvent::Done), LockNext::Taken);
    assert!(matches!(
        next(true, LockStep::OpenFile, LockEvent::Failed("x".to_string())),
        LockNext::Refused { error: LockError::Open { .. }, .. }
    ));
    let token = bypass_token(&request.tool);
    assert!(lock_request("/run/locks", "Fancy Tool!", &Some(token)).bypassed);
    assert_eq!(wait_display(true, false, false, true, false), WaitDisplay::StartTask);
    assert_eq!(wait_display(false, false, false, false, false), WaitDisplay::PrintNotice);
    assert_eq!(wait_display(false, false, false, false, true), WaitDisplay::Nothing);
}

#[test]
fn a_file_is_replaced_by_a_rename() {
    let file = "/x/config.toml".to_string();
    let steps = atomic_write(&file, Some(0o600), Some(0o700));
    assert_eq!(
        steps,
        [
            WriteStep::EnsureParent { file: file.clone(), mode: Some(0o700) },
            WriteStep::CreateTemporaryBeside { file: file.clone() },
            WriteStep::SetTemporaryMode(0o600),
            WriteStep::WriteTemporary,
            WriteStep::FlushTemporary,
            WriteStep::SyncTemporary,
            WriteStep::MoveTemporaryTo { file: file.clone() },
            WriteStep::SetMode { file: file.clone(), mode: 0o600 },
        ]
    );
    let direct = write_bytes(&file, Some(0o600), None);
    assert!(direct.contains(&WriteStep::WriteInPlace { file: file.clone() }));
    assert!(direct.contains(&WriteStep::SetMode { file, mode: 0o600 }));
}

#[test]
fn a_store_holds_what_was_loaded() {
    let path = "/x/config.toml".to_string();
    let mut store = TomlStore::load(path.clone(), Ok(3_u32)).unwrap();
    *store.value_mut() = 4;
    assert_eq!((store.path().as_str(), *store.value()), ("/x/config.toml", 4));
    let (text, steps) = store.save(Ok("value = 4\n".to_string()), None, None).unwrap();
    assert_eq!(text, "value = 4\n");
    assert!(!steps.is_empty());
    assert!(matches!(
        store.save(Err("x".to_string()), None, None),
        Err(StoreError::Serialize(_))
    ));
    assert_eq!(store.into_inner(), 4);
    let absent = TomlStore::<u32>::load_or_default(path.clone(), Ok(None)).unwrap();
    assert_eq!(absent.into_inner(), 0);
    assert!(matches!(
        load_toml::<u32>(&path, Err("gone".to_string()), Ok(1)),
        Err(StoreError::Read { .. })
    ));
    assert!(matches!(
        load_toml::<u32>(&path, Ok(()), Err("bad".to_string())),
        Err(StoreError::Parse { .. })
    ));
    assert!(!holds_value(&None));
    assert_eq!(load_optional_toml::<u32>(&path, Ok(None), Ok(1)).unwrap(), None);
    assert_eq!(
        load_optional_toml::<u32>(&path, Ok(Some("value = 1".to_string())), Ok(1)).unwrap(),
        Some(1)
    );
}

#[test]
fn temporary_files_have_their_extension() {
    assert_eq!(temp_suffix("json"), ".json");
    assert_eq!(requested_mode(0o600), Some(0o600));
}

#[test]
fn versions_are_read_ordered_and_written() {
    let version = Version::parse("1.2.3-rc.1+b").unwrap();
    assert_eq!(version.text(), "1.2.3-rc.1+b");
    assert!(!version.is_stable());
    assert!(Version::parse("1.2").is_none());
    assert!(Version::parse("01.2.3").is_none());
    let plain = Version::new(1, 2, 3);
    assert_eq!(version.precedes(&plain), Some(true));
    assert_eq!(plain.precedes(&version), Some(false));
    assert_eq!(plain.precedes(&Version::new(1, 10, 0)), Some(true));
    assert!(plain.same(&plain.copy()));
    let broken = Version { pre: "_".to_string(), ..Version::new(1, 0, 0) };
    assert_eq!(broken.precedes(&plain), None);
}

#[test]
fn durations_are_counted_in_nanoseconds() {
    let d = Duration::from_parts(1, 500_000_000).unwrap();
    assert_eq!((d.as_secs(), d.as_millis(), d.subsec_nanos()), (1, 1500, 500_000_000));
    assert_eq!(d.checked_mul(2).unwrap().as_secs(), 3);
    assert_eq!(Duration::from_secs(u64::MAX).checked_add(&Duration::from_secs(1)), None);
    assert!(Duration::from_secs(1).saturating_sub(&d).is_zero());
    assert!(Duration::from_secs(1).at_most(&d));
}

#[test]
fn paths_are_compared_by_their_parts() {
    assert!(unix_path::same_path("/a//b/", "/a/./b"));
    assert!(!unix_path::same_path("a/b", "/a/b"));
    assert!(unix_path::is_plain_path("/a/b"));
    assert!(!unix_path::is_plain_path("/a/../b"));
    assert_eq!(unix_path::join("/a", "b"), "/a/b");
    assert_eq!(unix_path::join("/a", "/b"), "/b");
    assert!(unix_path::starts_with("/a/b/c", "/a/b"));
    assert!(!unix_path::starts_with("/a/bc", "/a/b"));
    assert_eq!(unix_path::file_name_of("/a/b"), Some("b".to_string()));
    assert_eq!(unix_path::file_name_of("/a/.."), None);
}
