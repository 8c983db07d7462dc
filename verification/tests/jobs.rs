use std::cell::RefCell;

use capulus::duration::Duration;
use capulus::managed::account::{UnixAccount, UnixGroup, UserInstallContext};
use capulus::managed::job::{
    admit_release, authorize_redeploy, authorize_repair, bounded_detail, is_operator,
    parse_boot_id, reconcile, schedule_against, start_failure_detail, started_outcome, still_stopped, stopped_detail,
    validate_private_root_file, validate_root_directory, validate_transition, within_start_grace,
    JobError, JobPaths, OwnerFacts, Reconciliation, RedeployAuthorization, RedeployRequest,
    ScheduleEvent, ScheduleNext, ScheduleProgress, ScheduleStep, Scheduling, StoredJob,
};
use capulus::managed::product::{
    AgentServiceOptions, ApplicationSocketOptions, ManagedProduct, ManagedProductOptions,
    ManagedRedeployOptions, ServiceHardening, SocketOptions, SystemBinary, UserBinary,
};
use capulus::managed::protocol::{
    AgentInfo, JobId, JobPhase, ManagementResponse, PeerCredentials, RepairOutcome,
    PROTOCOL_MAJOR,
};
use capulus::managed::release::{CargoRegistry, ReleaseValidationError, ResolvedRelease};
use capulus::managed::systemd::{
    counts_as_enabled, counts_as_running, duration_microseconds, missing_unit_error_name,
    removable_socket, stop_wait, StopWait, SystemdError, SystemdManager, UnitAction, UnitActivity,
    UnitFileActivity, UnitValue,
};
use capulus::managed::worker::{
    compile_and_prepare_user_install, keeps_waiting, management_health, step_note, unhealthy_text,
    validate_health, HealthError, WorkerEvent, WorkerNext, WorkerProgress, WorkerStep,
};
use capulus::version::Version;

const JOB: &str = "deadbeefdeadbeefdeadbeefdeadbeef";

fn job() -> JobId {
    JobId::parse(JOB).unwrap()
}

fn product() -> ManagedProduct {
    ManagedProductOptions {
        product: "auc".to_string(),
        package: "auc-tool".to_string(),
        version: Version::new(0, 1, 0),
        system_binaries: vec![SystemBinary {
            cargo_name: "auc-agent".to_string(),
            destination: "/usr/local/bin/auc-agent".to_string(),
        }],
        user_binary: UserBinary { cargo_name: "auc-agent".to_string() },
        agent_binary: "/usr/local/bin/auc-agent".to_string(),
        service: AgentServiceOptions {
            description: "auc".to_string(),
            executable: "/usr/local/bin/auc-agent".to_string(),
            arguments: vec!["serve".to_string()],
            restart_delay: Duration::from_secs(5),
            network_required: false,
            state_directory_mode: 0o700,
            hardening: ServiceHardening::SystemNetworkController,
        },
        application_socket: ApplicationSocketOptions::SystemdActivated(SocketOptions {
            path: "/run/auc/agent.sock".to_string(),
            mode: 0o660,
            group: Some("auc".to_string()),
        }),
        management_socket: SocketOptions {
            path: "/run/auc/capulus.sock".to_string(),
            mode: 0o660,
            group: Some("auc".to_string()),
        },
        redeploy: ManagedRedeployOptions {
            build_timeout: Duration::from_secs(600),
            ..ManagedRedeployOptions::default()
        },
    }
    .validate()
    .unwrap()
}

fn test_context() -> UserInstallContext {
    UserInstallContext {
        account_name: "example".to_string(),
        uid: 1000,
        gid: 1000,
        home: "/home/example".to_string(),
        cargo_home: "/home/example/.cargo".to_string(),
        rustup_home: "/home/example/.rustup".to_string(),
        cargo: "/home/example/.cargo/bin/cargo".to_string(),
        rustup: "/home/example/.cargo/bin/rustup".to_string(),
        installed_binary: "/home/example/.cargo/bin/auc".to_string(),
    }
}

fn release(minor: u64) -> ResolvedRelease {
    ResolvedRelease { version: Version::new(0, minor, 0), registry: CargoRegistry::CratesIo }
}

fn root() -> RedeployAuthorization {
    RedeployAuthorization { root: true, required_user: None }
}

fn request(minor: u64) -> RedeployRequest {
    RedeployRequest::for_job(job(), &product(), release(minor), root())
}

fn stored() -> StoredJob {
    StoredJob::queued("boot".to_string(), &request(2), "unit.service".to_string())
}

#[test]
fn phase_transitions_are_forward_only() {
    assert!(validate_transition(&JobPhase::Queued, &JobPhase::Building).is_ok());
    assert!(validate_transition(&JobPhase::Building, &JobPhase::Failed).is_ok());
    assert!(validate_transition(&JobPhase::Building, &JobPhase::Preparing).is_err());
    assert!(validate_transition(&JobPhase::Complete, &JobPhase::Failed).is_err());
}

#[test]
fn public_job_detail_is_bounded() {
    let detail = bounded_detail("x".repeat(3000));
    assert_eq!(detail.chars().count(), 2048);
    assert!(detail.ends_with('…'));
}

#[test]
fn required_user_target_is_reclaimed_before_workspace_preparation() {
    let events = RefCell::new(Vec::new());
    let context = test_context();
    let prepared = compile_and_prepare_user_install(
        Some(&context),
        || {
            events.borrow_mut().push("compile");
            Ok::<_, String>("artifacts")
        },
        || {
            events.borrow_mut().push("reclaim");
            Ok(())
        },
        |_: &UserInstallContext| {
            events.borrow_mut().push("prepare");
            Ok(0xDEADBEEF_u32)
        },
    )
    .unwrap();
    events.borrow_mut().push("system-commit");

    assert_eq!(prepared, ("artifacts", Some(0xDEADBEEF)));
    assert_eq!(*events.borrow(), ["compile", "reclaim", "prepare", "system-commit"]);
}

#[test]
fn jobs_without_a_required_user_retain_the_shared_target() {
    let called = RefCell::new(false);
    let prepared = compile_and_prepare_user_install(
        None,
        || Ok::<_, String>("artifacts"),
        || {
            *called.borrow_mut() = true;
            Ok(())
        },
        |_: &UserInstallContext| -> Result<(), String> { unreachable!() },
    )
    .unwrap();

    assert_eq!(prepared, ("artifacts", None));
    assert!(!*called.borrow());
}

#[test]
fn transient_unit_name_has_only_fixed_product_and_hex_job() {
    let job = JobId::parse("deadbeefdeadbeefdeadbeefdeadbeef").unwrap();
    assert_eq!(
        SystemdManager::redeploy_unit_name(&product(), &job),
        "auc-redeploy-deadbeefdeadbeefdeadbeefdeadbeef.service"
    );
}

#[test]
fn recognizes_systemd_missing_unit_errors() {
    for name in [
        "org.freedesktop.systemd1.NoSuchUnit",
        "org.freedesktop.systemd1.NoSuchUnitFile",
        "org.freedesktop.DBus.Error.FileNotFound",
    ] {
        assert!(missing_unit_error_name(name));
    }
    assert!(!missing_unit_error_name("org.freedesktop.DBus.Error.AccessDenied"));
}

#[test]
fn a_job_only_moves_forward() {
    let mut kept = stored();
    assert_eq!(kept.status.phase, JobPhase::Queued);
    assert_eq!(kept.status.version, "0.2.0");
    kept.update(JobPhase::Building, "building".to_string(), false).unwrap();
    assert_eq!(kept.status.detail, "building");
    assert!(matches!(
        kept.update(JobPhase::Preparing, String::new(), false),
        Err(JobError::BackwardTransition {
            current: JobPhase::Building,
            next: JobPhase::Preparing
        })
    ));
    kept.complete(Some(true)).unwrap();
    assert_eq!(kept.status.phase, JobPhase::Complete);
    assert_eq!(kept.status.required_user_reinstalled, Some(true));
    assert!(matches!(
        kept.update(JobPhase::Failed, String::new(), false),
        Err(JobError::TerminalTransition)
    ));
    assert!(matches!(
        kept.fail("late".to_string(), false, None),
        Err(JobError::FailTerminal(_))
    ));
}

#[test]
fn a_failure_is_kept_with_its_facts() {
    let mut kept = stored();
    let diagnostic = kept.fail("d".repeat(3000), true, Some(false)).unwrap();
    assert_eq!(diagnostic.chars().count(), 2048);
    assert_eq!(
        kept.status.detail,
        "managed redeploy failed; inspect the transient unit journal"
    );
    assert!(kept.status.system_committed);
    assert_eq!(kept.status.rollback_succeeded, Some(false));
    assert_eq!(kept.status.phase, JobPhase::Failed);
    let mut worker = stored();
    worker.record_required_user_reinstalled(true).unwrap();
    assert_eq!(worker.status.required_user_reinstalled, Some(true));
    worker.fail_worker("x".to_string(), true, None, Some(false)).unwrap();
    assert_eq!(worker.status.required_user_reinstalled, Some(false));
}

#[test]
fn a_job_is_known_by_its_identity_and_boot() {
    let kept = stored();
    assert!(kept.check_identity(&job(), "auc").is_ok());
    assert!(matches!(kept.check_identity(&job(), "other"), Err(JobError::IdentityMismatch)));
    assert!(kept.interrupted_by_reboot("another"));
    assert!(!kept.interrupted_by_reboot("boot"));
    assert_eq!(
        parse_boot_id("  0123abcd-0123-0123-0123-0123456789ab\n").unwrap(),
        "0123abcd-0123-0123-0123-0123456789ab"
    );
    assert!(matches!(parse_boot_id("\n"), Err(JobError::BootId)));
}

#[test]
fn only_root_may_downgrade_or_skip_the_reinstallation() {
    let peer = |uid| PeerCredentials { pid: 7, uid, gid: uid };
    assert!(authorize_redeploy(peer(0), false, false, None).unwrap().root);
    assert!(matches!(
        authorize_redeploy(peer(1000), true, false, None),
        Err(JobError::RequiresReinstall)
    ));
    assert!(matches!(
        authorize_redeploy(peer(1000), true, true, None),
        Err(JobError::NoManagedCli)
    ));
    let user = authorize_redeploy(peer(1000), true, true, Some(test_context())).unwrap();
    assert_eq!(user.required_uid(), Some(1000));
    assert!(admit_release(&user, &product(), &release(2)).is_ok());
    assert!(matches!(
        admit_release(&user, &product(), &release(0)),
        Err(JobError::Downgrade)
    ));
    assert!(admit_release(&root(), &product(), &release(0)).is_ok());
    let mut unstable = release(2);
    unstable.version.pre = "rc.1".to_string();
    assert!(matches!(
        admit_release(&root(), &product(), &unstable),
        Err(JobError::Release(ReleaseValidationError::StableVersion))
    ));
    assert!(authorize_repair(peer(0), false, false).is_ok());
    assert!(authorize_repair(peer(1000), true, true).is_ok());
    assert!(matches!(authorize_repair(peer(1000), true, false), Err(JobError::NoManagedCli)));
}

#[test]
fn only_root_and_the_operator_group_change_the_system() {
    let peer = PeerCredentials { pid: 7, uid: 1000, gid: 1000 };
    assert!(matches!(
        authorize_redeploy(peer, false, true, Some(test_context())),
        Err(JobError::NotOperator)
    ));
    assert!(matches!(authorize_repair(peer, false, true), Err(JobError::NotOperator)));
    assert_eq!(
        JobError::NotOperator.message(),
        "management request requires root or the product operator group"
    );
    let product = product();
    let name = product.operator_group().expect("the socket has a group").clone();
    let account = |name: &str, gid: u32| UnixAccount {
        name: name.to_string(),
        uid: 1000,
        gid,
        home: "/home/example".to_string(),
        shell: "/bin/sh".to_string(),
    };
    let group = |name: &str| {
        Some(UnixGroup { name: name.to_string(), gid: 77, members: vec!["ada".to_string()] })
    };
    assert!(is_operator(&product, &account("ada", 1000), &group(&name)));
    assert!(is_operator(&product, &account("bob", 77), &group(&name)));
    assert!(!is_operator(&product, &account("bob", 1000), &group(&name)));
    assert!(!is_operator(&product, &account("ada", 1000), &group("wheel")));
    assert!(!is_operator(&product, &account("ada", 1000), &None));
}

#[test]
fn identical_requests_share_the_active_job() {
    let first = request(2);
    let status = stored().status;
    match schedule_against(Some((first.active(), status.clone())), &release(2), &root()) {
        Ok(Scheduling::Share(outcome)) => {
            assert_eq!(outcome.job, job());
            assert!(!outcome.started);
        }
        other => panic!("{other:?}"),
    }
    assert!(matches!(
        schedule_against(Some((first.active(), status.clone())), &release(3), &root()),
        Err(JobError::AlreadyActive { .. })
    ));
    let mut ended = status.clone();
    ended.phase = JobPhase::Complete;
    assert!(matches!(
        schedule_against(Some((first.active(), ended)), &release(3), &root()),
        Ok(Scheduling::Replace(_))
    ));
    assert!(matches!(
        schedule_against(None, &release(3), &root()),
        Ok(Scheduling::Start)
    ));
    let outcome = started_outcome(&first, "unit.service".to_string());
    assert!(outcome.started);
    assert_eq!(outcome.version, "0.2.0");
}

#[test]
fn a_request_is_for_its_product() {
    assert!(request(2).validate(&product()).is_ok());
    let mut other = request(2);
    other.product = "other".to_string();
    assert!(matches!(other.validate(&product()), Err(JobError::MismatchedProduct)));
}

fn after(progress: ScheduleProgress, event: ScheduleEvent) -> ScheduleProgress {
    match progress.advance(event) {
        ScheduleNext::Continue(next) => next,
        other => panic!("{other:?}"),
    }
}

#[test]
fn a_unit_starts_after_its_job_is_written() {
    let progress = after(ScheduleProgress::begin(), ScheduleEvent::Done);
    let progress = after(progress, ScheduleEvent::Decided(Ok(Scheduling::Replace(job()))));
    assert_eq!(progress.step, ScheduleStep::ClearActive);
    let progress = after(progress, ScheduleEvent::Done);
    assert_eq!(progress.step, ScheduleStep::ValidateRequest);
    let progress = after(progress, ScheduleEvent::Done);
    assert_eq!(progress.step, ScheduleStep::WriteRequest);
    let progress = after(progress, ScheduleEvent::Done);
    assert_eq!(progress.step, ScheduleStep::Initialize);
    let progress = after(progress, ScheduleEvent::Done);
    assert_eq!(progress.step, ScheduleStep::StartUnit);
    assert_eq!(
        ScheduleProgress { step: ScheduleStep::StartUnit, start_error: None }
            .advance(ScheduleEvent::Done),
        ScheduleNext::Started
    );
    let progress = after(progress, ScheduleEvent::Failed("no bus".to_string()));
    assert_eq!(progress.step, ScheduleStep::FailJob);
    let progress = after(progress, ScheduleEvent::Done);
    assert_eq!(progress.step, ScheduleStep::RemoveRequest);
    assert_eq!(
        progress.advance(ScheduleEvent::Done),
        ScheduleNext::Failed("no bus".to_string())
    );
}

#[test]
fn a_stopped_job_is_failed_after_its_grace() {
    assert_eq!(reconcile(JobPhase::Complete, true, true), Reconciliation::Clear);
    assert_eq!(reconcile(JobPhase::Queued, true, false), Reconciliation::Keep);
    assert_eq!(reconcile(JobPhase::Queued, false, true), Reconciliation::Keep);
    assert_eq!(reconcile(JobPhase::Building, false, false), Reconciliation::Fail);
    assert!(within_start_grace(&Some(Duration::from_millis(4999))));
    assert!(!within_start_grace(&Some(Duration::from_secs(5))));
    assert!(still_stopped(&job(), &Some(job()), JobPhase::Queued));
    assert!(!still_stopped(&job(), &None, JobPhase::Queued));
    assert!(!still_stopped(&job(), &Some(job()), JobPhase::Failed));
    assert!(stopped_detail("auc.service").contains("auc.service"));
    assert!(start_failure_detail("no bus").ends_with("no bus"));
}

#[test]
fn job_files_are_private_to_root() {
    let paths = JobPaths::new("auc");
    assert_eq!(paths.state_directory, "/var/lib/capulus/jobs/auc");
    assert_eq!(paths.runtime_directory, "/run/capulus/jobs/auc");
    assert!(paths.request(&job()).contains(JOB));
    assert!(paths.status(&job()).starts_with("/var/lib/capulus/jobs/auc/"));
    let file = OwnerFacts { regular: true, directory: false, uid: 0, gid: 0, mode: 0o100600 };
    let path = "/x".to_string();
    assert!(validate_private_root_file(&path, &file).is_ok());
    let open = OwnerFacts { mode: 0o100644, ..file };
    assert!(matches!(validate_private_root_file(&path, &open), Err(JobError::NotPrivate(_))));
    let directory =
        OwnerFacts { regular: false, directory: true, uid: 0, gid: 0, mode: 0o40700 };
    assert!(validate_root_directory(&path, &directory).is_ok());
    let foreign = OwnerFacts { uid: 1000, ..directory };
    assert!(matches!(
        validate_root_directory(&path, &foreign),
        Err(JobError::NotRootDirectory(_))
    ));
}

fn go(progress: WorkerProgress, event: WorkerEvent) -> WorkerProgress {
    match progress.advance(event) {
        WorkerNext::Continue(next) => next,
        other => panic!("{other:?}"),
    }
}

#[test]
fn a_worker_accepts_only_a_healthy_agent() {
    let mut progress = go(WorkerProgress::start(), WorkerEvent::Taken { user_required: false });
    let mut steps = vec![];
    loop {
        steps.push(progress.step);
        match progress.advance(WorkerEvent::Done) {
            WorkerNext::Continue(next) => progress = next,
            WorkerNext::Complete { required_user_reinstalled } => {
                assert_eq!(required_user_reinstalled, None);
                break;
            }
            other => panic!("{other:?}"),
        }
    }
    assert!(!steps.contains(&WorkerStep::ReinstallUser));
    let health = steps.iter().position(|s| *s == WorkerStep::AwaitHealth).unwrap();
    let accepted = steps.iter().position(|s| *s == WorkerStep::Finalize).unwrap();
    assert!(health < accepted);
}

#[test]
fn an_unhealthy_agent_is_rolled_back() {
    let waiting = WorkerProgress {
        step: WorkerStep::AwaitHealth,
        user_required: false,
        reinstalled: None,
        error: None,
    };
    let undoing = go(waiting, WorkerEvent::Failed("unreachable".to_string()));
    assert_eq!(undoing.step, WorkerStep::RollBack);
    match undoing.advance(WorkerEvent::Done) {
        WorkerNext::Fail(failure) => {
            assert!(failure.error.contains("unreachable"));
            assert!(!failure.system_committed);
            assert_eq!(failure.rollback_succeeded, Some(true));
        }
        other => panic!("{other:?}"),
    }
    assert_eq!(
        step_note(WorkerStep::NoteBuilding).map(|note| note.0),
        Some(JobPhase::Building)
    );
    assert!(step_note(WorkerStep::RollBack).is_none());
}

#[test]
fn health_is_identity_version_and_protocol() {
    let version = Version::new(0, 2, 0);
    let info = AgentInfo {
        product: "auc".to_string(),
        package: "auc-tool".to_string(),
        version: "0.2.0".to_string(),
        protocol_major: PROTOCOL_MAJOR,
    };
    assert!(validate_health(&info, "auc", "auc-tool", &version).is_ok());
    let old = AgentInfo { version: "0.1.0".to_string(), ..info.clone() };
    let error = validate_health(&old, "auc", "auc-tool", &version).unwrap_err();
    assert_eq!(error.message(), "agent health identity/version does not match auc 0.2.0");
    assert!(management_health(Ok(ManagementResponse::Info(info)), "auc", "auc-tool", &version)
        .is_ok());
    let repair = RepairOutcome { changed: false, detail: String::new() };
    assert!(matches!(
        management_health(Ok(ManagementResponse::Repair(repair)), "auc", "auc-tool", &version),
        Err(HealthError::WrongResponse)
    ));
    assert!(matches!(
        management_health(Err("gone".to_string()), "auc", "auc-tool", &version),
        Err(HealthError::Unreachable(_))
    ));
    assert!(keeps_waiting(&Duration::from_millis(59_999)));
    assert!(!keeps_waiting(&Duration::from_secs(60)));
    assert!(unhealthy_text(None).len() > 0);
}

#[test]
fn a_redeploy_runs_in_a_bounded_transient_unit() {
    let properties = SystemdManager::transient_properties(&product(), &job()).unwrap();
    let value = |name: &str| {
        properties.iter().find(|(n, _)| *n == name).map(|(_, value)| value.clone())
    };
    assert_eq!(value("TasksMax"), Some(UnitValue::Number64(512)));
    assert_eq!(
        value("RuntimeMaxUSec"),
        Some(UnitValue::Number64((2 * 600 + 35 * 60) * 1_000_000))
    );
    match value("ExecStart") {
        Some(UnitValue::Command { executable, arguments }) => {
            assert_eq!(executable, "/usr/local/bin/auc-agent");
            assert_eq!(
                arguments,
                ["/usr/local/bin/auc-agent", "redeploy-worker", "--job", JOB]
            );
        }
        other => panic!("{other:?}"),
    }
    assert_eq!(duration_microseconds(&Duration::from_millis(3)).unwrap(), 3000);
    assert!(matches!(
        duration_microseconds(&Duration::from_secs(u64::MAX)),
        Err(SystemdError::DurationOverflow)
    ));
}

#[test]
fn activation_enables_the_target_and_restoration_what_was_enabled() {
    let product = product();
    let target = vec!["auc-agent.service".to_string(), "auc-capulus.socket".to_string()];
    let previous = vec!["auc-agent.service".to_string(), "auc-agent.socket".to_string()];
    let enabled = |operations: &Vec<capulus::managed::systemd::UnitOperation>| {
        let mut units: Vec<String> = vec![];
        for operation in operations {
            match &operation.action {
                UnitAction::Enable(names) => units.extend(names.iter().cloned()),
                UnitAction::Disable(names) => units.retain(|unit| !names.contains(unit)),
                _ => {}
            }
        }
        units.sort();
        units
    };
    let activate = SystemdManager::activate_installation(&product, &target, &previous, true);
    assert_eq!(enabled(&activate), ["auc-agent.service", "auc-capulus.socket"]);
    let stopped: Vec<&UnitAction> = activate
        .iter()
        .map(|operation| &operation.action)
        .filter(|action| matches!(action, UnitAction::Stop(_)))
        .collect();
    assert_eq!(stopped, [&UnitAction::Stop("auc-agent.socket".to_string())]);
    let restore = SystemdManager::restore_installation(&product, &target, &previous, true);
    assert_eq!(enabled(&restore), ["auc-agent.service", "auc-agent.socket"]);
    let refresh = SystemdManager::refresh_installation(&product, &previous);
    assert!(refresh.iter().any(|operation| operation.action == UnitAction::Reload));
    let deactivate = SystemdManager::deactivate_installation(&product);
    assert!(deactivate
        .iter()
        .any(|operation| matches!(&operation.action, UnitAction::Disable(_))));
    assert_eq!(
        SystemdManager::managed_unit_names(&product),
        ["auc-agent.service", "auc-agent.socket", "auc-capulus.socket"]
    );
}

#[test]
fn units_are_waited_for_until_they_stop() {
    assert!(counts_as_running(UnitActivity::Deactivating));
    assert!(!counts_as_running(UnitActivity::Failed));
    assert!(counts_as_enabled(UnitFileActivity::EnabledRuntime));
    assert!(!counts_as_enabled(UnitFileActivity::Other));
    assert_eq!(stop_wait(UnitActivity::Inactive, true), StopWait::Stopped);
    assert_eq!(stop_wait(UnitActivity::Active, true), StopWait::LookAgain);
    assert_eq!(stop_wait(UnitActivity::Active, false), StopWait::GiveUp);
    let path = "/run/auc/agent.sock".to_string();
    assert_eq!(removable_socket(&path, false, false, 0).unwrap(), false);
    assert_eq!(removable_socket(&path, true, true, 0).unwrap(), true);
    assert!(matches!(
        removable_socket(&path, true, false, 0),
        Err(SystemdError::UnsafeApplicationSocket(_))
    ));
}

#[test]
fn job_errors_are_worded() {
    assert_eq!(
        JobError::AlreadyActive { job: job(), version: "0.2.0".to_string() }.message(),
        format!("redeploy {JOB} is already active for version 0.2.0")
    );
}
