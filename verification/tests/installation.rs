use capulus::digest::bytes_digest;
use capulus::duration::Duration;
use capulus::managed::installation::{
    directory_chain, is_installed_file, validate_directory, validate_private_file, FileFacts,
    FileStep, InstallationError, InstallationFault, RecordFacts, RemovalFacts,
};
use capulus::managed::job::OwnerFacts;
use capulus::managed::journal::{
    installation_stage, uninstallation_stage, valid_digest, InstallationJournal,
    InstallationRecord, JournalError, JournalKind, UninstallationJournal, UninstallationRecord,
};
use capulus::managed::manifest::ManagedFile;
use capulus::managed::operation::{
    InstallationPaths, PrepareNext, PrepareProgress, PrepareStep, RecoverNext, RecoverStep, RepairEvent, RepairNext,
    RepairProgress, RepairStep, StepEnd, UndoNext, UndoStep,
};
use capulus::managed::preparation::{
    contents_digest, plan_files, plan_uninstallation_journal, plan_uninstallation_record,
    prepare_journal, Observation,
};
use capulus::managed::product::{
    AgentServiceOptions, ApplicationSocketOptions, ManagedProduct, ManagedProductOptions,
    ManagedRedeployOptions, ServiceHardening, SocketOptions, SystemBinary, UserBinary,
};
use capulus::managed::protocol::JobId;
use capulus::managed::transaction::{
    repair_file, repair_outcome, undo_outcome, Recovery, RepairAction, RepairFacts, StageStep,
    SystemInstallation, SystemUninstallation, TransactionError, UndoOutcome,
};
use capulus::version::Version;

const JOB: &str = "deadbeefdeadbeefdeadbeefdeadbeef";

fn job() -> JobId {
    JobId::parse(JOB).unwrap()
}

fn socket(name: &str) -> SocketOptions {
    SocketOptions { path: format!("/run/auc/{name}.sock"), mode: 0o600, group: None }
}

fn product(activated: bool) -> ManagedProduct {
    ManagedProductOptions {
        product: "auc".to_string(),
        package: "auc-tool".to_string(),
        version: Version::new(0, 1, 0),
        system_binaries: vec![SystemBinary {
            cargo_name: "auc-agent".to_string(),
            destination: "/usr/local/bin/auc-agent".to_string(),
        }],
        user_binary: UserBinary { cargo_name: "auc-agent".to_string() },
        agent_binary: "/usr/local/bin/auc-agent".to_string(),
        service: AgentServiceOptions {
            description: "auc".to_string(),
            executable: "/usr/local/bin/auc-agent".to_string(),
            arguments: vec![],
            restart_delay: Duration::from_secs(5),
            network_required: true,
            state_directory_mode: 0o700,
            hardening: ServiceHardening::SystemNetworkController,
        },
        application_socket: if activated {
            ApplicationSocketOptions::SystemdActivated(socket("agent"))
        } else {
            ApplicationSocketOptions::AgentBound(socket("agent"))
        },
        management_socket: socket("capulus"),
        redeploy: ManagedRedeployOptions::default(),
    }
    .validate()
    .unwrap()
}

fn record(directory: &str, name: &str, original: Option<&str>, new: Option<&str>) -> InstallationRecord {
    InstallationRecord {
        destination: format!("{directory}/{name}"),
        staged: format!("{directory}/.capulus-auc-{JOB}/new/{name}"),
        backup: format!("{directory}/.capulus-auc-{JOB}/old/{name}"),
        original_digest: original.map(|digit| digit.repeat(32)),
        new_digest: new.map(|digit| digit.repeat(32)),
    }
}

fn first_install_journal() -> InstallationJournal {
    InstallationJournal {
        product: "auc".to_string(),
        job: job(),
        previously_enabled: Vec::new(),
        target_enable_units: vec!["auc-agent.service".to_string()],
        previous_service_file: false,
        committed_records: 0,
        accepted: false,
        records: vec![
            record("/usr/local/bin", "auc-agent", None, Some("00")),
            record("/etc/systemd/system", "auc-agent.service", None, Some("11")),
        ],
    }
}

fn absent() -> FileFacts {
    FileFacts { present: false, exists: false, installed: false, digest: None }
}

fn installed(digit: &str) -> FileFacts {
    FileFacts { present: true, exists: true, installed: true, digest: Some(digit.repeat(32)) }
}

fn fault<T: std::fmt::Debug>(r: Result<T, InstallationError>) -> InstallationFault {
    r.expect_err("the step should be refused").fault
}

#[test]
fn journal_paths_are_fixed_to_the_product_and_job() {
    let journal = first_install_journal();
    journal.validate("auc").unwrap();
    assert!(!journal.accepted);
    assert!(!journal.previous_application_socket_file());
    assert!(journal.records[0].new_digest.is_some());

    let mut unsafe_journal = journal;
    unsafe_journal.records[0].backup = "/tmp/auc-agent".to_string();
    assert!(unsafe_journal.validate("auc").is_err());
}

#[test]
fn accepted_installation_journal_requires_every_file_commit() {
    let job = JobId::parse("deadbeefdeadbeefdeadbeefdeadbeef").unwrap();
    let text = job.text();
    let mut journal = InstallationJournal {
        product: "auc".to_string(),
        job,
        previously_enabled: Vec::new(),
        target_enable_units: vec!["auc-agent.service".to_string()],
        previous_service_file: false,
        committed_records: 0,
        accepted: true,
        records: vec![InstallationRecord {
            destination: "/etc/systemd/system/auc-agent.service".to_string(),
            staged: format!("/etc/systemd/system/.capulus-auc-{text}/new/auc-agent.service"),
            backup: format!("/etc/systemd/system/.capulus-auc-{text}/old/auc-agent.service"),
            original_digest: None,
            new_digest: Some("00".repeat(32)),
        }],
    };

    assert!(journal.validate("auc").is_err());
    journal.committed_records = journal.records.len();
    journal.validate("auc").unwrap();
}

#[test]
fn journal_accepts_a_transactional_managed_file_removal() {
    let job = JobId::parse("deadbeefdeadbeefdeadbeefdeadbeef").unwrap();
    let text = job.text();
    let journal = InstallationJournal {
        product: "auc".to_string(),
        job,
        previously_enabled: vec!["auc-agent.service".to_string(), "auc-agent.socket".to_string()],
        target_enable_units: vec!["auc-agent.service".to_string()],
        previous_service_file: true,
        committed_records: 0,
        accepted: false,
        records: vec![
            InstallationRecord {
                destination: "/etc/systemd/system/auc-agent.service".to_string(),
                staged: format!("/etc/systemd/system/.capulus-auc-{text}/new/auc-agent.service"),
                backup: format!("/etc/systemd/system/.capulus-auc-{text}/old/auc-agent.service"),
                original_digest: Some("00".repeat(32)),
                new_digest: Some("11".repeat(32)),
            },
            InstallationRecord {
                destination: "/etc/systemd/system/auc-agent.socket".to_string(),
                staged: format!("/etc/systemd/system/.capulus-auc-{text}/new/auc-agent.socket"),
                backup: format!("/etc/systemd/system/.capulus-auc-{text}/old/auc-agent.socket"),
                original_digest: Some("22".repeat(32)),
                new_digest: None,
            },
        ],
    };

    journal.validate("auc").unwrap();
}

#[test]
fn unit_verification_uses_committed_destination() {
    assert_eq!(
        first_install_journal().committed_unit_paths(),
        ["/etc/systemd/system/auc-agent.service"]
    );
}

#[test]
fn digests_are_sixty_four_hexadecimal_digits() {
    assert!(valid_digest(&"0a".repeat(32)));
    assert!(valid_digest(&"AF".repeat(32)));
    assert!(!valid_digest(&"0a".repeat(31)));
    assert!(!valid_digest(&"0g".repeat(32)));
    assert_eq!(
        bytes_digest(&b"abc".to_vec()),
        "ba7816bf8f01cfea414140de5dae2223b00361a396177a9cb410ff61f20015ad"
    );
    assert_eq!(
        contents_digest(""),
        "e3b0c44298fc1c149afbf4c8996fb92427ae41e4649b934ca495991b7852b855"
    );
}

#[test]
fn stages_are_named_after_the_product_and_job() {
    assert_eq!(installation_stage("auc", &job()), format!(".capulus-auc-{JOB}"));
    assert_eq!(uninstallation_stage("auc", &job()), format!(".capulus-auc-uninstall-{JOB}"));
}

#[test]
fn each_fault_of_a_journal_has_its_error() {
    let error = |change: &dyn Fn(&mut InstallationJournal)| {
        let mut journal = first_install_journal();
        change(&mut journal);
        journal.validate("auc").expect_err("the journal should be refused")
    };
    assert_eq!(error(&|j| j.product = "other".to_string()), JournalError::WrongIdentity);
    assert_eq!(error(&|j| j.records.clear()), JournalError::WrongIdentity);
    assert_eq!(error(&|j| j.committed_records = 3), JournalError::WrongIdentity);
    assert_eq!(
        error(&|j| j.records[0].destination = "usr/local/bin/auc-agent".to_string()),
        JournalError::NotNormalized("usr/local/bin/auc-agent".to_string())
    );
    assert_eq!(
        error(&|j| {
            let again = j.records[0].clone();
            j.records.push(again);
        }),
        JournalError::UnsafePath
    );
    assert_eq!(
        error(&|j| j.target_enable_units = vec!["other.service".to_string()]),
        JournalError::UnsafeTargetUnits
    );
    assert_eq!(
        error(&|j| j.previous_service_file = true),
        JournalError::InconsistentPriorUnits
    );
    assert_eq!(
        JournalError::UnsafePath.message(JournalKind::Installation),
        "interrupted Capulus installation journal contains an unsafe path"
    );
    assert_eq!(
        JournalError::NotNormalized("a".to_string()).message(JournalKind::Uninstallation),
        "managed path is not normalized and absolute: a"
    );
}

#[test]
fn a_file_is_committed_by_a_backup_and_a_rename() {
    let replaced = record("/usr/local/bin", "auc-agent", Some("00"), Some("11"));
    let steps = replaced.commit(&installed("00")).unwrap();
    assert!(steps.contains(&FileStep::Rename {
        from: replaced.destination.clone(),
        to: replaced.backup.clone(),
    }));
    assert!(steps.contains(&FileStep::Rename {
        from: replaced.staged.clone(),
        to: replaced.destination.clone(),
    }));
    assert_eq!(
        fault(replaced.commit(&installed("22"))),
        InstallationFault::ChangedWhileStaging
    );
    assert_eq!(fault(replaced.commit(&absent())), InstallationFault::DisappearedWhileStaging);
    let fresh = record("/usr/local/bin", "auc-agent", None, Some("11"));
    assert_eq!(fault(fresh.commit(&installed("00"))), InstallationFault::AppearedWhileStaging);
    assert!(fresh.verify_staged(&"11".repeat(32)).is_ok());
    assert_eq!(
        fault(fresh.verify_staged(&"12".repeat(32))),
        InstallationFault::StagedFileChanged
    );
}

#[test]
fn a_committed_file_is_rolled_back_to_its_original() {
    let replaced = record("/usr/local/bin", "auc-agent", Some("00"), Some("11"));
    let steps = replaced
        .rollback(&RecordFacts {
            destination: installed("11"),
            staged_exists: false,
            backup_exists: true,
        })
        .unwrap();
    assert!(steps.contains(&FileStep::Rename {
        from: replaced.backup.clone(),
        to: replaced.destination.clone(),
    }));
    assert_eq!(
        fault(replaced.rollback(&RecordFacts {
            destination: installed("22"),
            staged_exists: false,
            backup_exists: true,
        })),
        InstallationFault::ChangedBeforeRollback
    );
    let fresh = record("/usr/local/bin", "auc-agent", None, Some("11"));
    let steps = fresh
        .rollback(&RecordFacts {
            destination: installed("11"),
            staged_exists: false,
            backup_exists: false,
        })
        .unwrap();
    assert!(steps.contains(&FileStep::Remove { file: fresh.destination.clone() }));
}

#[test]
fn accepted_files_are_verified() {
    let replaced = record("/usr/local/bin", "auc-agent", Some("00"), Some("11"));
    assert!(replaced.verify_accepted(&installed("11")).is_ok());
    assert_eq!(
        fault(replaced.verify_accepted(&installed("00"))),
        InstallationFault::AcceptedChangedBeforeRecovery
    );
    assert_eq!(
        fault(replaced.verify_accepted(&absent())),
        InstallationFault::AcceptedDisappearedBeforeRecovery
    );
    let retired = record("/usr/local/bin", "auc-agent", Some("00"), None);
    assert!(retired.verify_accepted(&absent()).is_ok());
    assert_eq!(
        fault(retired.verify_accepted(&installed("00"))),
        InstallationFault::RemovedReappearedBeforeRecovery
    );
}

#[test]
fn an_installation_is_accepted_only_once_every_file_is_committed() {
    let mut installation = SystemInstallation::new(first_install_journal());
    assert_eq!(installation.check_activation(), Err(TransactionError::ActivateUncommitted));
    assert_eq!(installation.accept(), Err(TransactionError::FinalizeUncommitted));
    while installation.commit_next(&absent()).is_some() {
        installation.note_committed();
    }
    assert_eq!(installation.journal().committed_records, 2);
    assert!(!installation.files_committed());
    assert_eq!(installation.check_activation(), Err(TransactionError::ActivateUncommitted));
    assert_eq!(installation.accept(), Err(TransactionError::FinalizeUncommitted));
    installation.note_files_committed();
    assert!(installation.files_committed());
    assert_eq!(installation.journal().committed_records, 2);
    assert!(installation.check_activation().is_ok());
    assert!(installation.check_rollback().is_ok());
    assert!(installation.accept().is_ok());
    assert!(installation.acceptance_committed());
    assert_eq!(installation.check_rollback(), Err(TransactionError::RollBackAccepted));
    assert_eq!(
        TransactionError::RollBackAccepted.message(),
        "cannot roll back an accepted Capulus installation"
    );
}

#[test]
fn an_interrupted_installation_is_undone_in_reverse() {
    let mut journal = first_install_journal();
    journal.committed_records = 1;
    assert!(matches!(journal.recovery("auc"), Ok(Recovery::RollBackAndRestore)));
    assert_eq!(journal.rollback_order().unwrap(), [1, 0]);
    journal.committed_records = 2;
    journal.accepted = true;
    assert!(matches!(journal.recovery("auc"), Ok(Recovery::VerifyAndRefresh)));
    assert!(matches!(journal.recovery("other"), Err(JournalError::WrongIdentity)));
    let roots = journal.staging_roots();
    assert!(roots.contains(&format!("/usr/local/bin/.capulus-auc-{JOB}")));
    assert!(roots.contains(&format!("/etc/systemd/system/.capulus-auc-{JOB}")));
    assert_eq!(roots.len(), 2);
}

#[test]
fn a_prepared_installation_covers_retired_files() {
    let activated = product(true);
    let bound = product(false);
    let manifest = bound.installation_manifest();
    let planned = plan_files(&activated, &manifest);
    let last = planned.last().unwrap();
    assert_eq!(last.destination, "/etc/systemd/system/auc-agent.socket");
    assert_eq!(last.file, None);

    let observations: Vec<Observation> = planned
        .iter()
        .map(|_| Observation { facts: installed("ab"), artifact_digest: Some("cd".repeat(32)) })
        .collect();
    let journal = prepare_journal(
        &activated,
        &job(),
        &manifest,
        &observations,
        vec!["auc-agent.service".to_string(), "auc-agent.socket".to_string()],
    )
    .unwrap();
    journal.validate("auc").unwrap();
    assert_eq!(journal.records.len(), planned.len());
    assert_eq!(journal.records.last().unwrap().new_digest, None);
    assert!(journal.previous_service_file);
    assert!(journal.previous_application_socket_file());
    let service = journal
        .records
        .iter()
        .find(|record| record.destination.ends_with("auc-agent.service"))
        .unwrap();
    assert_eq!(
        service.new_digest,
        Some(contents_digest(&bound.service_unit_contents()))
    );
}

#[test]
fn a_preparation_stops_at_the_first_file_with_a_fault() {
    let bound = product(false);
    let manifest = bound.installation_manifest();
    let planned = plan_files(&bound, &manifest);
    let mut observations: Vec<Observation> = planned
        .iter()
        .map(|_| Observation { facts: absent(), artifact_digest: Some("cd".repeat(32)) })
        .collect();
    observations[1].facts =
        FileFacts { present: true, exists: true, installed: false, digest: None };
    let error = prepare_journal(&bound, &job(), &manifest, &observations, vec![]).unwrap_err();
    assert_eq!(error.fault, InstallationFault::NotInstalledFile);
    assert_eq!(error.path, planned[1].destination);
    observations[0].artifact_digest = None;
    let error = prepare_journal(&bound, &job(), &manifest, &observations, vec![]).unwrap_err();
    assert_eq!(error.fault, InstallationFault::Unreadable);
    assert_eq!(error.path, "/usr/local/bin/auc-agent");
}

fn removal_journal(product: &ManagedProduct) -> UninstallationJournal {
    let records: Vec<UninstallationRecord> = product
        .installation_manifest()
        .files
        .iter()
        .map(|file| {
            plan_uninstallation_record(product, &job(), file.destination(), &installed("ab"))
                .unwrap()
        })
        .collect();
    plan_uninstallation_journal(product, &job(), vec![], &records)
}

#[test]
fn a_planned_removal_is_trusted_and_undone() {
    let bound = product(false);
    let journal = removal_journal(&bound);
    journal.validate(&bound).unwrap();
    assert!(journal.records[0].destination.starts_with("/etc/systemd/system/"));
    let first = journal.records.last().unwrap();
    assert_eq!(
        first.backup,
        format!("/usr/local/bin/.capulus-auc-uninstall-{JOB}/old/auc-agent")
    );
    assert!(first
        .remove(&installed("ab"))
        .unwrap()
        .contains(&FileStep::Rename { from: first.destination.clone(), to: first.backup.clone() }));
    assert_eq!(
        fault(first.remove(&installed("cd"))),
        InstallationFault::ChangedBeforeUninstall
    );
    assert_eq!(fault(first.remove(&absent())), InstallationFault::DisappearedBeforeUninstall);
    let removed = RemovalFacts { destination: absent(), backup: installed("ab") };
    assert!(first
        .restore(true, &removed)
        .unwrap()
        .contains(&FileStep::Rename { from: first.backup.clone(), to: first.destination.clone() }));
    let lost = RemovalFacts { destination: absent(), backup: absent() };
    assert_eq!(fault(first.restore(true, &lost)), InstallationFault::BackupMissing);
    assert!(first.verify_removed(false).is_ok());
    assert_eq!(fault(first.verify_removed(true)), InstallationFault::ReappearedAfterUninstall);

    let mut changed = journal.clone();
    changed.records.pop();
    assert_eq!(changed.validate(&bound), Err(JournalError::WrongManagedFiles));
}

#[test]
fn a_removal_follows_the_deactivation() {
    let bound = product(false);
    let mut removal = SystemUninstallation::new(removal_journal(&bound));
    assert_eq!(removal.check_removal(), Err(TransactionError::RemoveBeforeDeactivation));
    removal.note_deactivated();
    assert!(removal.check_removal().is_ok());
    assert_eq!(removal.check_finalize(), Err(TransactionError::FinalizeIncomplete));
    while removal.remove_next(&installed("ab")).is_some() {
        removal.note_removed();
    }
    assert!(removal.check_finalize().is_ok());
    assert!(!removal.removal_committed());
    removal.commit_removal();
    assert!(removal.removal_committed());
}

#[test]
fn what_undoing_came_to_is_told() {
    let failed = || Err("lost".to_string());
    assert_eq!(undo_outcome(Ok(()), Ok(())), UndoOutcome::Undone);
    assert_eq!(undo_outcome(failed(), Ok(())), UndoOutcome::FilesFailed("lost".to_string()));
    assert_eq!(undo_outcome(Ok(()), failed()), UndoOutcome::UnitsFailed("lost".to_string()));
    assert_eq!(
        undo_outcome(failed(), failed()),
        UndoOutcome::BothFailed { files: "lost".to_string(), units: "lost".to_string() }
    );
}

#[test]
fn repairs_rewrite_units_and_modes_but_never_binaries() {
    let unit = ManagedFile::Text {
        destination: "/etc/systemd/system/auc-agent.service".to_string(),
        contents: "[Unit]\n".to_string(),
        mode: 0o644,
    };
    let seen = |mode: u32, contents: &str| RepairFacts {
        present: true,
        installed: true,
        mode,
        contents: Some(contents.as_bytes().to_vec()),
    };
    assert_eq!(repair_file(&unit, &seen(0o644, "[Unit]\n")).unwrap(), RepairAction::Keep);
    assert_eq!(repair_file(&unit, &seen(0o600, "[Unit]\n")).unwrap(), RepairAction::Rewrite);
    assert_eq!(repair_file(&unit, &seen(0o644, "other")).unwrap(), RepairAction::Rewrite);
    let missing = RepairFacts { present: false, installed: false, mode: 0, contents: None };
    assert_eq!(repair_file(&unit, &missing).unwrap(), RepairAction::Rewrite);
    let binary = ManagedFile::Binary {
        source_name: "auc-agent".to_string(),
        destination: "/usr/local/bin/auc-agent".to_string(),
        mode: 0o755,
    };
    assert_eq!(fault(repair_file(&binary, &missing)), InstallationFault::BinaryMissing);
    assert_eq!(repair_file(&binary, &seen(0o755, "")).unwrap(), RepairAction::Keep);
    assert_eq!(repair_file(&binary, &seen(0o700, "")).unwrap(), RepairAction::SetMode);
    assert!(repair_outcome(true).changed);
    assert!(!repair_outcome(false).changed);
}

#[test]
fn managed_files_and_directories_are_roots() {
    let file = OwnerFacts { regular: true, directory: false, uid: 0, gid: 0, mode: 0o100600 };
    let path = "/var/lib/capulus/x".to_string();
    assert!(is_installed_file(&file));
    assert!(validate_private_file(&path, &file).is_ok());
    assert_eq!(
        fault(validate_private_file(&path, &OwnerFacts { mode: 0o100640, ..file })),
        InstallationFault::AccessibleByOthers
    );
    assert_eq!(
        fault(validate_private_file(&path, &OwnerFacts { gid: 1, ..file })),
        InstallationFault::NotInstalledFile
    );
    let error = validate_directory(&path, &file).unwrap_err();
    assert_eq!(
        error.message(),
        "managed parent is not a root-owned real directory: /var/lib/capulus/x"
    );
    assert_eq!(
        directory_chain(&"/var//lib/x/".to_string()).unwrap(),
        ["/var", "/var/lib", "/var/lib/x"]
    );
    assert_eq!(
        fault(directory_chain(&"/var/../x".to_string())),
        InstallationFault::NotNormalized
    );
}

#[test]
fn a_record_is_staged_in_its_own_directories() {
    let unit = ManagedFile::Text {
        destination: "/etc/systemd/system/auc-agent.service".to_string(),
        contents: "[Unit]\n".to_string(),
        mode: 0o644,
    };
    let staged = record("/etc/systemd/system", "auc-agent.service", None, Some("11"));
    let stage = format!("/etc/systemd/system/.capulus-auc-{JOB}");
    let directories = vec![
        StageStep::EnsureDirectory { directory: stage.clone() },
        StageStep::EnsureDirectory { directory: format!("{stage}/new") },
        StageStep::EnsureDirectory { directory: format!("{stage}/old") },
    ];
    assert_eq!(staged.stage(None), directories);
    let steps = staged.stage(Some(&unit));
    assert_eq!(steps[..3], directories[..]);
    assert_eq!(
        steps[3],
        StageStep::WriteText {
            contents: "[Unit]\n".to_string(),
            to: staged.staged.clone(),
            mode: 0o644,
        }
    );
    assert_eq!(steps[4], StageStep::CheckDigest { file: staged.staged.clone() });
}

fn prepared(progress: PrepareProgress, end: StepEnd) -> PrepareProgress {
    match progress.advance(end, 2) {
        PrepareNext::Continue(next) => next,
        other => panic!("{other:?}"),
    }
}

#[test]
fn a_preparation_stages_behind_its_journal_and_cleans_up() {
    let mut progress = PrepareProgress::begin(true);
    let mut steps = vec![progress.step];
    while progress.step != PrepareStep::Stage(1) {
        progress = prepared(progress, StepEnd::Done);
        steps.push(progress.step);
    }
    assert_eq!(
        steps,
        [
            PrepareStep::RecoverInstallation,
            PrepareStep::RecoverUninstallation,
            PrepareStep::CheckArtifacts,
            PrepareStep::ReadEnabledUnits,
            PrepareStep::PlanRecords,
            PrepareStep::WriteJournal,
            PrepareStep::Stage(0),
            PrepareStep::Stage(1),
        ]
    );
    assert_eq!(progress.clone().advance(StepEnd::Done, 2), PrepareNext::Ready);
    let progress = prepared(progress, StepEnd::Failed("full".to_string()));
    assert_eq!(progress.step, PrepareStep::CleanStaging);
    let progress = prepared(progress, StepEnd::Done);
    assert_eq!(progress.step, PrepareStep::RemoveJournal);
    assert_eq!(progress.advance(StepEnd::Done, 2), PrepareNext::Failed("full".to_string()));
}

#[test]
fn journals_are_kept_per_product() {
    let paths = InstallationPaths::new("auc");
    assert_eq!(paths.directory, "/var/lib/capulus/installations/auc");
    assert_eq!(paths.journal, "/var/lib/capulus/installations/auc/active.json");
    assert_eq!(paths.removal_journal, "/var/lib/capulus/installations/auc/uninstall.json");
    assert_eq!(paths.lock_name, "installation-auc");
}

#[test]
fn a_recovery_removes_its_journal_last() {
    let mut step = RecoverStep::begin(Recovery::RollBackAndRestore);
    let mut steps = vec![step];
    while let RecoverNext::Continue(next) = step.advance(StepEnd::Done) {
        step = next;
        steps.push(step);
    }
    assert_eq!(
        steps,
        [
            RecoverStep::UndoFiles,
            RecoverStep::RestoreUnits,
            RecoverStep::CleanStaging,
            RecoverStep::RemoveJournal,
        ]
    );
    assert_eq!(RecoverStep::begin(Recovery::VerifyAndRefresh), RecoverStep::VerifyFiles);
    assert_eq!(
        RecoverStep::UndoFiles.advance(StepEnd::Failed("x".to_string())),
        RecoverNext::Failed("x".to_string())
    );
    let bound = product(false);
    let mut journal = removal_journal(&bound);
    assert!(matches!(journal.recovery(&bound), Ok(Recovery::RollBackAndRestore)));
    journal.committed_records = journal.records.len();
    journal.removal_committed = true;
    assert!(matches!(journal.recovery(&bound), Ok(Recovery::VerifyAndRefresh)));
}

#[test]
fn units_are_restored_even_where_files_are_not() {
    let failed = StepEnd::Failed("lost".to_string());
    let restoring = match UndoStep::UndoFiles.advance(failed.clone()) {
        UndoNext::Continue(step) => step,
        other => panic!("{other:?}"),
    };
    assert_eq!(restoring, UndoStep::RestoreUnits { files: failed.clone() });
    match restoring.advance(failed) {
        UndoNext::Stopped(outcome) => assert_eq!(
            outcome.message(JournalKind::Uninstallation),
            Some(
                "uninstall filesystem rollback failed: lost; systemd restoration failed: lost"
                    .to_string()
            )
        ),
        other => panic!("{other:?}"),
    }
    assert_eq!(
        UndoStep::RestoreUnits { files: StepEnd::Done }.advance(StepEnd::Done),
        UndoNext::Continue(UndoStep::CleanStaging)
    );
}

#[test]
fn a_repair_reports_what_it_changed() {
    let files = product(false).installation_manifest().files;
    let seen = |file: &ManagedFile, mode: u32| {
        RepairEvent::Seen(RepairFacts {
            present: true,
            installed: true,
            mode,
            contents: match file {
                ManagedFile::Text { contents, .. } => Some(contents.as_bytes().to_vec()),
                ManagedFile::Binary { .. } => Some(vec![]),
            },
        })
    };
    let repair = |binary_mode: u32| {
        let mut progress = RepairProgress::begin(false);
        loop {
            let event = match progress.step {
                RepairStep::Inspect(i) => {
                    let mode = if i == 0 { binary_mode } else { files[i].mode() };
                    seen(&files[i], mode)
                }
                _ => RepairEvent::Done,
            };
            match progress.advance(&files, event) {
                RepairNext::Continue(next) => progress = next,
                RepairNext::Repaired(outcome) => return outcome.changed,
                other => panic!("{other:?}"),
            }
        }
    };
    assert!(!repair(0o755));
    assert!(repair(0o700));
    let refused = RepairProgress { step: RepairStep::Inspect(0), changed: false }.advance(
        &files,
        RepairEvent::Seen(RepairFacts {
            present: false,
            installed: false,
            mode: 0,
            contents: None,
        }),
    );
    assert!(matches!(refused, RepairNext::Refused(_)));
}

type Disk = std::collections::BTreeMap<String, String>;

fn seen(disk: &Disk, path: &str) -> FileFacts {
    let there = disk.contains_key(path);
    FileFacts {
        present: there,
        exists: there,
        installed: there,
        digest: disk.get(path).cloned(),
    }
}

fn perform(disk: &mut Disk, steps: &[FileStep]) {
    for step in steps {
        match step {
            FileStep::Rename { from, to } => {
                let moved = disk.remove(from).unwrap();
                disk.insert(to.clone(), moved);
            }
            FileStep::Remove { file } => {
                disk.remove(file).unwrap();
            }
            FileStep::SyncParent { .. } => {}
        }
    }
}

fn record_seen(disk: &Disk, record: &InstallationRecord) -> RecordFacts {
    RecordFacts {
        destination: seen(disk, &record.destination),
        staged_exists: disk.contains_key(&record.staged),
        backup_exists: disk.contains_key(&record.backup),
    }
}

fn transaction() -> (InstallationJournal, Disk) {
    let mut journal = first_install_journal();
    journal.previously_enabled =
        vec!["auc-agent.service".to_string(), "auc-agent.socket".to_string()];
    journal.previous_service_file = true;
    journal.records = vec![
        record("/usr/local/bin", "auc-agent", None, Some("00")),
        record("/etc/systemd/system", "auc-agent.service", Some("11"), Some("22")),
        record("/etc/systemd/system", "auc-agent.socket", Some("33"), None),
    ];
    journal.validate("auc").unwrap();
    let mut disk = Disk::new();
    disk.insert("/other".to_string(), "kept".to_string());
    for record in &journal.records {
        if let Some(digest) = &record.original_digest {
            disk.insert(record.destination.clone(), digest.clone());
        }
        if let Some(digest) = &record.new_digest {
            disk.insert(record.staged.clone(), digest.clone());
        }
    }
    (journal, disk)
}

fn roll_back(journal: &InstallationJournal, disk: &mut Disk) {
    for index in journal.rollback_order().unwrap() {
        let record = &journal.records[index];
        let steps = record.rollback(&record_seen(disk, record)).unwrap();
        perform(disk, &steps);
    }
}

fn originals_are_back(journal: &InstallationJournal, disk: &Disk) -> bool {
    disk.get("/other").map(String::as_str) == Some("kept")
        && journal
            .records
            .iter()
            .all(|record| disk.get(&record.destination) == record.original_digest.as_ref())
}

#[test]
fn a_commit_that_is_cut_off_anywhere_is_undone() {
    let (journal, start) = transaction();
    for count in 0..=journal.records.len() {
        for cut in 0..=3 {
            let mut disk = start.clone();
            for (index, record) in journal.records.iter().enumerate() {
                let steps = record.commit(&seen(&disk, &record.destination)).unwrap();
                if index < count {
                    perform(&mut disk, &steps);
                } else {
                    let end = steps.len().min(cut);
                    perform(&mut disk, &steps[..end]);
                    break;
                }
            }
            roll_back(&journal, &mut disk);
            assert!(originals_are_back(&journal, &disk), "{count} {cut}");
        }
    }
}

#[test]
fn a_whole_commit_installs_what_was_staged() {
    let (journal, mut disk) = transaction();
    for record in &journal.records {
        let steps = record.commit(&seen(&disk, &record.destination)).unwrap();
        perform(&mut disk, &steps);
    }
    for record in &journal.records {
        assert_eq!(disk.get(&record.destination), record.new_digest.as_ref());
        assert!(record.verify_accepted(&seen(&disk, &record.destination)).is_ok());
    }
}

#[test]
fn a_rollback_that_is_cut_off_is_completed() {
    let (journal, mut disk) = transaction();
    for record in &journal.records {
        let steps = record.commit(&seen(&disk, &record.destination)).unwrap();
        perform(&mut disk, &steps);
    }
    let committed = disk;
    for left in 0..=journal.records.len() {
        let mut disk = committed.clone();
        for index in journal.rollback_order().unwrap() {
            if index >= left {
                let record = &journal.records[index];
                let steps = record.rollback(&record_seen(&disk, record)).unwrap();
                perform(&mut disk, &steps);
            }
        }
        roll_back(&journal, &mut disk);
        assert!(originals_are_back(&journal, &disk), "{left}");
    }
    let record = &journal.records[1];
    let mut disk = committed;
    disk.remove(&record.destination);
    assert_eq!(
        fault(record.rollback(&record_seen(&disk, record))),
        InstallationFault::NewDisappearedBeforeRollback
    );
}

#[test]
fn an_interrupted_removal_is_restored() {
    let bound = product(false);
    let journal = removal_journal(&bound);
    let mut start = Disk::new();
    for record in &journal.records {
        start.insert(record.destination.clone(), record.digest.clone());
    }
    for count in 0..=journal.records.len() {
        let mut disk = start.clone();
        for record in &journal.records[..count] {
            let steps = record.remove(&seen(&disk, &record.destination)).unwrap();
            perform(&mut disk, &steps);
        }
        for noted in [count.saturating_sub(1), count] {
            let mut disk = disk.clone();
            for index in journal.restore_order() {
                let record = &journal.records[index];
                let facts = RemovalFacts {
                    destination: seen(&disk, &record.destination),
                    backup: seen(&disk, &record.backup),
                };
                let steps = record.restore(index < noted, &facts).unwrap();
                perform(&mut disk, &steps);
            }
            assert_eq!(disk, start, "{count} {noted}");
        }
    }
}
