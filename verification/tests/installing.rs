use capulus::duration::Duration;
use capulus::managed::account::UserInstallContext;
use capulus::managed::builder::{
    build_paths, check_built_manifest, check_output_size, check_reported_version,
    check_running_program, compile_arguments, deadline_step, deadline_text, expected_checksum,
    registry_ca_path, registry_files, rustup_target, rustup_url, secret_paths, verify_installer,
    ArtifactFacts, ArtifactOwner, BuildError, DeadlineStep,
};
use capulus::managed::job::{RedeployAuthorization, RedeployRequest};
use capulus::managed::lifecycle::{AgentLifecycleCommand, LifecycleAction, LifecycleError};
use capulus::managed::product::{
    AgentServiceOptions, ApplicationSocketOptions, ManagedProduct, ManagedProductOptions,
    ManagedRedeployOptions, ServiceHardening, SocketOptions, SystemBinary, UserBinary,
};
use capulus::managed::protocol::JobId;
use capulus::managed::release::{CargoRegistry, ResolvedRelease};
use capulus::managed::user_install::{
    check_orphan, ephemeral_root, reinstall_user_cli, user_path, verify_installed_version,
    UserInstallError,
};
use capulus::managed::user_program::{
    check_install_user, current_user_cargo_root, InstallStep, UserProgramError,
    UserProgramUpdateOptions, VersionOutput,
};
use capulus::version::Version;

const JOB: &str = "deadbeefdeadbeefdeadbeefdeadbeef";

fn product() -> ManagedProduct {
    ManagedProductOptions {
        product: "auc".to_string(),
        package: "auc-tool".to_string(),
        version: Version::new(0, 1, 0),
        system_binaries: vec![SystemBinary {
            cargo_name: "auc-agent".to_string(),
            destination: "/usr/local/bin/auc-agent".to_string(),
        }],
        user_binary: UserBinary { cargo_name: "auc-agent".to_string() },
        agent_binary: "/usr/local/bin/auc-agent".to_string(),
        service: AgentServiceOptions {
            description: "auc".to_string(),
            executable: "/usr/local/bin/auc-agent".to_string(),
            arguments: vec![],
            restart_delay: Duration::from_secs(5),
            network_required: false,
            state_directory_mode: 0o700,
            hardening: ServiceHardening::SystemNetworkController,
        },
        application_socket: ApplicationSocketOptions::AgentBound(SocketOptions {
            path: "/run/auc/agent.sock".to_string(),
            mode: 0o600,
            group: None,
        }),
        management_socket: SocketOptions {
            path: "/run/auc/capulus.sock".to_string(),
            mode: 0o600,
            group: None,
        },
        redeploy: ManagedRedeployOptions::default(),
    }
    .validate()
    .unwrap()
}

fn request() -> RedeployRequest {
    RedeployRequest::for_job(
        JobId::parse(JOB).unwrap(),
        &product(),
        ResolvedRelease {
            version: Version::new(1, 2, 3),
            registry: CargoRegistry::private(
                "private".to_string(),
                "sparse+https://registry.example/".to_string(),
                "token".to_string(),
                "-----BEGIN CERTIFICATE-----\nx\n-----END CERTIFICATE-----\n".to_string(),
            )
            .ok()
            .unwrap(),
        },
        RedeployAuthorization { root: true, required_user: None },
    )
}

#[test]
fn rustup_target_is_explicit_for_supported_linux_architectures() {
    for architecture in ["x86_64", "aarch64"] {
        assert!(rustup_target(architecture, "linux").unwrap().ends_with("-unknown-linux-gnu"));
    }
    let error = rustup_target("mips", "linux").unwrap_err();
    assert!(error.message().ends_with("mips-linux"));
    assert!(rustup_url("x86_64-unknown-linux-gnu").starts_with("https://"));
}

#[test]
fn user_path_prefixes_the_callers_cargo_bin() {
    assert_eq!(
        user_path("/home/example/.cargo"),
        "/home/example/.cargo/bin:/usr/local/bin:/usr/bin:/bin"
    );
}

fn update_options() -> UserProgramUpdateOptions {
    UserProgramUpdateOptions {
        package: "aegis-tool".to_string(),
        cargo_binary: "aegis".to_string(),
        version: "1.2.3".to_string(),
        registry: Some("hoek-deus".to_string()),
        cargo_root: "/home/example/.cargo".to_string(),
        ..UserProgramUpdateOptions::default()
    }
}

#[test]
fn update_command_installs_one_exact_binary() {
    let update = update_options().validate().unwrap();
    let command = update.command();
    assert_eq!(command.program, "/home/example/.cargo/bin/cargo");
    assert_eq!(
        command.arguments,
        [
            "install",
            "--locked",
            "--force",
            "--version",
            "1.2.3",
            "aegis-tool",
            "--bin",
            "aegis",
            "--root",
            "/home/example/.cargo",
            "--registry",
            "hoek-deus",
        ]
    );
}

#[test]
fn current_version_is_read_from_the_declared_user_installation() {
    let update = update_options().validate().unwrap();
    assert_eq!(update.program_path(), "/home/example/.cargo/bin/aegis");
    let printed = |text: &str, success: bool| VersionOutput {
        success,
        stdout: text.as_bytes().to_vec(),
        stdout_text: Some(text.to_string()),
        stderr: vec![],
    };
    assert!(update.is_current(&printed("aegis 1.2.3\n", true)));
    assert!(!update.is_current(&printed("aegis 1.2.4\n", true)));
    assert!(!update.is_current(&printed("aegis 11.2.3\n", true)));
    assert!(!update.is_current(&printed("aegis 1.2.3\n", false)));
}

#[test]
fn each_fault_of_an_update_has_its_error() {
    let error = |change: fn(&mut UserProgramUpdateOptions)| {
        let mut options = update_options();
        change(&mut options);
        options.validate().expect_err("the update should be refused")
    };
    assert_eq!(error(|o| o.package = "Aegis".to_string()), UserProgramError::Package);
    assert_eq!(error(|o| o.cargo_binary = String::new()), UserProgramError::Binary);
    assert_eq!(error(|o| o.version = "1.2".to_string()), UserProgramError::Version);
    assert_eq!(error(|o| o.version = "1.2.3-rc.1".to_string()), UserProgramError::Unstable);
    assert_eq!(error(|o| o.registry = Some("A b".to_string())), UserProgramError::Registry);
    assert_eq!(error(|o| o.cargo_root = "cargo".to_string()), UserProgramError::CargoRoot);
    assert_eq!(error(|o| o.timeout = Duration::zero()), UserProgramError::Timeout);
    assert_eq!(check_install_user(true), Err(UserProgramError::RunsAsRoot));
    let home = Some("/home/example".to_string());
    assert_eq!(current_user_cargo_root(false, &home).unwrap(), "/home/example/.cargo");
    assert_eq!(current_user_cargo_root(false, &None), Err(UserProgramError::NoHome));
    assert_eq!(
        current_user_cargo_root(false, &Some("home".to_string())),
        Err(UserProgramError::RelativeHome)
    );
    assert_eq!(current_user_cargo_root(true, &home), Err(UserProgramError::RootHasNoCargoRoot));
}

#[test]
fn an_update_is_stopped_when_cancelled_or_late() {
    let update = update_options().validate().unwrap();
    let short = Duration::from_secs(1);
    let long = Duration::from_secs(1_000_000);
    assert_eq!(update.install_step(Some(true), true, long), InstallStep::Succeeded);
    assert_eq!(update.install_step(Some(false), false, short), InstallStep::Failed);
    assert_eq!(update.install_step(None, true, short), InstallStep::StopCancelled);
    assert_eq!(update.install_step(None, false, long), InstallStep::StopTimedOut);
    assert_eq!(update.install_step(None, false, short), InstallStep::Wait);
    assert!(update.failure_text("exit status: 1").contains("exit status: 1"));
}

#[test]
fn one_exact_version_is_compiled_from_its_registry() {
    let paths = build_paths("/var/lib/capulus-build/jobs", &request());
    assert_eq!(paths.job_root, format!("/var/lib/capulus-build/jobs/auc-{JOB}"));
    let arguments = compile_arguments(&request(), &product(), &paths.install_root).unwrap();
    for expected in ["--locked", "auc-tool", "--bin", "auc-agent", "--registry", "private"] {
        assert!(arguments.iter().any(|argument| argument == expected), "{expected}");
    }
    assert!(arguments.iter().any(|argument| argument.contains("1.2.3")));
    let mut secret = request();
    if let CargoRegistry::Private { token, .. } = &mut secret.release.registry {
        *token = "another".to_string();
    }
    assert_eq!(
        compile_arguments(&secret, &product(), &paths.install_root).unwrap(),
        arguments
    );
    let mut other = request();
    other.package = "other".to_string();
    assert!(matches!(
        compile_arguments(&other, &product(), &paths.install_root),
        Err(BuildError::MismatchedProduct)
    ));
    let wanted = request();
    let ca = registry_ca_path(&paths.cargo_home);
    let configuration = wanted.release.registry.configuration(&ca).ok().unwrap();
    let files = registry_files(&paths.cargo_home, &configuration);
    assert_eq!(files.len(), 3);
    assert!(files.iter().any(|file| file.path == ca));
    for path in secret_paths(&paths.cargo_home) {
        assert!(path.starts_with(&paths.cargo_home));
    }
}

#[test]
fn an_installer_must_have_its_published_digest() {
    let digest = "ba7816bf8f01cfea414140de5dae2223b00361a396177a9cb410ff61f20015ad";
    assert_eq!(expected_checksum(&format!("{digest} *rustup-init\n")).unwrap(), digest);
    assert!(matches!(expected_checksum("nothing"), Err(BuildError::MalformedChecksum)));
    assert!(verify_installer(&b"abc".to_vec(), digest).is_ok());
    assert!(matches!(
        verify_installer(&b"abd".to_vec(), digest),
        Err(BuildError::ChecksumMismatch)
    ));
    assert!(matches!(
        check_output_size(11, 10, "output"),
        Err(BuildError::OutputTooLarge { .. })
    ));
    assert!(check_output_size(10, 10, "output").is_ok());
}

#[test]
fn a_staged_program_is_owned_and_current() {
    let owner = ArtifactOwner { uid: 990, gid: 990 };
    let path = "/x/auc-agent".to_string();
    let good = ArtifactFacts { regular: true, uid: 990, gid: 990, mode: 0o100755 };
    assert!(owner.check(&path, &good).is_ok());
    assert!(matches!(
        owner.check(&path, &ArtifactFacts { uid: 0, ..good }),
        Err(BuildError::ArtifactOwner(_))
    ));
    let readable = ArtifactFacts { mode: 0o100644, ..good };
    assert!(owner.check_source(&path, &readable).is_ok());
    assert!(matches!(
        owner.check_source(&path, &ArtifactFacts { gid: 0, ..good }),
        Err(BuildError::ForeignArtifact(_))
    ));
    let version = Version::new(1, 2, 3);
    assert!(check_reported_version("auc-agent 1.2.3\n", "auc-agent", &version).is_ok());
    assert!(matches!(
        check_reported_version("auc-agent 1.2.4\n", "auc-agent", &version),
        Err(BuildError::WrongVersion { .. })
    ));
    let manifest = product().installation_manifest();
    assert!(check_built_manifest(&product(), &manifest, &Version::new(0, 1, 0)).is_ok());
    assert!(matches!(
        check_built_manifest(&product(), &manifest, &version),
        Err(BuildError::Manifest(_))
    ));
}

#[test]
fn the_first_setup_runs_from_the_installed_program() {
    let installed = "/usr/local/bin/auc-agent";
    assert!(check_running_program("/usr/local/bin/auc-agent", installed, installed).is_ok());
    assert!(check_running_program("/opt/auc/agent", "/opt/auc/agent", installed).is_ok());
    let error = check_running_program("/home/ada/auc-agent", installed, installed).unwrap_err();
    assert_eq!(
        error.message(),
        "initial system setup must run from the installed managed program at \
         /usr/local/bin/auc-agent"
    );
}

#[test]
fn a_command_is_terminated_at_its_deadline() {
    let timeout = Duration::from_secs(60);
    assert_eq!(deadline_step(Some(true), timeout, timeout), DeadlineStep::Succeeded);
    assert_eq!(deadline_step(Some(false), Duration::zero(), timeout), DeadlineStep::Failed);
    assert_eq!(deadline_step(None, timeout, timeout), DeadlineStep::Terminate);
    assert_eq!(deadline_step(None, Duration::from_secs(59), timeout), DeadlineStep::Wait);
    assert!(deadline_text(timeout, "compile").contains("compile"));
}

#[test]
fn a_users_program_is_reinstalled_in_their_own_home() {
    let context = UserInstallContext {
        account_name: "example".to_string(),
        uid: 1000,
        gid: 1000,
        home: "/home/example".to_string(),
        cargo_home: "/home/example/.cargo".to_string(),
        rustup_home: "/home/example/.rustup".to_string(),
        cargo: "/home/example/.cargo/bin/cargo".to_string(),
        rustup: "/home/example/.cargo/bin/rustup".to_string(),
        installed_binary: "/home/example/.cargo/bin/auc-agent".to_string(),
    };
    let root = ephemeral_root(&product(), &JobId::parse(JOB).unwrap());
    assert_eq!(root, format!("/run/capulus/user-installs/auc-{JOB}"));
    let command = reinstall_user_cli(&product(), &request(), &context, &root);
    assert!(command.arguments.contains(&"auc-tool".to_string()));
    assert!(command
        .environment
        .contains(&("PATH".to_string(), user_path("/home/example/.cargo"))));
    let version = Version::new(1, 2, 3);
    assert!(verify_installed_version("auc-agent 1.2.3\n", &version).is_ok());
    assert!(matches!(
        verify_installed_version("auc-agent 1.2\n", &version),
        Err(UserInstallError::WrongVersion(_))
    ));
    assert!(check_orphan(&format!("auc-{JOB}"), true, 1000).is_ok());
    assert!(matches!(
        check_orphan(&format!("auc-{JOB}"), false, 1000),
        Err(UserInstallError::NotUserDirectory(_))
    ));
    assert!(matches!(check_orphan("x", true, 1000), Err(UserInstallError::InvalidName(_))));
}

#[test]
fn only_root_runs_a_worker() {
    let product = product();
    let worker = AgentLifecycleCommand::RedeployWorker { job: JOB.to_string() };
    assert!(matches!(
        worker.run(&product, true),
        Ok(LifecycleAction::RunWorker { .. })
    ));
    assert!(matches!(worker.run(&product, false), Err(LifecycleError::NotRoot)));
    let malformed = AgentLifecycleCommand::RedeployWorker { job: "x".to_string() };
    assert!(matches!(malformed.run(&product, true), Err(LifecycleError::InvalidJobId)));
    assert_eq!(
        AgentLifecycleCommand::InstallationManifest.run(&product, false),
        Ok(LifecycleAction::PrintManifest)
    );
}
