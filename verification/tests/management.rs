use capulus::duration::Duration;
use capulus::managed::account::{
    command_failure, directory_is_missing, environment_path, login_uid_min, owned_cargo_executable,
    owned_executable_regular_file, read_effective_uid, require_root,
    validate_absolute_normal_path, validate_peer_process, AccountError,
    BuildAccount, InstallFacts, ProgramFacts, UnixAccount, UserInstallContext,
};
use capulus::managed::activation::{activated_names, parse_names, ActivationError};
use capulus::managed::agent::{
    answer_redeploy, answer_repair, answer_resolve, answer_status, answer_unknown,
    requested_action, unavailable, AgentAction,
};
use capulus::managed::client::{ManagementClient, ManagementClientOptions};
use capulus::managed::protocol::{
    decode, encode, frame_header, frame_length, read_frame, write_frame, ErrorCode, JobId,
    ManagementError, ManagementRequest, ManagementResponse, PeerCredentials, ProtocolError,
    RepairOutcome, RequestEnvelope, RequestId, ResponseBody, ResponseEnvelope, VersionTarget,
    MAX_FRAME_BYTES, PROTOCOL_MAJOR,
};
use capulus::managed::release::{CargoRegistry, ReleaseValidationError, ResolvedRelease};
use capulus::managed::server::{
    is_supported, refusal, response_to, serve, ManagementHandler, ManagementServerOptions,
};
use capulus::version::Version;

const PEM: &str = "-----BEGIN CERTIFICATE-----\nx\n-----END CERTIFICATE-----\n";

fn private(name: &str, index: &str, token: &str, pem: &str) -> Result<CargoRegistry, ReleaseValidationError> {
    CargoRegistry::private(name.to_string(), index.to_string(), token.to_string(), pem.to_string())
}

#[test]
fn process_environment_parser_is_binary_safe() {
    let environment = b"HOME=/home/example\0CARGO_HOME=/srv/cargo space\0EMPTY=\0".to_vec();
    assert_eq!(
        environment_path(&environment, &b"CARGO_HOME".to_vec()),
        Some(b"/srv/cargo space".to_vec())
    );
    assert_eq!(environment_path(&environment, &b"EMPTY".to_vec()), None);
}

#[test]
fn normalized_path_validation_rejects_traversal() {
    assert!(validate_absolute_normal_path("/home/user/.cargo").is_ok());
    assert!(validate_absolute_normal_path("/home/user/../root").is_err());
    assert!(validate_absolute_normal_path("relative").is_err());
}

fn program(mode: u32) -> ProgramFacts {
    ProgramFacts { found: true, regular: true, symlink: false, uid: 1000, mode, link_target: None }
}

#[test]
fn standard_rustup_cargo_proxy_is_validated_without_following_arbitrary_links() {
    let link = |target: &str| ProgramFacts {
        found: true,
        regular: false,
        symlink: true,
        uid: 1000,
        mode: 0o777,
        link_target: Some(target.to_string()),
    };
    let rustup = program(0o700);
    let cargo_path = "/home/example/.cargo/bin/cargo";
    let rustup_path = "/home/example/.cargo/bin/rustup";
    assert!(owned_cargo_executable(cargo_path, &link("rustup"), rustup_path, &rustup, 1000));
    assert!(!owned_cargo_executable(cargo_path, &link("/bin/sh"), rustup_path, &rustup, 1000));
    assert!(owned_cargo_executable(cargo_path, &program(0o755), rustup_path, &rustup, 1000));
    assert!(!owned_executable_regular_file(&program(0o644), 1000));
    assert!(!owned_executable_regular_file(&program(0o755), 1001));
}

#[test]
fn named_descriptors_are_order_independent() {
    assert_eq!(
        parse_names(2, "capulus:application", &["application", "capulus"]).unwrap(),
        ["capulus", "application"]
    );
}

#[test]
fn duplicate_missing_and_unexpected_names_are_rejected() {
    assert!(matches!(
        parse_names(2, "capulus:capulus", &["application", "capulus"]),
        Err(ActivationError::DuplicateName(_))
    ));
    assert!(matches!(
        parse_names(1, "capulus", &["application", "capulus"]),
        Err(ActivationError::MissingName(_))
    ));
    assert!(matches!(
        parse_names(2, "capulus:other", &["application", "capulus"]),
        Err(ActivationError::MissingName(_))
    ));
}

#[test]
fn each_fault_of_an_activation_has_its_error() {
    let names = |pid: Option<&str>, fds: Option<&str>, listed: Option<&str>| {
        activated_names(
            &pid.map(str::to_string),
            42,
            &fds.map(str::to_string),
            &listed.map(str::to_string),
            &["application"],
        )
    };
    assert_eq!(names(Some("42"), Some("1"), Some("application")).unwrap(), ["application"]);
    assert!(matches!(
        names(None, Some("1"), Some("application")),
        Err(ActivationError::MissingEnvironment("LISTEN_PID"))
    ));
    let invalid = names(Some("x\n"), Some("1"), Some("application")).unwrap_err();
    assert_eq!(
        invalid.message(),
        "invalid systemd socket activation value for LISTEN_PID: \"x\\n\""
    );
    assert!(matches!(
        names(Some("7"), Some("1"), Some("application")),
        Err(ActivationError::WrongProcess { actual: 7, expected: 42 })
    ));
    assert!(matches!(
        names(Some("42"), Some("17"), Some("application")),
        Err(ActivationError::TooManyListeners(17))
    ));
    assert!(matches!(
        names(Some("42"), Some("2"), Some("application")),
        Err(ActivationError::NameCountMismatch)
    ));
    assert!(matches!(
        names(Some("42"), Some("2"), Some("application:other")),
        Err(ActivationError::UnexpectedName(_))
    ));
}

#[test]
fn private_registry_debug_redacts_credentials() {
    let registry =
        private("private", "sparse+https://registry.example/", "very-secret-token", PEM).unwrap();
    let debug = registry.debug_text();
    assert!(!debug.contains("very-secret-token"));
    assert!(!debug.contains("BEGIN CERTIFICATE"));
    assert!(debug.contains("https://registry.example/"));
}

#[test]
fn each_fault_of_a_release_has_its_error() {
    let index = "sparse+https://registry.example/";
    assert_eq!(private("Bad", index, "t", PEM).err(), Some(ReleaseValidationError::RegistryName));
    assert_eq!(
        private("private", "sparse+http://registry.example/", "t", PEM).err(),
        Some(ReleaseValidationError::RegistryIndex)
    );
    assert_eq!(private("private", index, "", PEM).err(), Some(ReleaseValidationError::RegistryToken));
    assert_eq!(private("private", index, "t", "x").err(), Some(ReleaseValidationError::RegistryCa));
    let release = |pre: &str| ResolvedRelease {
        version: Version { pre: pre.to_string(), ..Version::new(1, 0, 0) },
        registry: CargoRegistry::CratesIo,
    };
    assert!(release("").validate().is_ok());
    assert_eq!(release("rc.1").validate(), Err(ReleaseValidationError::StableVersion));
}

#[test]
fn a_private_registry_is_configured_by_files() {
    let registry =
        private("private", "sparse+https://registry.example/", "very-secret-token", PEM).unwrap();
    assert_eq!(registry.cargo_registry_name(), Some("private"));
    let configuration = registry.configuration("/x/registry-ca.pem").unwrap();
    let config = configuration.config.clone();
    assert!(config.contains("sparse+https://registry.example/"));
    assert!(config.contains("/x/registry-ca.pem"));
    assert!(!config.contains("very-secret-token"));
    assert_eq!(
        configuration.credentials.unwrap(),
        "[registries.private]\ntoken = \"very-secret-token\"\n"
    );
    assert_eq!(configuration.ca_pem, Some(PEM));
    let public = CargoRegistry::CratesIo;
    assert_eq!(public.cargo_registry_name(), None);
    let plain = public.configuration("/x").unwrap();
    assert_eq!(plain.config, "[net]\nretry = 2\n");
    assert!(plain.credentials.is_none());
}

#[test]
fn job_ids_are_fixed_lowercase_hex() {
    let id = JobId::parse("deadbeefdeadbeefdeadbeefdeadbeef").unwrap();
    assert_eq!(id.text(), "deadbeefdeadbeefdeadbeefdeadbeef");
    assert!(JobId::parse("DEADBEEFDEADBEEFDEADBEEFDEADBEEF").is_err());
    assert!(JobId::parse("deadbeef").is_err());
}

#[test]
fn oversized_frames_are_rejected_before_decode() {
    assert!(matches!(
        decode(&vec![0; MAX_FRAME_BYTES + 1]),
        Err(ManagementError::FrameTooLarge)
    ));
}

#[test]
fn job_ids_survive_their_text() {
    let random = JobId::random();
    assert!(JobId::parse(&random.text()).unwrap().same(&random));
    let counted: [u8; 16] = [0, 1, 2, 3, 4, 5, 6, 7, 8, 9, 10, 11, 12, 13, 14, 255];
    assert_eq!(JobId::from_bytes(counted).text(), "000102030405060708090a0b0c0d0eff");
    assert_eq!(RequestId::from_bytes(counted).bytes(), counted);
    assert!(!RequestId::random().same(&RequestId::random()));
}

#[test]
fn frames_hold_their_length_and_payload() {
    let payload = vec![1, 2, 3];
    let frame = write_frame(&payload).unwrap();
    assert_eq!(frame, [0, 0, 0, 3, 1, 2, 3]);
    assert_eq!(read_frame(&frame).unwrap(), payload);
    assert!(matches!(read_frame(&vec![0, 0, 0, 3, 1]), Err(ManagementError::EarlyEof)));
    assert_eq!(frame_header(258).unwrap(), [0, 0, 1, 2]);
    assert_eq!(frame_length(&[0, 0, 1, 2]).unwrap(), 258);
    assert!(matches!(frame_length(&[0, 1, 0, 1]), Err(ManagementError::FrameTooLarge)));
    assert!(matches!(frame_header(1 << 32), Err(ManagementError::FrameTooLarge)));
    assert_eq!(encode(Ok(vec![7])).unwrap(), [7]);
    assert!(matches!(encode(Err("x".to_string())), Err(ManagementError::Encode(_))));
    assert!(matches!(
        encode(Ok(vec![0; MAX_FRAME_BYTES + 1])),
        Err(ManagementError::FrameTooLarge)
    ));
}

struct Repairer;

impl ManagementHandler for Repairer {
    fn handle(
        &self,
        peer: PeerCredentials,
        request: ManagementRequest,
    ) -> Result<ManagementResponse, ProtocolError> {
        match request {
            ManagementRequest::Repair => Ok(ManagementResponse::Repair(RepairOutcome {
                changed: peer.uid == 0,
                detail: "done".to_string(),
            })),
            _ => Err(ProtocolError::new(ErrorCode::Unauthorized, "no".to_string())),
        }
    }
}

#[test]
fn answers_reach_the_client_that_asked() {
    let id = RequestId::from_bytes([9; 16]);
    let peer = PeerCredentials { pid: 1, uid: 0, gid: 0 };
    let ask = |request| ManagementClient::envelope(id, request);
    let answer = serve(&Repairer, peer, ask(ManagementRequest::Repair));
    match ManagementClient::accept(&id, answer) {
        Ok(ManagementResponse::Repair(outcome)) => assert!(outcome.changed),
        other => panic!("{other:?}"),
    }
    let refused = serve(&Repairer, peer, ask(ManagementRequest::Info));
    let error = ManagementClient::accept(&id, refused).unwrap_err();
    assert_eq!(error.message(), "management request failed (Unauthorized): no");
    let foreign = RequestId::from_bytes([8; 16]);
    assert!(matches!(
        ManagementClient::accept(&foreign, serve(&Repairer, peer, ask(ManagementRequest::Repair))),
        Err(ManagementError::MismatchedRequestId)
    ));
    let later = ResponseEnvelope {
        protocol_major: PROTOCOL_MAJOR + 1,
        ..response_to(id, answer_unknown())
    };
    assert!(matches!(
        ManagementClient::accept(&id, later),
        Err(ManagementError::UnsupportedProtocol(2))
    ));
}

#[test]
fn other_protocols_are_refused() {
    assert!(is_supported(1, 1));
    assert!(is_supported(0, 7));
    assert!(!is_supported(2, 3));
    assert!(!is_supported(0, 0));
    let id = RequestId::from_bytes([9; 16]);
    match refusal(id).body {
        ResponseBody::Error(error) => assert_eq!(error.code, ErrorCode::UnsupportedProtocol),
        other => panic!("{other:?}"),
    }
    assert!(ManagementServerOptions::default().validate().is_ok());
    let none = ManagementServerOptions {
        connection_limit: 0,
        ..ManagementServerOptions::default()
    };
    assert!(none.validate().is_err());
}

#[test]
fn clients_wait_as_long_as_they_are_told() {
    let options = ManagementClientOptions::new("/run/auc/capulus.sock".to_string());
    let client = ManagementClient::new(ManagementClientOptions {
        timeout: Duration::from_secs(2),
        ..options
    });
    assert_eq!(client.socket_path(), "/run/auc/capulus.sock");
    assert_eq!(client.timeout().as_secs(), 2);
}

#[test]
fn requests_become_actions_and_answers() {
    assert!(matches!(requested_action(ManagementRequest::Info), AgentAction::Describe));
    assert!(matches!(
        requested_action(ManagementRequest::Redeploy {
            target: VersionTarget::Latest,
            reinstall_requesting_user: true,
        }),
        AgentAction::Redeploy { reinstall_requesting_user: true, .. }
    ));
    assert!(matches!(requested_action(ManagementRequest::Unknown), AgentAction::Refuse));
    assert_eq!(unavailable("offline").message, "release resolution failed: offline");
    let resolved = Ok(ResolvedRelease {
        version: Version::new(1, 2, 3),
        registry: CargoRegistry::CratesIo,
    });
    match answer_resolve(&resolved) {
        Ok(ManagementResponse::Resolved { version }) => assert_eq!(version, "1.2.3"),
        other => panic!("{other:?}"),
    }
    assert_eq!(answer_redeploy(Err("busy".to_string())).unwrap_err().code, ErrorCode::Conflict);
    assert_eq!(answer_status(None).unwrap_err().code, ErrorCode::NotFound);
    assert_eq!(answer_repair(None).unwrap_err().code, ErrorCode::Internal);
    assert_eq!(answer_unknown().unwrap_err().code, ErrorCode::BadRequest);
}

fn account() -> UnixAccount {
    UnixAccount {
        name: "example".to_string(),
        uid: 1000,
        gid: 1000,
        home: "/home/example".to_string(),
        shell: "/bin/bash".to_string(),
    }
}

#[test]
fn interactive_accounts_are_told_from_system_accounts() {
    let defs = "# UID_MIN 5\nUID_MIN\t\t 1000\n";
    assert_eq!(login_uid_min(defs).unwrap(), 1000);
    assert!(matches!(login_uid_min("GID_MIN 1000\n"), Err(AccountError::UidMinMissing)));
    assert!(matches!(login_uid_min("UID_MIN\n"), Err(AccountError::UidMinWithoutValue)));
    assert!(matches!(login_uid_min("UID_MIN x\n"), Err(AccountError::UidMinInvalid)));
    assert!(account().validate_interactive(defs, true).is_ok());
    assert!(matches!(
        account().validate_interactive(defs, false),
        Err(AccountError::HomeMissing(_))
    ));
    let daemon = UnixAccount { uid: 999, ..account() };
    assert!(matches!(
        daemon.validate_interactive(defs, true),
        Err(AccountError::SystemAccount(999))
    ));
    let locked = UnixAccount { shell: "/usr/sbin/nologin".to_string(), ..account() };
    assert!(matches!(
        locked.validate_interactive(defs, true),
        Err(AccountError::NotInteractive(_))
    ));
    assert!(matches!(UnixAccount::by_uid(7, None), Err(AccountError::NoAccount(7))));
    assert_eq!(UnixAccount::by_uid(1000, Some(account())).unwrap(), account());
}

#[test]
fn callers_are_checked_against_their_process() {
    let status = "Name:\tx\nUid:\t500\t1000\t500\t500\n";
    assert_eq!(read_effective_uid(status).unwrap(), 1000);
    assert!(matches!(read_effective_uid("Name:\tx\n"), Err(AccountError::CallerUidMissing)));
    let peer = PeerCredentials { pid: 3, uid: 1000, gid: 1000 };
    assert!(validate_peer_process(peer, &account(), status).is_ok());
    assert!(matches!(
        validate_peer_process(peer, &account(), "Uid:\t0\t0\t0\t0\n"),
        Err(AccountError::CallerChanged)
    ));
}

fn facts() -> InstallFacts {
    InstallFacts {
        cargo: program(0o755),
        rustup: program(0o755),
        installed_binary: program(0o755),
    }
}

#[test]
fn a_users_installation_is_captured_and_revalidated() {
    let located = UserInstallContext::locate(&account(), None, None, "auc").unwrap();
    assert_eq!(located.cargo, "/home/example/.cargo/bin/cargo");
    assert_eq!(located.installed_binary, "/home/example/.cargo/bin/auc");
    let outside = UserInstallContext::locate(
        &account(),
        Some("/srv/cargo".to_string()),
        None,
        "auc",
    );
    assert!(matches!(outside, Err(AccountError::OutsideHome(_))));
    let context = located.capture(&facts()).unwrap().unwrap();
    assert!(context.revalidate(account(), "auc", &facts()).is_ok());
    let moved = UnixAccount { gid: 1001, ..account() };
    assert!(matches!(
        context.revalidate(moved, "auc", &facts()),
        Err(AccountError::IdentityChanged)
    ));
    let absent = InstallFacts {
        installed_binary: ProgramFacts { found: false, ..program(0) },
        ..facts()
    };
    assert!(matches!(
        context.revalidate(account(), "auc", &absent),
        Err(AccountError::InstallationChanged)
    ));
    let located = UserInstallContext::locate(&account(), None, None, "auc").unwrap();
    assert!(located.capture(&absent).unwrap().is_none());
    let located = UserInstallContext::locate(&account(), None, None, "auc").unwrap();
    let unowned = InstallFacts { rustup: program(0o644), ..facts() };
    assert!(matches!(located.capture(&unowned), Err(AccountError::NoRustup(_))));
}

#[test]
fn builds_have_an_account_of_their_own() {
    let builder = UnixAccount {
        name: "capulus-build".to_string(),
        uid: 990,
        gid: 990,
        home: "/var/lib/capulus-build".to_string(),
        shell: "/usr/sbin/nologin".to_string(),
    };
    let group = Some("capulus-build".to_string());
    let account = BuildAccount::ensure(Some(builder.copy()), &group).unwrap();
    assert_eq!(account.cargo(), "/var/lib/capulus-build/cargo-tools/bin/cargo");
    assert_eq!(account.rustup(), "/var/lib/capulus-build/cargo-tools/bin/rustup");
    assert!(matches!(
        BuildAccount::ensure(None, &group),
        Err(AccountError::BuildAccountNotCreated)
    ));
    let wrong = UnixAccount { shell: "/bin/bash".to_string(), ..builder };
    assert!(matches!(
        BuildAccount::ensure(Some(wrong), &group),
        Err(AccountError::BuildAccountMismatch)
    ));
    let directory = "/var/lib/capulus-build".to_string();
    assert_eq!(directory_is_missing(&directory, false, false), Ok(true));
    assert_eq!(directory_is_missing(&directory, true, true), Ok(false));
    assert!(matches!(
        directory_is_missing(&directory, true, false),
        Err(AccountError::NotRealDirectory(_))
    ));
    assert_eq!(require_root(false), Err(AccountError::RequiresRoot));
    assert!(require_root(true).is_ok());
    assert_eq!(command_failure("add", "out\n", " err\n"), "failed to add: err");
    assert_eq!(command_failure("add", "out\n", ""), "failed to add: out");
    assert!(BuildAccount::group_arguments().contains(&"capulus-build".to_string()));
    assert!(BuildAccount::user_arguments().contains(&"/var/lib/capulus-build".to_string()));
}

/// The map that an envelope is on the wire.
fn envelope_value(envelope: &RequestEnvelope) -> ciborium::Value {
    let text = |value: &str| ciborium::Value::Text(value.to_string());
    let number = |value: u16| ciborium::Value::Integer(value.into());
    let (version, reinstall) = match &envelope.request {
        ManagementRequest::Redeploy {
            target: VersionTarget::Exact(version),
            reinstall_requesting_user,
        } => (version, *reinstall_requesting_user),
        other => panic!("{other:?}"),
    };
    let id = envelope.request_id.bytes().iter().map(|byte| number((*byte).into())).collect();
    ciborium::Value::Map(vec![
        (text("request_id"), ciborium::Value::Array(id)),
        (text("minimum_protocol_major"), number(envelope.minimum_protocol_major)),
        (text("maximum_protocol_major"), number(envelope.maximum_protocol_major)),
        (
            text("request"),
            ciborium::Value::Map(vec![
                (text("method"), text("redeploy")),
                (
                    text("target"),
                    ciborium::Value::Map(vec![
                        (text("kind"), text("exact")),
                        (text("version"), text(version)),
                    ]),
                ),
                (text("reinstall_requesting_user"), ciborium::Value::Bool(reinstall)),
            ]),
        ),
    ])
}

#[test]
fn an_envelope_has_the_bytes_of_the_first_protocol() {
    let envelope = ManagementClient::envelope(
        RequestId::from_bytes([0xDE; 16]),
        ManagementRequest::Redeploy {
            target: VersionTarget::Exact("1.2.3".to_string()),
            reinstall_requesting_user: true,
        },
    );
    let mut encoded = Vec::new();
    ciborium::into_writer(&envelope_value(&envelope), &mut encoded).unwrap();
    let hex: String = encoded.iter().map(|byte| format!("{byte:02x}")).collect();
    assert_eq!(
        hex,
        "a46a726571756573745f69649018de18de18de18de18de18de18de18de18de18de18de18de18de18de18de18\
         de766d696e696d756d5f70726f746f636f6c5f6d616a6f7201766d6178696d756d5f70726f746f636f6c5f6d\
         616a6f72016772657175657374a3666d6574686f646872656465706c6f7966746172676574a2646b696e6465\
         65786163746776657273696f6e65312e322e3378197265696e7374616c6c5f72657175657374696e675f7573\
         6572f5"
    );
}
