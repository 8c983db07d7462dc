use capulus::duration::Duration;
use capulus::managed::manifest::{ManagedFile, INSTALLATION_SCHEMA_MAJOR, MAXIMUM_UNIT_BYTES};
use capulus::managed::product::{
    is_valid_identifier, AgentServiceOptions, ApplicationSocketOptions, ManagedProductOptions,
    ManagedRedeployOptions, ProductValidationError, ServiceHardening, SocketOptions, SystemBinary,
    UserBinary, REDEPLOY_FIXED_BUDGET_SECONDS,
};
use capulus::version::Version;

fn options() -> ManagedProductOptions {
    ManagedProductOptions {
        product: "auc".to_string(),
        package: "auc-tool".to_string(),
        version: Version::new(0, 1, 0),
        system_binaries: vec![
            SystemBinary {
                cargo_name: "auc".to_string(),
                destination: "/usr/local/bin/auc".to_string(),
            },
            SystemBinary {
                cargo_name: "auc-agent".to_string(),
                destination: "/usr/local/bin/auc-agent".to_string(),
            },
        ],
        user_binary: UserBinary { cargo_name: "auc".to_string() },
        agent_binary: "/usr/local/bin/auc-agent".to_string(),
        service: AgentServiceOptions {
            description: "auc virtual authenticator".to_string(),
            executable: "/usr/local/bin/auc-agent".to_string(),
            arguments: vec!["serve".to_string()],
            restart_delay: Duration::from_secs(5),
            network_required: false,
            state_directory_mode: 0o700,
            hardening: ServiceHardening::Strict {
                read_write_paths: vec!["/var/lib/auc".to_string()],
                device_allow: vec!["/dev/uhid".to_string()],
            },
        },
        application_socket: ApplicationSocketOptions::SystemdActivated(SocketOptions {
            path: "/run/auc/agent.sock".to_string(),
            mode: 0o660,
            group: Some("auc".to_string()),
        }),
        management_socket: SocketOptions {
            path: "/run/auc/capulus.sock".to_string(),
            mode: 0o660,
            group: Some("auc".to_string()),
        },
        redeploy: ManagedRedeployOptions {
            build_timeout: Duration::from_secs(20 * 60),
            ..ManagedRedeployOptions::default()
        },
    }
}

fn refused(change: fn(&mut ManagedProductOptions)) -> ProductValidationError {
    let mut changed = options();
    change(&mut changed);
    changed.validate().expect_err("the declaration should be refused")
}

#[test]
fn validated_product_renders_two_named_sockets_and_service_dependencies() {
    let product = options().validate().unwrap();
    let manifest = product.installation_manifest();
    manifest.validate("auc").unwrap();
    let text = manifest
        .files
        .iter()
        .filter_map(|file| match file {
            ManagedFile::Text { contents, .. } => Some(contents.as_str()),
            ManagedFile::Binary { .. } => None,
        })
        .collect::<Vec<_>>()
        .join("\n");

    assert!(text.contains("FileDescriptorName=application"));
    assert!(text.contains("FileDescriptorName=capulus"));
    assert!(text.contains("ListenStream=/run/auc/agent.sock"));
    assert!(!text.contains("ListenStream=\""));
    assert!(text.contains("Requires=auc-agent.socket auc-capulus.socket"));
    assert!(text.contains("ProtectHome=read-only"));
    assert!(text.contains("RuntimeDirectory=auc capulus"));
    assert!(text.contains("RuntimeDirectoryPreserve=yes"));
    assert!(text.contains("StateDirectory=auc\n"));
    assert!(text.contains("ReadWritePaths=\"/var/lib/auc\" \"/var/lib/capulus\""));
    assert!(text.contains("StateDirectoryMode=0700"));
    assert!(text.contains("DeviceAllow=\"/dev/uhid\" rw"));
}

#[test]
fn release_manifest_can_move_an_application_socket_to_systemd() {
    let target = options().validate().unwrap();
    let mut bridge_options = options();
    bridge_options.application_socket = ApplicationSocketOptions::AgentBound(SocketOptions {
        path: "/run/auc/agent.sock".to_string(),
        mode: 0o660,
        group: Some("auc".to_string()),
    });
    let bridge = bridge_options.validate().unwrap();
    let bridge_manifest = bridge.installation_manifest();
    let target_manifest = target.installation_manifest();

    assert!(!bridge_manifest.enable_units.contains(&bridge.application_socket_name()));
    assert!(bridge_manifest
        .files
        .iter()
        .filter_map(|file| match file {
            ManagedFile::Text { contents, .. } => Some(contents),
            ManagedFile::Binary { .. } => None,
        })
        .any(|contents| contents.contains("Requires=auc-capulus.socket\n")));
    bridge.validate_release_manifest(&target_manifest, target.version()).unwrap();
}

#[test]
fn manifest_rejects_cross_product_unit_paths() {
    let product = options().validate().unwrap();
    let mut manifest = product.installation_manifest();
    let ManagedFile::Text { destination, .. } = &mut manifest.files[2] else {
        panic!("expected unit file");
    };
    *destination = "/etc/systemd/system/other.service".to_string();

    assert!(manifest.validate("auc").is_err());
}

#[test]
fn redeploy_limits_and_whole_second_restart_delay_are_validated() {
    let mut invalid = options();
    invalid.redeploy.maximum_tasks = 0;
    assert!(matches!(invalid.validate(), Err(ProductValidationError::MaximumTasks)));

    let mut invalid = options();
    invalid.service.restart_delay = Duration::from_millis(1500);
    assert!(matches!(invalid.validate(), Err(ProductValidationError::RestartDelay)));

    let product = options().validate().unwrap();
    let twice = product.build_timeout().checked_mul(2).unwrap();
    let budget = Duration::from_secs(REDEPLOY_FIXED_BUDGET_SECONDS);
    assert_eq!(product.redeploy_runtime_max(), twice.checked_add(&budget).unwrap());
    assert_eq!(product.redeploy_runtime_max().as_secs(), 40 * 60 + 35 * 60);
}

#[test]
fn options_reject_parent_traversal_and_mismatched_binary_names() {
    let mut unsafe_options = options();
    unsafe_options.system_binaries[0].destination = "/usr/local/bin/../bin/auc".to_string();
    assert!(unsafe_options.validate().is_err());

    let mut mismatch = options();
    mismatch.system_binaries[0].destination = "/usr/local/bin/not-auc".to_string();
    assert!(mismatch.validate().is_err());

    let mut unsafe_state_mode = options();
    unsafe_state_mode.service.state_directory_mode = 0o1700;
    assert!(matches!(
        unsafe_state_mode.validate(),
        Err(ProductValidationError::StateDirectoryMode)
    ));
}

#[test]
fn identifiers_are_short_lower_case_names() {
    assert!(is_valid_identifier("a"));
    assert!(is_valid_identifier("auc-agent_2"));
    assert!(is_valid_identifier(&"a".repeat(64)));
    for refused in ["", "2a", "-a", "Auc", "a.b", "a b", "é"] {
        assert!(!is_valid_identifier(refused), "{refused:?}");
    }
    assert!(!is_valid_identifier(&"a".repeat(65)));
}

#[test]
fn each_fault_of_a_declaration_has_its_error() {
    assert!(matches!(
        refused(|o| o.product = "Auc".to_string()),
        ProductValidationError::Identifier { .. }
    ));
    assert!(matches!(
        refused(|o| o.system_binaries.clear()),
        ProductValidationError::MissingSystemBinary
    ));
    assert!(matches!(
        refused(|o| o.redeploy.build_timeout = Duration::from_millis(59_999)),
        ProductValidationError::BuildTimeout
    ));
    assert!(matches!(
        refused(|o| o.redeploy.maximum_tasks = 15),
        ProductValidationError::MaximumTasks
    ));
    assert!(matches!(
        refused(|o| o.redeploy.maximum_tasks = 32_769),
        ProductValidationError::MaximumTasks
    ));
    assert!(matches!(
        refused(|o| o.system_binaries[0].destination = "/opt/auc".to_string()),
        ProductValidationError::BinaryDestination(_)
    ));
    assert!(matches!(
        refused(|o| o.system_binaries[0].destination = "/usr/local/bin/other".to_string()),
        ProductValidationError::BinaryNameMismatch { .. }
    ));
    assert!(matches!(
        refused(|o| {
            let again = o.system_binaries[0].clone();
            o.system_binaries.push(again);
        }),
        ProductValidationError::DuplicateBinary(_)
    ));
    assert!(matches!(
        refused(|o| o.user_binary.cargo_name = "other".to_string()),
        ProductValidationError::MissingUserBinary(_)
    ));
    assert!(matches!(
        refused(|o| o.service.executable = "/usr/local/bin/other".to_string()),
        ProductValidationError::UnknownAgentExecutable(_)
    ));
    assert!(matches!(
        refused(|o| o.agent_binary = "/usr/local/bin/other".to_string()),
        ProductValidationError::UnknownAgentBinary(_)
    ));
    assert!(matches!(
        refused(|o| o.service.description = "50%".to_string()),
        ProductValidationError::UnsafeServiceText
    ));
    assert!(matches!(
        refused(|o| o.service.restart_delay = Duration::from_secs(3601)),
        ProductValidationError::RestartDelay
    ));
    assert!(matches!(
        refused(|o| o.service.hardening = ServiceHardening::Strict {
            read_write_paths: vec!["relative".to_string()],
            device_allow: vec![],
        }),
        ProductValidationError::UnsafePath(_)
    ));
    assert!(matches!(
        refused(|o| o.service.hardening = ServiceHardening::Strict {
            read_write_paths: vec!["/etc/auc".to_string()],
            device_allow: vec![],
        }),
        ProductValidationError::HardeningPath(_)
    ));
    assert!(matches!(
        refused(|o| o.management_socket.path = "/run/auc/other.sock".to_string()),
        ProductValidationError::SocketPath { .. }
    ));
    assert!(matches!(
        refused(|o| o.management_socket.mode = 0o1777),
        ProductValidationError::SocketMode
    ));
}

#[test]
fn management_sockets_are_private_or_shared_with_a_group() {
    let mut private = options();
    private.management_socket.mode = 0o600;
    private.management_socket.group = None;
    assert!(private.validate().is_ok());
    assert!(matches!(
        refused(|o| o.management_socket.group = None),
        ProductValidationError::SocketMode
    ));
    assert!(matches!(
        refused(|o| o.management_socket.mode = 0o666),
        ProductValidationError::SocketMode
    ));
}

#[test]
fn a_product_tells_what_it_was_declared_with() {
    let product = options().validate().unwrap();
    assert_eq!(product.name(), "auc");
    assert_eq!(product.package(), "auc-tool");
    assert!(product.version().same(&Version::new(0, 1, 0)));
    assert_eq!(product.system_binaries().len(), 2);
    assert_eq!(product.user_binary().cargo_name, "auc");
    assert_eq!(product.build_timeout().as_secs(), 1200);
    assert_eq!(product.maximum_tasks(), 512);
    assert_eq!(product.application_socket_path(), "/run/auc/agent.sock");
    assert!(product.application_socket_is_systemd_activated());
    assert_eq!(product.management_socket_path(), "/run/auc/capulus.sock");
    assert_eq!(product.agent_executable(), "/usr/local/bin/auc-agent");
    assert_eq!(product.service_name(), "auc-agent.service");
    assert_eq!(product.application_socket_name(), "auc-agent.socket");
    assert_eq!(product.management_socket_name(), "auc-capulus.socket");
}

#[test]
fn each_fault_of_a_manifest_has_its_error() {
    let product = options().validate().unwrap();
    let good = product.installation_manifest();
    assert_eq!(good.schema_major, INSTALLATION_SCHEMA_MAJOR);
    let error = |change: &dyn Fn(&mut capulus::managed::manifest::InstallationManifest)| {
        let mut changed = good.clone();
        change(&mut changed);
        product
            .validate_release_manifest(&changed, &Version::new(0, 1, 0))
            .expect_err("the manifest should be refused")
    };
    assert!(matches!(
        error(&|m| m.schema_major = 2),
        ProductValidationError::InstallationSchema(2)
    ));
    assert!(matches!(
        error(&|m| m.product = "other".to_string()),
        ProductValidationError::ManifestProduct { .. }
    ));
    assert!(matches!(
        error(&|m| m.package = "other".to_string()),
        ProductValidationError::ManifestPackage { .. }
    ));
    assert!(matches!(
        error(&|m| m.version = Version::new(0, 2, 0)),
        ProductValidationError::ManifestVersion { .. }
    ));
    assert!(matches!(
        error(&|m| {
            m.files.remove(0);
        }),
        ProductValidationError::ManifestBinarySet
    ));
    assert!(matches!(
        error(&|m| {
            let again = m.files[0].clone();
            m.files.push(again);
        }),
        ProductValidationError::DuplicateDestination(_)
    ));
    assert!(matches!(
        error(&|m| {
            if let ManagedFile::Binary { mode, .. } = &mut m.files[0] {
                *mode = 0o4755;
            }
        }),
        ProductValidationError::FileMode(0o4755)
    ));
    assert!(matches!(
        error(&|m| {
            if let ManagedFile::Text { contents, .. } = &mut m.files[2] {
                *contents = "x".repeat(MAXIMUM_UNIT_BYTES + 1);
            }
        }),
        ProductValidationError::UnitContents(_)
    ));
    assert!(matches!(
        error(&|m| m.enable_units.push("other.service".to_string())),
        ProductValidationError::UnitName(_)
    ));
    assert!(matches!(
        error(&|m| m.enable_units.push("auc-extra.service".to_string())),
        ProductValidationError::MissingUnitFile(_)
    ));
}

#[test]
fn a_product_accepts_its_own_manifest() {
    let product = options().validate().unwrap();
    let manifest = product.installation_manifest();
    assert!(product.validate_release_manifest(&manifest, product.version()).is_ok());
    let destinations: Vec<&str> =
        manifest.files.iter().map(|file| file.destination().as_str()).collect();
    assert_eq!(
        destinations,
        [
            "/usr/local/bin/auc",
            "/usr/local/bin/auc-agent",
            "/etc/systemd/system/auc-agent.service",
            "/etc/systemd/system/auc-capulus.socket",
            "/etc/systemd/system/auc-agent.socket",
        ]
    );
}

#[test]
fn refusals_are_worded() {
    assert_eq!(
        ProductValidationError::Identifier { field: "product", value: "A\"b".to_string() }
            .message(),
        "product must be a lowercase ASCII identifier: \"A\\\"b\""
    );
    assert_eq!(
        ProductValidationError::FileMode(0o4755).message(),
        "managed file mode 4755 is not permitted"
    );
    assert_eq!(
        ProductValidationError::ManifestVersion {
            actual: Version::new(1, 2, 3),
            expected: Version::new(1, 2, 4),
        }
        .message(),
        "installation manifest version is 1.2.3, expected 1.2.4"
    );
}

#[test]
fn unit_files_hold_no_control_characters_but_line_feeds() {
    let mut quoted = options();
    quoted.service.arguments = vec!["a \"b\" \\ c".to_string()];
    quoted.service.executable = "//usr/./local/bin/auc-agent/".to_string();
    let product = quoted.validate().expect("the declaration should be accepted");
    let mut units: usize = 0;
    for file in product.installation_manifest().files {
        if let ManagedFile::Text { contents, .. } = file {
            assert!(contents.chars().all(|c| c == '\n' || !(c.is_control() || c == '%')));
            units += 1;
        }
    }
    assert_eq!(units, 3);
}
