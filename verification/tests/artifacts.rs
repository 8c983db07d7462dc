use capulus::artifact_store::{
    after_directory_attempt, artifact_id_from_tracking_tag, artifact_id_of,
    artifact_summary_from_labels,
    containers_root, default_archive_file_name, ensure_containers_root, image_labels,
    random_artifact_id, remote_tag, resolve_artifact, sanitize_segment, save_metadata,
    sort_artifacts, tracking_tag, ArtifactMetadata, ArtifactSummary, DirectoryAttempt,
    DirectoryNext, ResolveError, StoredArtifact, ARTIFACT_ID_ATTEMPTS, CURRENT_SCHEMA_VERSION,
};
use capulus::containers::{
    ContainerError, ContainerMount, ContainerRuntime, ContainerRuntimeKind, DetectionMode,
};
use capulus::gcp::{
    access_token, active_account, choose_credentials, command, detect_credentials_path,
    detect_project, epoch_ms_from_nanos, expires_at_epoch_ms, has_active_account,
    load_cached_access_token, AccessTokenReply, CredentialSource, GcpError,
};
use capulus::process::{render_command, CommandOutput};

fn metadata() -> ArtifactMetadata {
    ArtifactMetadata {
        schema_version: CURRENT_SCHEMA_VERSION,
        artifact_id: "abc123xy".to_owned(),
        remote_tag: "demo-abc123xy".to_owned(),
        build_fingerprint: "fingerprint".to_owned(),
        kind: "container".to_owned(),
        created_at_epoch_ms: 1234,
        crate_name: "demo".to_owned(),
        crate_version: "1.2.3".to_owned(),
        binary_name: "demo".to_owned(),
        source_path: "/src".to_owned(),
        manifest_path: "/src/Cargo.toml".to_owned(),
        cargo_profile: "release".to_owned(),
        cargo_features: vec!["gpu".to_owned(), "cloud".to_owned()],
        base_image: "debian:bookworm".to_owned(),
        runtime: "docker".to_owned(),
        local_tag: "local".to_owned(),
        archive_file: "image.tar".to_owned(),
        uploaded_ref: None,
        uploaded_at_epoch_ms: None,
    }
}

fn value<'a>(labels: &'a Vec<(String, String)>, key: &str) -> Option<&'a String> {
    labels.iter().find(|(k, _)| k == key).map(|(_, v)| v)
}

#[test]
fn containers_root_uses_sanitized_tool_namespace() {
    assert_eq!("state/fancy-tool/containers", containers_root("state", "Fancy Tool!"));
}

#[test]
fn image_labels_are_scoped_to_the_tool_name() {
    let labels = image_labels("Fancy Tool!", &metadata());

    assert_eq!(
        Some(&CURRENT_SCHEMA_VERSION.to_string()),
        value(&labels, "io.khoek.fancy-tool.schema-version")
    );
    assert!(value(&labels, "io.khoek.fancy-tool.artifact-id").is_some());
    assert!(value(&labels, "io.khoek.tool.artifact-id").is_none());
}

#[test]
fn artifact_summary_reads_only_matching_tool_labels() {
    let labels = image_labels("Fancy Tool!", &metadata());

    let summary = artifact_summary_from_labels("Fancy Tool!", &labels)
        .expect("matching tool labels should produce a summary");
    assert_eq!("abc123xy", summary.artifact_id);
    assert_eq!(vec!["gpu".to_owned(), "cloud".to_owned()], summary.cargo_features);
    assert!(artifact_summary_from_labels("Other Tool", &labels).is_none());
    assert_eq!(summary, ArtifactSummary::of(&metadata()));
}

#[test]
fn labels_of_another_schema_are_no_summary() {
    let mut labels = image_labels("tool", &metadata());
    for (key, value) in &mut labels {
        if key.ends_with("schema-version") {
            *value = "1".to_owned();
        }
    }
    assert!(artifact_summary_from_labels("tool", &labels).is_none());
}

#[test]
fn artifact_ids_are_drawn_from_a_small_alphabet() {
    assert_eq!(artifact_id_of(&vec![0, 25, 26, 35]), "az09");
    let id = random_artifact_id();
    assert_eq!(id.len(), 8);
    assert!(id.bytes().all(|byte| byte.is_ascii_lowercase() || byte.is_ascii_digit()));
    let others: Vec<String> = (0..8).map(|_| random_artifact_id()).collect();
    assert!(others.iter().any(|other| *other != id));
    assert_eq!(artifact_id_from_tracking_tag(&tracking_tag("abc123xy")), Some("abc123xy"));
    assert_eq!(artifact_id_from_tracking_tag("latest"), None);
}

#[test]
fn directories_are_tried_until_one_is_new() {
    assert_eq!(after_directory_attempt(DirectoryAttempt::Created, 1), DirectoryNext::Use);
    assert_eq!(after_directory_attempt(DirectoryAttempt::Exists, 1), DirectoryNext::TryAnother);
    assert_eq!(after_directory_attempt(DirectoryAttempt::Failed, 1), DirectoryNext::Fail);
    assert_eq!(
        after_directory_attempt(DirectoryAttempt::Exists, ARTIFACT_ID_ATTEMPTS),
        DirectoryNext::GiveUp
    );
    assert_eq!(save_metadata("/x/abc"), "/x/abc/metadata.toml");
    assert_eq!(default_archive_file_name(), "image.tar");
    assert_eq!(ensure_containers_root("state", "tool").0, "state/tool/containers");
}

#[test]
fn segments_are_clean_and_stay_as_they_are() {
    for (value, expected) in [
        ("", ""),
        ("--", ""),
        ("My_Crate", "my-crate"),
        ("__A..b//9--", "a-b-9"),
        ("a\u{e9}b", "a-b"),
        ("ab", "ab"),
    ] {
        assert_eq!(sanitize_segment(value), expected);
        assert_eq!(sanitize_segment(expected), expected);
    }
}

#[test]
fn remote_tags_are_sanitized() {
    assert_eq!(sanitize_segment("My Crate"), "my-crate");
    assert_eq!(remote_tag("My Crate", "abc123xy"), "my-crate-abc123xy");
}

fn stored(id: &str, crate_name: &str, created: u128) -> StoredArtifact {
    StoredArtifact {
        dir: format!("state/tool/containers/{id}"),
        metadata: ArtifactMetadata {
            artifact_id: id.to_owned(),
            crate_name: crate_name.to_owned(),
            created_at_epoch_ms: created,
            ..metadata()
        },
    }
}

#[test]
fn artifacts_are_listed_newest_first_and_selected_by_id_or_crate() {
    let list = sort_artifacts(vec![
        stored("aaa11111", "demo", 1),
        stored("aab22222", "other", 3),
        stored("bbb33333", "demo", 2),
    ]);
    let ids: Vec<&str> = list.iter().map(|a| a.metadata.artifact_id.as_str()).collect();
    assert_eq!(ids, ["aab22222", "bbb33333", "aaa11111"]);
    assert_eq!(list[0].archive_path(), "state/tool/containers/aab22222/image.tar");
    let pick = |selector: Option<&str>| {
        resolve_artifact(&list, "state", "tool", selector).map(|a| a.metadata.artifact_id.clone())
    };
    assert_eq!(pick(None).unwrap(), "aab22222");
    assert_eq!(pick(Some("aaa11111")).unwrap(), "aaa11111");
    assert_eq!(pick(Some("bb")).unwrap(), "bbb33333");
    assert_eq!(pick(Some("other")).unwrap(), "aab22222");
    assert!(matches!(pick(Some("aa")), Err(ResolveError::AmbiguousArtifact { .. })));
    assert!(matches!(pick(Some("demo")), Err(ResolveError::AmbiguousCrate { .. })));
    assert!(matches!(pick(Some("zz")), Err(ResolveError::NoMatch { .. })));
    assert!(matches!(
        resolve_artifact(&vec![], "state", "tool", None),
        Err(ResolveError::NoArtifacts { .. })
    ));
}

#[test]
fn a_runtime_is_the_first_usable_candidate() {
    let sudo = ContainerRuntime::candidates(DetectionMode::UserOrSudo);
    assert_eq!(ContainerRuntime::candidates(DetectionMode::UserOnly).len(), 2);
    assert_eq!(sudo.len(), 4);
    let usable = vec![false, true, true, true];
    let found = ContainerRuntime::detect_with_mode(DetectionMode::UserOrSudo, &usable).unwrap();
    assert_eq!(found.name(), sudo[1].name());
    assert_eq!(found.uses_sudo(), sudo[1].uses_sudo());
    assert!(matches!(
        ContainerRuntime::detect_with_mode(DetectionMode::UserOnly, &vec![false, false]),
        Err(ContainerError::NoRuntime)
    ));
}

#[test]
fn container_commands_are_spelled_for_their_runtime() {
    let docker = ContainerRuntime::new(ContainerRuntimeKind::Docker, true);
    assert_eq!(docker.shell_prefix(), "sudo -n docker");
    let tag = docker.tag("a", "b");
    assert_eq!(render_command(&tag.command), "sudo -n docker tag a b");
    let podman = ContainerRuntime::new(ContainerRuntimeKind::Podman, false);
    let mounts = vec![ContainerMount { source: "/src", target: "/dst", read_only: true }];
    let run = podman.run(
        "image",
        Some("/dst"),
        &vec![("A".to_string(), "b".to_string())],
        &mounts,
        &vec!["true".to_string()],
        1000,
        1000,
    );
    let rendered = render_command(&run.command);
    assert!(rendered.starts_with("podman run "));
    assert!(rendered.ends_with(" image true"));
    assert!(rendered.contains("A=b"));
    let (login, password) = podman.login_password_stdin("registry", "user", "secret");
    assert_eq!(password, "secret");
    assert!(!render_command(&login.command).contains("secret"));
    assert!(podman.build_check_command().is_none());
    assert!(podman.ensure_build_available(&None).is_ok());
    assert!(matches!(docker.ensure_build_available(&None), Err(ContainerError::BuildxCheck)));
    let failed = |stderr: &str| {
        Some(CommandOutput {
            success: false,
            code: Some(1),
            stdout: String::new(),
            stderr: stderr.to_string(),
        })
    };
    assert_eq!(docker.ensure_build_available(&failed(" ")), Err(ContainerError::NoBuildx));
    assert_eq!(
        docker.ensure_build_available(&failed("broken\n")),
        Err(ContainerError::BuildxReported("broken".to_string()))
    );
}

#[test]
fn nothing_is_built_after_a_failed_check_and_exit_statuses_decide() {
    let ended = |success: bool, stderr: &str| CommandOutput {
        success,
        code: Some(if success { 0 } else { 3 }),
        stdout: String::new(),
        stderr: stderr.to_string(),
    };
    let docker = ContainerRuntime::new(ContainerRuntimeKind::Docker, false);
    let podman = ContainerRuntime::new(ContainerRuntimeKind::Podman, false);
    assert_eq!(docker.build(&None, "t", "ctx", "File"), Err(ContainerError::BuildxCheck));
    assert_eq!(
        docker.build(&Some(ended(false, "no plugin")), "t", "ctx", "File"),
        Err(ContainerError::BuildxReported("no plugin".to_string()))
    );
    let build = docker.build(&Some(ended(true, "")), "t", "ctx", "File").unwrap();
    assert_eq!(render_command(&build.command), "docker buildx build --load -t t -f File ctx");
    let plain = podman.build(&None, "t", "ctx", "File").unwrap();
    assert_eq!(render_command(&plain.command), "podman build -t t -f File ctx");
    assert!(build.is_shown(true) && !build.is_shown(false));
    assert!(build.answer(ended(true, "noise"), true).is_ok());
    assert_eq!(
        plain.answer(ended(false, "broken"), true).unwrap_err().message(),
        "Failed to build container image with Podman while running \
         `podman build -t t -f File ctx`: exit status 3"
    );
    assert_eq!(
        plain.answer(ended(false, "broken"), false).unwrap_err().message(),
        "Failed to build container image with Podman while running \
         `podman build -t t -f File ctx`: broken"
    );
    let tag = podman.tag("a", "b");
    assert!(!tag.is_shown(true));
    assert_eq!(
        tag.answer(ended(false, "unknown"), true).unwrap_err().message(),
        "Failed to tag container image while running `podman tag a b`: unknown"
    );
    assert_eq!(render_command(&podman.image_inspection("t")), "podman image inspect t");
    assert!(podman.image_exists(&ended(true, "")));
    assert!(!podman.image_exists(&ended(false, "no such image")));
}

#[test]
fn invalid_expiry_uses_default_lifetime() {
    let now = expires_at_epoch_ms(Some("not-a-date"), 1_000);
    assert!(now > 0);
    assert_eq!(now, 1_000 + 3_600_000);
}

#[test]
fn a_stated_expiry_is_read() {
    assert_eq!(expires_at_epoch_ms(Some("1970-01-01T00:00:02.5Z"), 7), 2_500);
    assert_eq!(expires_at_epoch_ms(None, 7), 3_600_007);
    assert_eq!(epoch_ms_from_nanos(2_999_999), 2);
    assert_eq!(epoch_ms_from_nanos(-1), u128::MAX / 1_000_000);
}

#[test]
fn a_cached_token_is_used_until_shortly_before_it_expires() {
    let source = CredentialSource::ActiveAccount("a@example.com".to_string());
    let reply = AccessTokenReply { token: " tok \n".to_string(), token_expiry: None };
    let (token, cached) = access_token(&reply, &source, 1_000).unwrap();
    assert_eq!(token, "tok");
    let other = CredentialSource::ActiveAccount("b@example.com".to_string());
    let kept = || Some(cached.clone());
    assert_eq!(load_cached_access_token(kept(), &source, 1_000), Some("tok".to_string()));
    assert_eq!(load_cached_access_token(kept(), &other, 1_000), None);
    assert_eq!(load_cached_access_token(kept(), &source, 3_600_000), None);
    let empty = AccessTokenReply { token: " ".to_string(), token_expiry: None };
    assert!(matches!(access_token(&empty, &source, 0), Err(GcpError::EmptyToken)));
}

#[test]
fn credentials_are_chosen_in_order() {
    let account = Some("a@example.com".to_string());
    assert_eq!(
        CredentialSource::choose_source(None, account.clone(), Some("/adc".to_string())).unwrap(),
        CredentialSource::ActiveAccount("a@example.com".to_string())
    );
    assert_eq!(
        CredentialSource::choose_source(None, None, Some("/adc".to_string())).unwrap(),
        CredentialSource::ApplicationDefault("/adc".to_string())
    );
    assert!(matches!(
        CredentialSource::choose_source(None, None, None),
        Err(GcpError::NoCredentials)
    ));
    assert_eq!(active_account(true, " a@example.com \n"), account);
    assert_eq!(active_account(true, "\n \n"), None);
    assert!(!has_active_account(false, "a@example.com"));
}

#[test]
fn projects_and_credentials_are_looked_for() {
    let none = vec![None, None, None, None];
    assert_eq!(detect_project(Some(" p "), true, &none, &None), Some("p".to_string()));
    assert_eq!(
        detect_project(Some("p"), false, &none, &Some("q\n".to_string())),
        Some("q".to_string())
    );
    assert_eq!(detect_project(None, true, &none, &Some("(unset)".to_string())), None);
    let paths = detect_credentials_path(
        Some("/cached"),
        true,
        &Some("/variable".to_string()),
        &Some("/home/example".to_string()),
    );
    assert_eq!(
        paths,
        [
            "/cached",
            "/variable",
            "/home/example/.config/gcloud/application_default_credentials.json",
        ]
    );
    assert_eq!(
        choose_credentials(&paths, &vec![false, true, true]),
        Some("/variable".to_string())
    );
    assert_eq!(choose_credentials(&paths, &vec![false, false, false]), None);
    assert_eq!(command(None).program, "gcloud");
}
