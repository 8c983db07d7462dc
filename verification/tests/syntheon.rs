use capulus::process::{render_command, CommandLine};
use capulus::syntheon::{
    apply_parallel, cache_dir, cache_root, clang_macos_sysroot_args, clang_system_include_args,
    clang_system_include_dirs, cmake_capabilities, cmake_version, macos_sdk_root, parallel_jobs,
    parse_cmake_version, printed_path, read_cmake_version, run, target_root, vendor_dir,
    wants_native_cpu_flags, CacheFingerprint, CmakeRunner, CmakeVersion, MakeRunner,
    NamedDirectory,
};

#[test]
fn fingerprint_builder_is_stable_and_sanitized() {
    let fingerprint = CacheFingerprint::builder()
        .kv("coeff", "gmp")
        .flag("pic", true)
        .component("v 1")
        .build()
        .expect("fingerprint should not be empty");
    assert_eq!(fingerprint.as_str(), "coeff-gmp__pic-1__v-1");
}

#[test]
fn empty_fingerprint_builder_returns_none() {
    assert!(CacheFingerprint::builder().build().is_none());
}

#[test]
fn cmake_version_parser_handles_patch_suffix() {
    let version = parse_cmake_version("3.31.6-rc1");
    assert_eq!(version, CmakeVersion::new(3, 31, 6));
}

#[test]
fn cmake_versions_are_read_or_not() {
    assert_eq!(read_cmake_version("3.12"), Some(CmakeVersion::new(3, 12, 0)));
    assert_eq!(read_cmake_version("x"), None);
    assert_eq!(
        cmake_version("cmake version 3.31.6\n\nCMake suite\n"),
        Some(CmakeVersion::new(3, 31, 6))
    );
    assert!(CmakeVersion::new(3, 31, 0).at_least(CmakeVersion::new(3, 12, 9)));
    assert!(!CmakeVersion::new(3, 11, 9).at_least(CmakeVersion::new(3, 12, 0)));
}

#[test]
fn cache_directories_are_named_by_component_and_fingerprint() {
    let fingerprint = CacheFingerprint::from_components(&vec!["a b".to_string()]);
    assert_eq!(
        cache_dir("flint").with_fingerprint_opt(fingerprint).path("/cache"),
        "/cache/flint/fp-a-b"
    );
    let root = cache_root("/t", "pkg", "x86_64-unknown-linux-gnu");
    assert!(root.starts_with("/t/"));
    assert!(root.contains("pkg"));
    assert_eq!(vendor_dir("/m"), "/m/vendor");
    assert_eq!(
        target_root(Some("/custom".to_string()), "/m/target/debug/build/x/out", "/m"),
        "/custom"
    );
    assert_eq!(target_root(None, "/m/target/debug/build/x/out", "/m"), "/m/target");
}

#[test]
fn parallelism_comes_from_cargo_or_the_machine() {
    assert_eq!(parallel_jobs(Some("6"), Some(2)), 6);
    assert_eq!(parallel_jobs(Some("x"), Some(2)), 2);
    assert_eq!(parallel_jobs(None, None), 1);
    let mut make = CommandLine::new("make");
    apply_parallel(&mut make, 3);
    assert!(render_command(&make).contains('3'));
    let runner = MakeRunner::with_jobs(2);
    assert_eq!(runner.jobs(), 2);
    assert_eq!(runner.command("/b").directory, "/b");
    assert_eq!(
        runner.command_for_target("/b", "install").command.arguments,
        ["-j2", "install"]
    );
    assert!(run("make failed", &Ok((true, "exit status: 0".to_string()))).is_ok());
    assert_eq!(
        run("make failed", &Ok((false, "exit status: 2".to_string()))),
        Err("make failed: status exit status: 2".to_string())
    );
    assert_eq!(
        run("make failed", &Err("not found".to_string())),
        Err("make failed: not found".to_string())
    );
}

#[test]
fn cmake_is_run_as_its_version_allows() {
    let capabilities = cmake_capabilities(CmakeVersion::new(3, 31, 0));
    assert!(capabilities.build_parallel && capabilities.install_parallel);
    let old = cmake_capabilities(CmakeVersion::new(3, 12, 0));
    assert!(old.build_parallel && !old.install_parallel);
    let runner = CmakeRunner::new("/b", 4, capabilities);
    let build = render_command(&runner.build_target("all", Some("Release")));
    assert!(build.contains("--build /b"));
    assert!(build.contains("--target all"));
    assert!(build.contains("--config Release"));
    assert!(render_command(&runner.install(None)).contains("--install /b"));
}

#[test]
fn compiler_flags_are_read() {
    assert!(wants_native_cpu_flags(Some("-C\u{1f}target-cpu=native")));
    assert!(!wants_native_cpu_flags(Some("-C\u{1f}opt-level=3")));
    assert!(!wants_native_cpu_flags(None));
    assert_eq!(
        clang_system_include_args(&vec!["/usr/include".to_string()]),
        ["-isystem", "/usr/include"]
    );
    assert_eq!(
        clang_macos_sysroot_args(&Some("/sdk".to_string())),
        ["-isysroot", "/sdk"]
    );
    assert!(clang_macos_sysroot_args(&None).is_empty());
    let named = |path: &str, exists| NamedDirectory { path: path.to_string(), exists };
    let linux = Some("linux".to_string());
    let macos = Some("macos".to_string());
    let both = vec![named("/a", true), named("/b", false)];
    assert_eq!(clang_system_include_dirs(&linux, &both), Some(vec!["/a".to_string()]));
    assert_eq!(clang_system_include_dirs(&linux, &vec![named("/b", false)]), None);
    assert_eq!(clang_system_include_dirs(&macos, &both), Some(vec![]));
    let declared = || Some(named("/declared", true));
    let printed = || Some(named("/printed", true));
    assert_eq!(macos_sdk_root(&linux, declared(), printed()), None);
    assert_eq!(macos_sdk_root(&macos, declared(), printed()), Some("/declared".to_string()));
    assert_eq!(
        macos_sdk_root(&macos, Some(named("/declared", false)), printed()),
        Some("/printed".to_string())
    );
    assert_eq!(macos_sdk_root(&macos, None, None), None);
    assert_eq!(printed_path(" /sdk \n"), Some("/sdk".to_string()));
    assert_eq!(printed_path("\n"), None);
}
