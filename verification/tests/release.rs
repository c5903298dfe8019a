use voci::release::{
    check_receipt, checksum_line, forwarded, host_target, is_target_triple, parse_version,
    receipt_path, Common, Options, Profile, ReleaseError, VersionInfo,
};
use voci::setup::Platform;

fn options(target: &str, profile: Profile) -> Options {
    Options {
        target: target.into(),
        profile,
        target_dir: "/root/target".into(),
        offline: true,
        jobs: None,
    }
}

#[test]
fn version_validation_and_tag_matching() {
    let checked = parse_version("2.3.4-beta.1".into(), "abc".into(), Some("v2.3.4-beta.1")).ok();
    assert_eq!(checked.unwrap().version, "2.3.4-beta.1");
    assert!(matches!(
        parse_version("2.3.4-beta.1".into(), "abc".into(), Some("v0.1.0")),
        Err(ReleaseError::TagMismatch { .. })
    ));
    for version in ["../oops", "1.2.3\nunsafe", "", "01.2.3", "1.2.3-beta.01"] {
        assert!(parse_version(version.into(), "abc".into(), None).is_err());
    }
    assert!(matches!(
        parse_version("1.2.3+build.5".into(), "abc".into(), None),
        Err(ReleaseError::BuildMetadata)
    ));
    assert_eq!(
        ReleaseError::TagMismatch { tag: "v0.1.0".into(), version: "2.3.4".into() }.message(),
        "Release tag v0.1.0 does not match GitVersion v2.3.4"
    );
}

#[test]
fn target_triples_are_checked() {
    assert!(is_target_triple("x86_64-unknown-linux-gnu"));
    assert!(is_target_triple("aarch64-apple-darwin"));
    assert!(!is_target_triple("custom.json"));
    assert!(!is_target_triple("x86_64--linux"));
    assert!(!is_target_triple("-linux"));
    assert!(!is_target_triple("linux-"));
    assert!(!is_target_triple("../targets/x-y"));
    let resolved = Options::resolve(
        Common { target: None, profile: None, target_dir: None, offline: false, jobs: Some(4) },
        Profile::Release,
        Some("x86_64-unknown-linux-gnu".into()),
        "/abs/target".into(),
    )
    .ok()
    .unwrap();
    assert_eq!(resolved.target, "x86_64-unknown-linux-gnu");
    assert_eq!(resolved.profile, Profile::Release);
    assert!(matches!(
        Options::resolve(
            Common { target: Some("my.json".into()), profile: None, target_dir: None, offline: false, jobs: None },
            Profile::Dev,
            None,
            "/t".into()
        ),
        Err(ReleaseError::InvalidTarget)
    ));
    assert!(matches!(
        Options::resolve(
            Common { target: None, profile: None, target_dir: None, offline: false, jobs: None },
            Profile::Dev,
            None,
            "/t".into()
        ),
        Err(ReleaseError::NoHostTarget)
    ));
}

#[test]
fn cargo_arguments_are_locked_and_select_only_the_application() {
    let o = options("x86_64-unknown-linux-gnu", Profile::Release);
    assert_eq!(
        o.cargo_args("build"),
        [
            "build", "--locked", "--profile", "release", "--target", "x86_64-unknown-linux-gnu",
            "--target-dir", "/root/target", "--package", "voci", "--offline"
        ]
    );
    let mut install = options("x86_64-unknown-linux-gnu", Profile::Dev);
    install.offline = false;
    install.jobs = Some(12);
    assert_eq!(
        install.cargo_args("install"),
        [
            "install", "--locked", "--profile", "dev", "--target", "x86_64-unknown-linux-gnu",
            "--target-dir", "/root/target", "--jobs", "12"
        ]
    );
    assert_eq!(Profile::Dev.name(), "dev");
}

#[test]
fn archive_names_depend_on_target_and_profile() {
    let o = options("x86_64-pc-windows-msvc", Profile::Dev);
    assert_eq!(o.archive_stem("1.2.3-beta.4"), "voci-v1.2.3-beta.4-x86_64-pc-windows-msvc-dev");
    assert_eq!(o.archive_extension(), "zip");
    assert_eq!(
        o.binary(Platform::Unix),
        "/root/target/x86_64-pc-windows-msvc/debug/voci.exe"
    );
    let linux = options("x86_64-unknown-linux-gnu", Profile::Release);
    assert_eq!(linux.archive_stem("1.2.3-beta.4"), "voci-v1.2.3-beta.4-x86_64-unknown-linux-gnu");
    assert_eq!(linux.archive_extension(), "tar.gz");
    assert_eq!(
        linux.binary(Platform::Unix),
        "/root/target/x86_64-unknown-linux-gnu/release/voci"
    );
    assert_eq!(
        receipt_path("/root/target/x/release/voci"),
        "/root/target/x/release/voci.build.json"
    );
    assert_eq!(checksum_line("ab12", "v.tar.gz"), "ab12  v.tar.gz\n");
}

#[test]
fn forwarded_arguments_follow_a_separator() {
    let args: Vec<String> = ["--from", "de", "ice cream"].iter().map(|s| s.to_string()).collect();
    assert_eq!(forwarded(&args), ["--", "--from", "de", "ice cream"]);
    assert!(forwarded(&vec![]).is_empty());
}

#[test]
fn host_target_comes_from_rustc_output() {
    let lines: Vec<String> = ["rustc 1.90.0", "binary: rustc", "host: x86_64-unknown-linux-gnu"]
        .iter()
        .map(|s| s.to_string())
        .collect();
    assert_eq!(host_target(&lines).as_deref(), Some("x86_64-unknown-linux-gnu"));
    assert_eq!(host_target(&vec!["release: 1".to_string()]), None);
}

fn info() -> VersionInfo {
    VersionInfo { version: "1.2.3-beta.4".into(), commit: "abc123".into() }
}

#[test]
fn tar_archive_holds_the_versioned_executable_receipt_and_documents() {
    let options = options("x86_64-unknown-linux-gnu", Profile::Release);
    let name = "voci-v1.2.3-beta.4-x86_64-unknown-linux-gnu";
    assert_eq!(options.archive_name("1.2.3-beta.4"), format!("{name}.tar.gz"));
    let entries = options.archive_entries(Platform::Unix, "/src", "1.2.3-beta.4");
    assert_eq!(entries.len(), 4);
    assert_eq!(entries[0].source, "/root/target/x86_64-unknown-linux-gnu/release/voci");
    assert_eq!(entries[0].name, format!("{name}/voci"));
    assert_eq!(entries[0].mode, 0o755);
    assert_eq!(entries[1].source, "/root/target/x86_64-unknown-linux-gnu/release/voci.build.json");
    assert_eq!(entries[1].name, format!("{name}/build-info.json"));
    assert_eq!(entries[2].source, "/src/README.md");
    assert_eq!(entries[3].name, format!("{name}/docs/pitches/lookup/wikdict-attribution.md"));
    assert!(entries[1..].iter().all(|e| e.mode == 0o644));
}

#[test]
fn windows_archive_is_a_zip_and_dev_names_are_distinct() {
    let options = options("x86_64-pc-windows-msvc", Profile::Dev);
    let name = "voci-v1.2.3-beta.4-x86_64-pc-windows-msvc-dev";
    assert_eq!(options.archive_name("1.2.3-beta.4"), format!("{name}.zip"));
    let entries = options.archive_entries(Platform::Windows, "C:\\src", "1.2.3-beta.4");
    assert_eq!(entries[0].name, format!("{name}/voci.exe"));
}

#[test]
fn stale_or_modified_builds_are_refused() {
    let options = options("x86_64-unknown-linux-gnu", Profile::Release);
    let expected = options.receipt(&info(), "d1g3st".into());
    assert_eq!(expected.profile, "release");
    assert!(check_receipt(&options.receipt(&info(), "d1g3st".into()), &expected).is_ok());
    for field in 0..5 {
        let mut stale = options.receipt(&info(), "d1g3st".into());
        match field {
            0 => stale.version = "stale".into(),
            1 => stale.commit = "stale".into(),
            2 => stale.target = "stale".into(),
            3 => stale.profile = "stale".into(),
            _ => stale.sha256 = "tampered".into(),
        }
        assert!(matches!(check_receipt(&stale, &expected), Err(ReleaseError::StaleBuild)));
    }
    assert!(ReleaseError::StaleBuild.message().contains("rebuild before packaging"));
}

#[test]
fn task_arguments_select_the_executable_and_forward_the_rest() {
    let mut o = options("x86_64-unknown-linux-gnu", Profile::Dev);
    o.offline = false;
    let base = |task: &str| -> Vec<String> { o.cargo_args(task) };
    let with = |mut head: Vec<String>, tail: &[&str]| -> Vec<String> {
        head.extend(tail.iter().map(|s| s.to_string()));
        head
    };
    assert_eq!(o.build_args(), with(base("build"), &["--bin", "voci"]));
    let forwarded: Vec<String> = vec!["--from".into(), "de".into(), "ice cream".into()];
    assert_eq!(
        o.run_args(&forwarded),
        with(base("run"), &["--bin", "voci", "--", "--from", "de", "ice cream"])
    );
    assert_eq!(o.run_args(&vec![]), with(base("run"), &["--bin", "voci"]));
    assert_eq!(
        o.test_args(Some("cli".into()), false, Some("help".into()), &vec!["--nocapture".into()]),
        with(base("test"), &["--test", "cli", "help", "--", "--nocapture"])
    );
    assert_eq!(o.test_args(None, true, None, &vec![]), with(base("test"), &["--lib"]));
    assert_eq!(
        o.install_args("/src", Some("/tmp/voci-install".into())),
        with(base("install"), &["--path", "/src", "--bin", "voci", "--force", "--root", "/tmp/voci-install"])
    );
    assert!(!o.install_args("/src", None).contains(&"--package".to_string()));
}
