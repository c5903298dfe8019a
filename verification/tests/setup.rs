use voci::completion::Shell;
use voci::setup::{
    bash_source, join_path_on, login_file, nushell_source, path_is_absolute, path_text, plan,
    setup, source_block, Locations, Platform, SetupError, SetupInputs,
};

const BEGIN: &str = "# >>> voci completions >>>";
const END: &str = "# <<< voci completions <<<";

#[test]
fn managed_blocks_collapse_duplicates_and_preserve_crlf() {
    let block = format!("{BEGIN}\r\nold source\r\n{END}\r\n");
    let original = format!("before\r\n{block}middle\r\n{block}after\r\n");
    let updated = source_block(&original, "new\nsource").unwrap();
    assert!(updated.starts_with("before\r\nmiddle\r\nafter\r\n"));
    assert_eq!(updated.matches(BEGIN).count(), 1);
    assert_eq!(source_block(&updated, "new\nsource").unwrap(), updated);
}

#[test]
fn source_block_appends_to_user_lines_with_line_feeds() {
    let updated = source_block("alias ll='ls -l'\n", "source x").unwrap();
    assert_eq!(updated, format!("alias ll='ls -l'\n{BEGIN}\nsource x\n{END}\n"));
    assert_eq!(source_block(&updated, "source x").unwrap(), updated);
}

#[test]
fn source_block_ends_an_unterminated_last_line() {
    let updated = source_block("export EDITOR=vim", "b").unwrap();
    assert_eq!(updated, format!("export EDITOR=vim\n{BEGIN}\nb\n{END}\n"));
    assert_eq!(source_block("", "b").unwrap(), format!("{BEGIN}\nb\n{END}\n"));
}

#[test]
fn source_block_replaces_an_old_block_body() {
    let old = format!("a\n{BEGIN}\nold\n{END}\nz\n");
    assert_eq!(source_block(&old, "new").unwrap(), format!("a\nz\n{BEGIN}\nnew\n{END}\n"));
}

#[test]
fn malformed_blocks_are_refused() {
    assert_eq!(
        source_block(&format!("my settings\n{BEGIN}\nmissing end"), "b"),
        Err(SetupError::UnclosedBlock)
    );
    assert_eq!(
        source_block(&format!("{BEGIN}\n{BEGIN}\n{END}\n"), "b"),
        Err(SetupError::NestedMarkers)
    );
    assert_eq!(source_block(&format!("x\n{END}\n"), "b"), Err(SetupError::UnmatchedEnd));
    assert_eq!(
        SetupError::UnclosedBlock.message(),
        "Unclosed voci completion block; repair the managed block before retrying"
    );
}

#[test]
fn markers_are_recognised_with_trailing_carriage_returns() {
    let text = format!("keep\r\n{BEGIN}\r\r\nold\r\n{END}\r\n");
    assert_eq!(
        source_block(&text, "x").unwrap(),
        format!("keep\r\n{BEGIN}\r\nx\r\n{END}\r\n")
    );
}

#[test]
fn path_text_rejects_control_characters_and_uses_forward_slashes_on_windows() {
    assert_eq!(path_text("/home/a b/voci.bash", false).unwrap(), "/home/a b/voci.bash");
    assert_eq!(path_text("C:\\Users\\me\\voci.nu", true).unwrap(), "C:/Users/me/voci.nu");
    assert_eq!(path_text("C:\\Users\\me", false).unwrap(), "C:\\Users\\me");
    assert_eq!(path_text("/tmp/a\nb", false), Err(SetupError::ControlCharacterInPath));
}

#[test]
fn bash_source_quotes_the_script_path() {
    assert_eq!(
        bash_source("/home/o'neil/voci.bash"),
        "if [ -n \"${BASH_VERSION-}\" ]; then\n    case $- in\n        *i*) . '/home/o'\\''neil/voci.bash' ;;\n    esac\nfi"
    );
}

#[test]
fn nushell_source_writes_a_json_string() {
    assert_eq!(nushell_source("/a \"b\"\\c").unwrap(), "source \"/a \\\"b\\\"\\\\c\"");
}

#[test]
fn config_location_honors_xdg_and_rejects_relative_paths() {
    let home = "/root/home".to_string();
    let config = "/root/custom".to_string();
    let resolved =
        Locations::resolve(Platform::Unix, Some(home.clone()), Some(config.clone()), None).unwrap();
    assert_eq!(resolved.config, config);
    assert!(Locations::resolve(Platform::Unix, Some(home), Some("relative".into()), None).is_err());
    assert!(Locations::resolve(Platform::Unix, None, None, None).is_err());
}

#[test]
fn config_location_defaults_per_platform() {
    let unix = Locations::resolve(Platform::Unix, Some("/home/u".into()), Some(String::new()), None)
        .unwrap();
    assert_eq!(unix.config, "/home/u/.config");
    let mac = Locations::resolve(Platform::MacOs, Some("/Users/u".into()), None, None).unwrap();
    assert_eq!(mac.config, "/Users/u/Library/Application Support");
    let windows =
        Locations::resolve(Platform::Windows, Some("C:\\Users\\u".into()), None, None).unwrap();
    assert_eq!(windows.config, "C:\\Users\\u\\AppData/Roaming");
    let appdata = Locations::resolve(
        Platform::Windows,
        Some("C:\\Users\\u".into()),
        None,
        Some("D:\\Roaming".into()),
    )
    .unwrap();
    assert_eq!(appdata.config, "D:\\Roaming");
    assert!(matches!(
        Locations::resolve(Platform::Unix, Some(String::new()), None, None),
        Err(SetupError::MissingHome)
    ));
    assert!(matches!(
        Locations::resolve(Platform::Unix, Some("home".into()), None, None),
        Err(SetupError::RelativeHome)
    ));
}

#[test]
fn absolute_paths_follow_platform_rules() {
    assert!(path_is_absolute(Platform::Unix, "/x"));
    assert!(!path_is_absolute(Platform::Unix, "x/y"));
    assert!(path_is_absolute(Platform::Windows, "C:\\x"));
    assert!(path_is_absolute(Platform::Windows, "\\\\server\\share"));
    assert!(!path_is_absolute(Platform::Windows, "C:x"));
    assert!(!path_is_absolute(Platform::Windows, "\\x"));
    assert_eq!(join_path_on(Platform::Unix, "/a/", "b"), "/a/b");
    assert_eq!(join_path_on(Platform::Unix, "", "b"), "b");
}

#[test]
fn login_file_prefers_the_first_existing_file() {
    assert_eq!(login_file(&vec![false, false, true]), 2);
    assert_eq!(login_file(&vec![false, true, true]), 1);
    assert_eq!(login_file(&vec![false, false, false]), 0);
}

fn inputs() -> SetupInputs {
    SetupInputs {
        bash_script: "bash script".into(),
        nushell_script: "nu script".into(),
        bashrc: "alias ll='ls -l'\n".into(),
        login_exists: vec![false, false, true],
        login: "export EDITOR=vim\n".into(),
        nushell_config: "$env.config.show_banner = false\n".into(),
    }
}

#[test]
fn selected_shell_does_not_create_the_other_shells_files() {
    let locations = Locations { home: "/r/home".into(), config: "/r/configuration with spaces".into() };
    let bash = plan(Platform::Unix, &locations, Some(Shell::Bash), &inputs()).unwrap();
    let paths: Vec<&str> = bash.iter().map(|f| f.path.as_str()).collect();
    assert_eq!(
        paths,
        [
            "/r/configuration with spaces/voci/completions/voci.bash",
            "/r/home/.bashrc",
            "/r/home/.profile"
        ]
    );
    assert!(bash[1].contents.starts_with("alias ll='ls -l'\n"));
    let nu = plan(Platform::Unix, &locations, Some(Shell::Nushell), &inputs()).unwrap();
    let paths: Vec<&str> = nu.iter().map(|f| f.path.as_str()).collect();
    assert_eq!(
        paths,
        [
            "/r/configuration with spaces/voci/completions/voci.nu",
            "/r/configuration with spaces/nushell/config.nu"
        ]
    );
    assert_eq!(
        nu[1].contents,
        format!(
            "$env.config.show_banner = false\n{BEGIN}\nsource \"/r/configuration with spaces/voci/completions/voci.nu\"\n{END}\n"
        )
    );
    let all = plan(Platform::Unix, &locations, None, &inputs()).unwrap();
    assert_eq!(all.len(), 5);
}

#[test]
fn malformed_blocks_fail_before_any_files_are_changed() {
    let locations = Locations { home: "/r/home".into(), config: "/r/config".into() };
    let mut broken = inputs();
    broken.nushell_config = format!("my settings\n{BEGIN}\nmissing end");
    assert!(matches!(
        plan(Platform::Unix, &locations, None, &broken),
        Err(SetupError::UnclosedBlock)
    ));
}

#[test]
fn setup_resolves_locations_before_planning() {
    let files = setup(
        Platform::Unix,
        Some("/home/u".into()),
        None,
        None,
        Some(Shell::Nushell),
        &inputs(),
    )
    .unwrap();
    assert_eq!(files.len(), 2);
    assert_eq!(files[0].path, "/home/u/.config/voci/completions/voci.nu");
    assert_eq!(files[1].path, "/home/u/.config/nushell/config.nu");
    assert!(files[1].contents.contains("source \"/home/u/.config/voci/completions/voci.nu\""));
    assert!(matches!(
        setup(Platform::Unix, Some("home".into()), None, None, None, &inputs()),
        Err(SetupError::RelativeHome)
    ));
    assert!(matches!(
        setup(Platform::Unix, None, None, None, None, &inputs()),
        Err(SetupError::MissingHome)
    ));
}

#[test]
fn nushell_source_escapes_control_characters() {
    assert_eq!(nushell_source("a\nb\r\t\u{1}\u{1f}").unwrap(), "source \"a\\nb\\r\\t\\u0001\\u001f\"");
}

#[test]
fn completion_blocks_set_up_twice_stay_the_same() {
    let bash = bash_source("/home/a b/it's/voci.bash");
    let once = source_block("alias ll='ls -l'\r\n", &bash).unwrap();
    assert_eq!(source_block(&once, &bash).unwrap(), once);
    let nu = nushell_source("C:\\Users\\a\"b\\voci.nu").unwrap();
    let once = source_block("$env.config.show_banner = false\n", &nu).unwrap();
    assert_eq!(source_block(&once, &nu).unwrap(), once);
}

#[test]
fn planning_again_over_the_planned_files_changes_nothing() {
    let locations = Locations { home: "/r/home".into(), config: "/r/configuration with spaces".into() };
    let first = plan(Platform::Unix, &locations, None, &inputs()).unwrap();
    let mut again = inputs();
    again.bashrc = first[1].contents.clone();
    again.login = first[2].contents.clone();
    again.nushell_config = first[4].contents.clone();
    let second = plan(Platform::Unix, &locations, None, &again).unwrap();
    assert_eq!(first.len(), second.len());
    for (a, b) in first.iter().zip(second.iter()) {
        assert_eq!(a.path, b.path);
        assert_eq!(a.contents, b.contents);
    }
    assert!(first[1].contents.starts_with("alias ll='ls -l'\n"));
    assert_eq!(first[1].contents.matches("# >>> voci completions >>>").count(), 1);
}
