use voci::completion::{matching, merge_queries, plan, CompletionPlan};
use voci::domain::Language;

fn words(w: &[&str]) -> Vec<String> {
    w.iter().map(|s| s.to_string()).collect()
}

fn values(p: CompletionPlan) -> Vec<String> {
    match p {
        CompletionPlan::Values(v) => v,
        _ => panic!("expected values"),
    }
}

#[test]
fn matching_keeps_order_and_prefix() {
    assert_eq!(matching(&["shell", "history", "search"], "s"), ["shell", "search"]);
    assert!(matching(&["de", "en"], "x").is_empty());
}

#[test]
fn flags_commands_and_option_values_complete() {
    assert_eq!(values(plan(&words(&["--f"]))), ["--from", "--fresh"]);
    assert_eq!(values(plan(&words(&["--from", ""]))), ["de", "en"]);
    assert_eq!(values(plan(&words(&["--provider", "m"]))), ["microsoft"]);
    assert_eq!(values(plan(&words(&["completions", ""]))), ["bash", "nushell"]);
    assert!(matches!(plan(&words(&["--config", "/tm"])), CompletionPlan::Paths(p) if p == "/tm"));
    assert!(matches!(plan(&words(&["--limit", "1"])), CompletionPlan::Nothing));
    assert!(matches!(plan(&Vec::new()), CompletionPlan::Nothing));
}

#[test]
fn queries_carry_languages_and_history_options() {
    match plan(&words(&["--from=de", "--to", "en", "--database", "/x.db", "ha"])) {
        CompletionPlan::Queries { values, request, config, database } => {
            assert!(values.is_empty() || values.iter().all(|v| v.starts_with("ha")));
            assert_eq!(request.query, "ha");
            assert_eq!(request.from, Some(Language::German));
            assert_eq!(request.to, Some(Language::English));
            assert_eq!(config, None);
            assert_eq!(database.as_deref(), Some("/x.db"));
        }
        _ => panic!("expected queries"),
    }
    match plan(&words(&["s"])) {
        CompletionPlan::Queries { values, .. } => assert_eq!(values, ["shell", "search"]),
        _ => panic!("expected queries"),
    }
}

#[test]
fn invalid_words_and_literal_positionals_offer_nothing() {
    assert!(matches!(plan(&words(&["--from", "fr", "x"])), CompletionPlan::Nothing));
    assert!(matches!(plan(&words(&["--bogus", "x"])), CompletionPlan::Nothing));
    assert!(matches!(plan(&words(&["shell", "x"])), CompletionPlan::Nothing));
    match plan(&words(&["--", "-x"])) {
        CompletionPlan::Queries { values, request, .. } => {
            assert!(values.is_empty());
            assert_eq!(request.query, "-x");
        }
        _ => panic!("expected queries"),
    }
    assert!(matches!(plan(&words(&["--", "a", "b"])), CompletionPlan::Nothing));
    match plan(&words(&["search", "wo"])) {
        CompletionPlan::Queries { values, .. } => assert!(values.is_empty()),
        _ => panic!("expected queries"),
    }
}

#[test]
fn merged_queries_skip_unsafe_text_and_repeats() {
    let merged = merge_queries(
        words(&["search"]),
        words(&["search", "haus", "bad\u{1b}[2J", "haus", "hund"]),
    );
    assert_eq!(merged, ["search", "haus", "hund"]);
}

#[test]
fn paths_complete_names_in_the_prefix_directory() {
    use_path_helpers();
}

fn use_path_helpers() {
    let (base, name) = voci::completion::split_path_prefix("conf/vo", false);
    assert_eq!((base.as_str(), name.as_str()), ("conf/", "vo"));
    let (base, name) = voci::completion::split_path_prefix("vo", false);
    assert_eq!((base.as_str(), name.as_str()), ("", "vo"));
    let (base, name) = voci::completion::split_path_prefix("C:\\x\\y", true);
    assert_eq!((base.as_str(), name.as_str()), ("C:\\x\\", "y"));
    let entries = vec![
        ("voci.toml".to_string(), false),
        ("voci".to_string(), true),
        ("other".to_string(), false),
        ("voci\u{1b}bad".to_string(), false),
    ];
    assert_eq!(
        voci::completion::path_values("conf/", "vo", &entries, '/'),
        ["conf/voci.toml", "conf/voci/"]
    );
}
