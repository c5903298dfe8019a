use voci::config::{
    checked_database_path, invalid_file_error, provider_name, Config, FileSettings, ProviderName,
};
use voci::domain::Language;
use voci::lookup::LookupError;

fn message(error: LookupError) -> String {
    error.message()
}

#[test]
fn defaults_and_precedence() {
    let defaults = Config::from_sources(None, Some("key".into()), None).unwrap();
    assert_eq!(defaults.target_language, Language::English);
    assert_eq!(defaults.region, None);
    let file = FileSettings {
        target_language: Some("de".into()),
        region: Some("westus".into()),
        ..FileSettings::default()
    };
    let config =
        Config::from_sources(Some(file), Some("key".into()), Some("westeurope".into())).unwrap();
    assert_eq!(config.target_language, Language::German);
    assert_eq!(config.region.as_deref(), Some("westeurope"));
}

#[test]
fn invalid_configuration_does_not_echo_secrets() {
    let french = FileSettings { target_language: Some("fr".into()), ..FileSettings::default() };
    let error = Config::from_sources(Some(french), Some("secret-value".into()), None)
        .err()
        .unwrap();
    assert!(!message(error).contains("secret-value"));
    assert!(!message(invalid_file_error()).contains("secret-value"));
    let config = Config::from_sources(None, None, None).unwrap();
    assert_eq!(config.provider, ProviderName::Wikdict);
    assert!(config.key.is_none());
    assert!(config.microsoft().is_err());
    assert!(Config::from_sources(None, Some("".into()), None).unwrap().microsoft().is_err());
}

#[test]
fn microsoft_requires_nonempty_credentials_without_echoing_them() {
    for key in [None, Some(String::new())] {
        let config = Config::from_sources(None, key, None).unwrap();
        assert!(config.microsoft().is_err());
    }
    let config =
        Config::from_sources(None, Some("secret".into()), Some("bad region".into())).unwrap();
    let error = config.microsoft().err().unwrap();
    assert!(!message(error).contains("secret"));
    let ok = Config::from_sources(None, Some("secret".into()), Some("west-europe2".into()))
        .unwrap()
        .microsoft()
        .ok()
        .unwrap();
    assert_eq!(ok.key, "secret");
    assert_eq!(ok.region.as_deref(), Some("west-europe2"));
}

#[test]
fn blank_keys_and_empty_database_paths_are_refused() {
    let config = Config::from_sources(None, Some("  ".into()), None).unwrap();
    assert!(config.key.is_none());
    let empty = FileSettings { database: Some(String::new()), ..FileSettings::default() };
    assert!(matches!(
        Config::from_sources(Some(empty), None, None),
        Err(LookupError::Configuration(m)) if m == "History database path cannot be empty."
    ));
    assert!(checked_database_path(String::new()).is_err());
    assert_eq!(checked_database_path("h.db".into()).ok().as_deref(), Some("h.db"));
}

#[test]
fn file_settings_carry_over() {
    let file = FileSettings {
        provider: ProviderName::Microsoft,
        data_dir: Some("/d".into()),
        keybindings: Some("k.toml".into()),
        ..FileSettings::default()
    };
    let config = Config::from_sources(Some(file), None, None).unwrap();
    assert_eq!(config.provider, ProviderName::Microsoft);
    assert_eq!(config.wikdict_dir(None).ok().as_deref(), Some("/d"));
    assert_eq!(config.keybindings.as_deref(), Some("k.toml"));
    let plain = Config::from_sources(None, None, None).unwrap();
    assert_eq!(plain.wikdict_dir(Some("/x".into())).ok().as_deref(), Some("/x"));
    assert!(plain.wikdict_dir(None).is_err());
    assert_eq!(provider_name(ProviderName::Wikdict), "WikDict");
    assert_eq!(provider_name(ProviderName::Microsoft), "Microsoft");
}
