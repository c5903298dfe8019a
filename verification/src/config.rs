//! Settings: what the configuration file and the environment select, and the checks they
//! must pass. Reading and parsing the file is left to the caller.
use vstd::prelude::*;
use crate::domain::{Language, language_of_code};
use crate::lookup::LookupError;
use crate::strings::{chars_of, concat, copy_string, trim, trim_seq};

verus! {

/// The dictionary source.
#[derive(Clone, Copy, Debug, PartialEq, Eq, Structural)]
pub enum ProviderName {
    Wikdict,
    Microsoft,
}

impl Default for ProviderName {
    fn default() -> (r: Self)
        ensures
            r == ProviderName::Wikdict,
    {
        ProviderName::Wikdict
    }
}

/// The name recorded in history for a provider.
pub open spec fn provider_label(provider: ProviderName) -> Seq<char> {
    match provider {
        ProviderName::Wikdict => "WikDict"@,
        ProviderName::Microsoft => "Microsoft"@,
    }
}

/// The name recorded in history for a provider.
pub fn provider_name(provider: ProviderName) -> (r: String)
    ensures
        r@ == provider_label(provider),
{
    match provider {
        ProviderName::Wikdict => copy_string("WikDict"),
        ProviderName::Microsoft => copy_string("Microsoft"),
    }
}

/// What a configuration file sets; each setting is optional.
pub struct FileSettings {
    pub provider: ProviderName,
    pub target_language: Option<String>,
    pub region: Option<String>,
    pub data_dir: Option<String>,
    pub database: Option<String>,
    pub keybindings: Option<String>,
}

impl Default for FileSettings {
    fn default() -> (r: Self)
        ensures
            r.provider == ProviderName::Wikdict,
            r.target_language is None,
            r.region is None,
            r.data_dir is None,
            r.database is None,
            r.keybindings is None,
    {
        FileSettings {
            provider: ProviderName::Wikdict,
            target_language: None,
            region: None,
            data_dir: None,
            database: None,
            keybindings: None,
        }
    }
}

/// The settings of a session. Deliberately without `Debug`: it holds the subscription key.
pub struct Config {
    pub provider: ProviderName,
    pub target_language: Language,
    pub key: Option<String>,
    pub region: Option<String>,
    pub wikdict_data_dir: Option<String>,
    pub keybindings: Option<String>,
}

/// The message for a configuration file that does not parse.
pub open spec fn invalid_file_text() -> Seq<char> {
    "Invalid config.toml. Expected provider, target_language, optional [wikdict].data_dir, [microsoft].region, [history].database and [tui].keybindings; keys belong only in VOCI_MICROSOFT_KEY."@
}

/// The failure for a configuration file that does not parse. It never quotes the file, which
/// could hold a misplaced secret.
pub fn invalid_file_error() -> (r: LookupError)
    ensures
        r matches LookupError::Configuration(m) && m@ == invalid_file_text(),
{
    LookupError::Configuration(
        copy_string(
            "Invalid config.toml. Expected provider, target_language, optional [wikdict].data_dir, [microsoft].region, [history].database and [tui].keybindings; keys belong only in VOCI_MICROSOFT_KEY.",
        ),
    )
}

/// The failure for a configuration file that cannot be read.
pub fn unreadable_file_error(path: &str) -> (r: LookupError)
    ensures
        r matches LookupError::Configuration(m) && m@ == "Cannot read "@ + path@
            + ". Check the path and file permissions."@,
{
    let m = concat("Cannot read ", path);
    LookupError::Configuration(concat(m.as_str(), ". Check the path and file permissions."))
}

/// The failure when no user configuration directory is known.
pub fn no_config_directory_error() -> (r: LookupError)
    ensures
        r matches LookupError::Configuration(m) && m@
            == "Cannot find your user configuration directory; use --config PATH."@,
{
    LookupError::Configuration(
        copy_string("Cannot find your user configuration directory; use --config PATH."),
    )
}

/// The failure for history settings that do not parse.
pub fn invalid_history_settings_error() -> (r: LookupError)
    ensures
        r matches LookupError::Configuration(m) && m@
            == "Cannot read history settings from config.toml. Expected [history].database as a path; use --database PATH to override."@,
{
    LookupError::Configuration(
        copy_string(
            "Cannot read history settings from config.toml. Expected [history].database as a path; use --database PATH to override.",
        ),
    )
}

/// The failure for a configuration file that cannot be read while looking for history
/// settings.
pub fn unreadable_history_settings_error(path: &str) -> (r: LookupError)
    ensures
        r matches LookupError::Configuration(m) && m@ == "Cannot read "@ + path@
            + ". Check the path and file permissions, or use --database PATH."@,
{
    let m = concat("Cannot read ", path);
    LookupError::Configuration(
        concat(m.as_str(), ". Check the path and file permissions, or use --database PATH."),
    )
}

/// A history database path must not be empty.
pub fn checked_database_path(path: String) -> (r: Result<String, LookupError>)
    ensures
        path@.len() > 0 ==> (r matches Ok(p) && p@ == path@),
        path@.len() == 0 ==> (r matches Err(LookupError::Configuration(m)) && m@
            == "History database path cannot be empty."@),
{
    if path.as_str().is_empty() {
        return Err(
            LookupError::Configuration(copy_string("History database path cannot be empty.")),
        );
    }
    Ok(path)
}

/// Whether a Microsoft region is a plausible Azure region name: nonempty, ASCII letters,
/// digits and hyphens only.
pub open spec fn valid_region(region: Seq<char>) -> bool {
    region.len() > 0 && forall|i: int|
        0 <= i < region.len() ==> ('a' <= #[trigger] region[i] <= 'z' || 'A' <= region[i] <= 'Z'
            || '0' <= region[i] <= '9' || region[i] == '-')
}

/// Whether a Microsoft region is a plausible Azure region name.
pub fn region_is_valid(region: &str) -> (b: bool)
    ensures
        b == valid_region(region@),
{
    let v = chars_of(region);
    if v.len() == 0 {
        return false;
    }
    let mut i: usize = 0;
    while i < v.len()
        invariant
            i <= v@.len(),
            v@ == region@,
            forall|k: int|
                0 <= k < i ==> ('a' <= #[trigger] v@[k] <= 'z' || 'A' <= v@[k] <= 'Z' || '0'
                    <= v@[k] <= '9' || v@[k] == '-'),
        decreases v.len() - i,
    {
        let c = v[i];
        if !(('a' <= c && c <= 'z') || ('A' <= c && c <= 'Z') || ('0' <= c && c <= '9') || c
            == '-') {
            return false;
        }
        i = i + 1;
    }
    true
}

/// The credentials that a Microsoft lookup needs.
pub struct MicrosoftAccess {
    pub key: String,
    pub region: Option<String>,
}

/// The message when Microsoft is selected without a key.
pub open spec fn missing_key_text() -> Seq<char> {
    "Set VOCI_MICROSOFT_KEY to use Microsoft, or select --provider wikdict for lookup without a key."@
}

/// The message for a region that is not an Azure region name.
pub open spec fn invalid_region_text() -> Seq<char> {
    "Microsoft region must be a nonempty Azure region name such as 'westeurope'."@
}

impl Config {
    /// The settings that a configuration file (none where there is no file), the key from
    /// the environment and a region override give. The target language defaults to English,
    /// a blank key counts as none, the override wins over the file's region, and a database
    /// setting must not be empty.
    pub fn from_sources(
        file: Option<FileSettings>,
        key: Option<String>,
        region_override: Option<String>,
    ) -> (r: Result<Config, LookupError>)
        ensures
            ({
                let target = match file {
                    Some(f) => match f.target_language {
                        Some(t) => t@,
                        None => "en"@,
                    },
                    None => "en"@,
                };
                let database_empty = match file {
                    Some(f) => f.database matches Some(d) && d@.len() == 0,
                    None => false,
                };
                match r {
                    Ok(c) => {
                        &&& language_of_code(target) == Some(c.target_language)
                        &&& !database_empty
                        &&& c.provider == (match file {
                            Some(f) => f.provider,
                            None => ProviderName::Wikdict,
                        })
                        &&& match key {
                            Some(k) => if trim_seq(k@).len() > 0 {
                                c.key matches Some(ck) && ck@ == k@
                            } else {
                                c.key is None
                            },
                            None => c.key is None,
                        }
                        &&& match region_override {
                            Some(o) => c.region matches Some(cr) && cr@ == o@,
                            None => match file {
                                Some(f) => match f.region {
                                    Some(fr) => c.region matches Some(cr) && cr@ == fr@,
                                    None => c.region is None,
                                },
                                None => c.region is None,
                            },
                        }
                        &&& match file {
                            Some(f) => c.wikdict_data_dir == f.data_dir && c.keybindings
                                == f.keybindings,
                            None => c.wikdict_data_dir is None && c.keybindings is None,
                        }
                    },
                    Err(e) => {
                        &&& e is Configuration
                        &&& language_of_code(target) is None ==> (e matches LookupError::Configuration(m)
                            && m@ == "target_language must be 'de' or 'en'."@)
                        &&& language_of_code(target) is Some ==> database_empty && (e matches LookupError::Configuration(
                            m,
                        ) && m@ == "History database path cannot be empty."@)
                    },
                }
            }),
    {
        let file = match file {
            Some(f) => f,
            None => FileSettings::default(),
        };
        let target_text = match &file.target_language {
            Some(t) => t.clone(),
            None => copy_string("en"),
        };
        let target_language = match Language::from_code(target_text.as_str()) {
            Ok(l) => l,
            Err(_) => {
                return Err(
                    LookupError::Configuration(
                        copy_string("target_language must be 'de' or 'en'."),
                    ),
                );
            },
        };
        let key = match key {
            Some(k) => if trim(k.as_str()).as_str().is_empty() {
                None
            } else {
                Some(k)
            },
            None => None,
        };
        let region = match region_override {
            Some(o) => Some(o),
            None => file.region,
        };
        if let Some(path) = file.database {
            if let Err(e) = checked_database_path(path) {
                return Err(e);
            }
        }
        Ok(
            Config {
                provider: file.provider,
                target_language,
                key,
                region,
                wikdict_data_dir: file.data_dir,
                keybindings: file.keybindings,
            },
        )
    }

    /// The credentials for Microsoft lookups: a key must be set, and a region, where one is
    /// set, must be an Azure region name. The messages never quote the key.
    pub fn microsoft(&self) -> (r: Result<MicrosoftAccess, LookupError>)
        ensures
            self.key is None ==> (r matches Err(LookupError::Configuration(m)) && m@
                == missing_key_text()),
            self.key is Some && (self.region matches Some(g) && !valid_region(g@)) ==> (r matches Err(
                LookupError::Configuration(m),
            ) && m@ == invalid_region_text()),
            self.key is Some && (self.region matches Some(g) ==> valid_region(g@)) ==> (
            if trim_seq(self.key->0@).len() > 0 {
                r matches Ok(a) && a.key@ == self.key->0@ && a.region == self.region
            } else {
                r matches Err(LookupError::Configuration(m)) && m@
                    == "Set VOCI_MICROSOFT_KEY to your Azure Translator subscription key."@
            }),
    {
        let key = match &self.key {
            Some(k) => k,
            None => {
                return Err(
                    LookupError::Configuration(
                        copy_string(
                            "Set VOCI_MICROSOFT_KEY to use Microsoft, or select --provider wikdict for lookup without a key.",
                        ),
                    ),
                );
            },
        };
        if let Some(region) = &self.region {
            if !region_is_valid(region.as_str()) {
                return Err(
                    LookupError::Configuration(
                        copy_string(
                            "Microsoft region must be a nonempty Azure region name such as 'westeurope'.",
                        ),
                    ),
                );
            }
        }
        if let Err(e) = crate::microsoft::check_key(key.as_str()) {
            return Err(e);
        }
        let region = match &self.region {
            Some(g) => Some(g.clone()),
            None => None,
        };
        Ok(MicrosoftAccess { key: key.clone(), region })
    }

    /// The directory for WikDict dictionaries: the configured one, else the platform's data
    /// directory where one is known.
    pub fn wikdict_dir(&self, platform_default: Option<String>) -> (r: Result<String, LookupError>)
        ensures
            self.wikdict_data_dir matches Some(d) ==> (r matches Ok(p) && p@ == d@),
            self.wikdict_data_dir is None ==> match platform_default {
                Some(d) => r matches Ok(p) && p@ == d@,
                None => r matches Err(LookupError::Configuration(m)) && m@
                    == "Cannot find a dictionary directory; set [wikdict].data_dir in config.toml."@,
            },
    {
        if let Some(path) = &self.wikdict_data_dir {
            return Ok(path.clone());
        }
        match platform_default {
            Some(d) => Ok(d),
            None => Err(
                LookupError::Configuration(
                    copy_string(
                        "Cannot find a dictionary directory; set [wikdict].data_dir in config.toml.",
                    ),
                ),
            ),
        }
    }
}

} // verus!
