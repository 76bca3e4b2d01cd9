//! The application configuration the session starts under. Reading and
//! writing the configuration file is the host's work; the engine holds
//! the values and their defaults.
use vstd::prelude::*;
use vstd::string::StringExecFns;

verus! {

/// The operator's preferences.
#[derive(Debug)]
pub struct AppConfig {
    pub auto_backup: bool,
    pub show_whitelisted: bool,
    pub default_sort: String,
    pub log_level: String,
    pub auto_export: Option<String>,
}

impl Default for AppConfig {
    /// The out-of-the-box preferences: snapshot on start, exempted
    /// entries hidden, sorted by name, informational logging, no
    /// automatic export.
    fn default() -> (r: Self)
        ensures
            r.auto_backup == true,
            r.show_whitelisted == false,
            r.default_sort@ == "name"@,
            r.log_level@ == "info"@,
            r.auto_export is None,
    {
        AppConfig {
            auto_backup: true,
            show_whitelisted: false,
            default_sort: String::from_str("name"),
            log_level: String::from_str("info"),
            auto_export: None,
        }
    }
}

/// Holds the configuration and the path the host persists it at.
pub struct ConfigManager {
    config: AppConfig,
    config_path: String,
}

impl ConfigManager {
    /// The configuration in force.
    pub closed spec fn spec_config(&self) -> AppConfig {
        self.config
    }

    /// Where the host persists the configuration.
    pub closed spec fn spec_path(&self) -> Seq<char> {
        self.config_path@
    }

    /// A manager over a configuration the host has loaded (or defaulted)
    /// from `config_path`.
    pub fn from_config(config: AppConfig, config_path: String) -> (r: Self)
        ensures
            r.spec_config() == config,
            r.spec_path() == config_path@,
    {
        ConfigManager { config, config_path }
    }

    /// The path the configuration is persisted at.
    pub fn path(&self) -> (r: &str)
        ensures
            r@ == self.spec_path(),
    {
        self.config_path.as_str()
    }

    /// Read access to the configuration.
    pub fn get(&self) -> (r: &AppConfig)
        ensures
            *r == self.spec_config(),
    {
        &self.config
    }

    /// Write access to the configuration; persisting a change is the
    /// host's work.
    pub fn get_mut(&mut self) -> (r: &mut AppConfig)
        ensures
            *r == old(self).spec_config(),
            final(self).spec_config() == *final(r),
            final(self).spec_path() == old(self).spec_path(),
    {
        &mut self.config
    }
}

} // verus!
