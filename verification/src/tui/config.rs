//! The terminal UI's configuration (`config-tui.json`) and the full
//! configuration it reads (`config.json`, with the tray icon): defaults and
//! what loading decides. Reading, parsing and writing files are the
//! application's.
use vstd::prelude::*;
use crate::str_map::StrSet;
use crate::text::{string_of, concat3};
pub use crate::service::config::{
    MprisCommands, MprisConfig, ConfigSource, LoadPlan, default_tray_icon, default_icon_name,
    is_default_mpris,
};

verus! {

/// The terminal UI's own configuration.
#[derive(Debug)]
pub struct TuiConfig {
    pub host: String,
    pub port: u16,
    pub selected_controllers: StrSet,
    pub last_selected_controller: String,
}

impl Default for TuiConfig {
    fn default() -> (r: Self)
        ensures
            r.host@ == "192.168.1.143"@,
            r.port == 6676,
            r.selected_controllers@ == Set::<Seq<char>>::empty(),
            r.last_selected_controller@ == Seq::<char>::empty(),
    {
        TuiConfig {
            host: string_of("192.168.1.143"),
            port: 6676,
            selected_controllers: StrSet::new(),
            last_selected_controller: String::new(),
        }
    }
}

impl TuiConfig {
    /// Loading the terminal UI's configuration, given what reading its file
    /// (shown as `path_text`) gave: a missing file is created with the
    /// defaults; a parsed file is used as it is; a file that does not parse
    /// fails with a message.
    pub fn load(source: ConfigSource<TuiConfig>, path_text: &str) -> (r: LoadPlan<TuiConfig>)
        ensures
            match source {
                ConfigSource::Missing => r matches LoadPlan::CreateDefault(c) && c.host@
                    == "192.168.1.143"@ && c.port == 6676 && c.selected_controllers@ == Set::<
                    Seq<char>,
                >::empty() && c.last_selected_controller@ == Seq::<char>::empty(),
                ConfigSource::ReadError(e) => r matches LoadPlan::Fail(m) && m@ == e@,
                ConfigSource::Parsed(c) => r == LoadPlan::Use(c),
                ConfigSource::Invalid(e) => r matches LoadPlan::Fail(m) && m@
                    == "Failed to parse TUI config file at "@ + path_text@ + ": "@ + e@,
            },
    {
        match source {
            ConfigSource::Missing => LoadPlan::CreateDefault(TuiConfig::default()),
            ConfigSource::ReadError(e) => LoadPlan::Fail(e),
            ConfigSource::Parsed(c) => LoadPlan::Use(c),
            ConfigSource::Invalid(e) => {
                let mut m = concat3("Failed to parse TUI config file at ", path_text, ": ");
                m.append(e.as_str());
                LoadPlan::Fail(m)
            },
        }
    }
}

/// The full configuration, with the tray icon.
#[derive(Debug)]
pub struct Config {
    pub host: String,
    pub port: u16,
    pub selected_controllers: StrSet,
    pub tray_icon: Option<String>,
    pub mpris: MprisConfig,
}

impl Default for Config {
    fn default() -> (r: Self)
        ensures
            r.host@ == "192.168.1.143"@,
            r.port == 6676,
            r.selected_controllers@ == Set::<Seq<char>>::empty(),
            r.tray_icon matches Some(s) && s@ == default_icon_name(),
            is_default_mpris(r.mpris),
    {
        Config {
            host: string_of("192.168.1.143"),
            port: 6676,
            selected_controllers: StrSet::new(),
            tray_icon: default_tray_icon(),
            mpris: MprisConfig::default(),
        }
    }
}

impl Config {
    /// Loading the full configuration, given what reading the file at the
    /// path (shown as `path_text`) gave: a missing file is created with the
    /// defaults; a parsed file is used and written back; a file that does
    /// not parse fails with a message and is left as it is.
    pub fn load(source: ConfigSource<Config>, path_text: &str) -> (r: LoadPlan<Config>)
        ensures
            match source {
                ConfigSource::Missing => r matches LoadPlan::CreateDefault(c) && c.host@
                    == "192.168.1.143"@ && c.port == 6676 && c.selected_controllers@ == Set::<
                    Seq<char>,
                >::empty() && (c.tray_icon matches Some(s) && s@ == default_icon_name())
                    && is_default_mpris(c.mpris),
                ConfigSource::ReadError(e) => r matches LoadPlan::Fail(m) && m@ == e@,
                ConfigSource::Parsed(c) => r == LoadPlan::Rewrite(c),
                ConfigSource::Invalid(e) => r matches LoadPlan::Fail(m) && m@
                    == "Failed to parse config file at "@ + path_text@ + ": "@ + e@,
            },
    {
        match source {
            ConfigSource::Missing => LoadPlan::CreateDefault(Config::default()),
            ConfigSource::ReadError(e) => LoadPlan::Fail(e),
            ConfigSource::Parsed(c) => LoadPlan::Rewrite(c),
            ConfigSource::Invalid(e) => {
                let mut m = concat3("Failed to parse config file at ", path_text, ": ");
                m.append(e.as_str());
                LoadPlan::Fail(m)
            },
        }
    }
}

} // verus!
