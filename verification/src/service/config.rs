//! The service's configuration (`~/.config/broadlink-remote/config.json`):
//! its defaults and what loading it decides. Reading, parsing and writing the
//! file are the application's.
use vstd::prelude::*;
use crate::str_map::StrSet;
use crate::text::{string_of, concat3};

verus! {

/// The device commands that the media keys send.
#[derive(Debug)]
pub struct MprisCommands {
    pub play_pause: String,
    pub previous: String,
    pub next: String,
}

impl Default for MprisCommands {
    fn default() -> (r: Self)
        ensures
            r.play_pause@ == Seq::<char>::empty(),
            r.previous@ == Seq::<char>::empty(),
            r.next@ == Seq::<char>::empty(),
    {
        MprisCommands { play_pause: String::new(), previous: String::new(), next: String::new() }
    }
}

impl Clone for MprisCommands {
    fn clone(&self) -> (r: Self)
        ensures
            r == *self,
    {
        MprisCommands {
            play_pause: self.play_pause.clone(),
            previous: self.previous.clone(),
            next: self.next.clone(),
        }
    }
}

/// The virtual media player: whether it is on and which device it drives.
#[derive(Debug)]
pub struct MprisConfig {
    pub enable: bool,
    pub controller: String,
    pub device: String,
    pub commands: MprisCommands,
}

/// The player's settings when none are configured: off, with no
/// controller, device or commands.
pub open spec fn is_default_mpris(m: MprisConfig) -> bool {
    &&& !m.enable
    &&& m.controller@ == Seq::<char>::empty()
    &&& m.device@ == Seq::<char>::empty()
    &&& m.commands.play_pause@ == Seq::<char>::empty()
    &&& m.commands.previous@ == Seq::<char>::empty()
    &&& m.commands.next@ == Seq::<char>::empty()
}

impl Default for MprisConfig {
    fn default() -> (r: Self)
        ensures
            is_default_mpris(r),
    {
        MprisConfig {
            enable: false,
            controller: String::new(),
            device: String::new(),
            commands: MprisCommands::default(),
        }
    }
}

impl Clone for MprisConfig {
    fn clone(&self) -> (r: Self)
        ensures
            r == *self,
    {
        MprisConfig {
            enable: self.enable,
            controller: self.controller.clone(),
            device: self.device.clone(),
            commands: self.commands.clone(),
        }
    }
}

/// The media key whose command is sent.
#[derive(Debug, Clone, Copy, PartialEq, Eq, Structural)]
pub enum MediaKey {
    Next,
    Previous,
    PlayPause,
}

/// A command to send to a device.
#[derive(Debug)]
pub struct DeviceCommand {
    pub controller: String,
    pub device: String,
    pub command: String,
}

impl MprisConfig {
    /// Whether the player drives a device: it is enabled, with a controller
    /// and a device.
    pub open spec fn spec_can_control(self) -> bool {
        self.enable && self.controller@.len() > 0 && self.device@.len() > 0
    }

    /// Whether pressing `key` sends a command: the player drives a device
    /// and the key has a command.
    pub open spec fn sends(self, key: MediaKey) -> bool {
        self.spec_can_control() && self.spec_command_for(key).len() > 0
    }

    /// The command configured for `key`.
    pub open spec fn spec_command_for(self, key: MediaKey) -> Seq<char> {
        match key {
            MediaKey::Next => self.commands.next@,
            MediaKey::Previous => self.commands.previous@,
            MediaKey::PlayPause => self.commands.play_pause@,
        }
    }

    /// Whether the player drives a device.
    pub fn can_control(&self) -> (r: bool)
        ensures
            r == self.spec_can_control(),
    {
        self.enable && self.controller.unicode_len() > 0 && self.device.unicode_len() > 0
    }

    /// Whether the key `key` does something: the player drives a device and
    /// the key has a command.
    pub fn can_send(&self, key: MediaKey) -> (r: bool)
        ensures
            r == self.sends(key),
    {
        self.can_control() && self.command_for(key).unicode_len() > 0
    }

    /// `CanGoNext`: the next key does something.
    pub fn can_go_next(&self) -> (r: bool)
        ensures
            r == (self.spec_can_control() && self.commands.next@.len() > 0),
    {
        self.can_send(MediaKey::Next)
    }

    /// `CanGoPrevious`: the previous key does something.
    pub fn can_go_previous(&self) -> (r: bool)
        ensures
            r == (self.spec_can_control() && self.commands.previous@.len() > 0),
    {
        self.can_send(MediaKey::Previous)
    }

    /// `CanPlay` and `CanPause`: the play/pause key does something.
    pub fn can_play(&self) -> (r: bool)
        ensures
            r == (self.spec_can_control() && self.commands.play_pause@.len() > 0),
    {
        self.can_send(MediaKey::PlayPause)
    }

    /// The command configured for `key`.
    pub fn command_for(&self, key: MediaKey) -> (r: &String)
        ensures
            r@ == self.spec_command_for(key),
    {
        match key {
            MediaKey::Next => &self.commands.next,
            MediaKey::Previous => &self.commands.previous,
            MediaKey::PlayPause => &self.commands.play_pause,
        }
    }

    /// What pressing `key` sends: nothing when the player does not drive a
    /// device or the key has no command, else the key's command to the
    /// configured controller and device.
    pub fn media_command(&self, key: MediaKey) -> (r: Option<DeviceCommand>)
        ensures
            match r {
                Some(c) => self.sends(key) && c.controller@ == self.controller@ && c.device@
                    == self.device@ && c.command@ == self.spec_command_for(key),
                None => !self.sends(key),
            },
    {
        if !self.enable || self.controller.unicode_len() == 0 || self.device.unicode_len() == 0 {
            return None;
        }
        let path = self.command_for(key).clone();
        if path.unicode_len() == 0 {
            return None;
        }
        Some(DeviceCommand {
            controller: self.controller.clone(),
            device: self.device.clone(),
            command: path,
        })
    }
}

/// The name of the tray icon when the configuration names none.
pub open spec fn default_icon_name() -> Seq<char> {
    "preferences-desktop-peripherals"@
}

/// The tray icon of a configuration that does not give `tray_icon`.
pub fn default_tray_icon() -> (r: Option<String>)
    ensures
        r matches Some(s) && s@ == default_icon_name(),
{
    Some(string_of("preferences-desktop-peripherals"))
}

/// The service's configuration.
#[derive(Debug)]
pub struct Config {
    pub host: String,
    pub port: u16,
    pub selected_controllers: StrSet,
    pub tray_icon: Option<String>,
    pub mpris: MprisConfig,
}

/// The configuration written when there is none: the default address, no
/// selected controllers, the default tray icon and the player off.
pub open spec fn is_default_config(c: Config) -> bool {
    &&& c.host@ == "192.168.1.143"@
    &&& c.port == 6676
    &&& c.selected_controllers@ == Set::<Seq<char>>::empty()
    &&& (c.tray_icon matches Some(s) && s@ == default_icon_name())
    &&& is_default_mpris(c.mpris)
}

impl Default for Config {
    fn default() -> (r: Self)
        ensures
            is_default_config(r),
    {
        Config {
            host: string_of("192.168.1.143"),
            port: 6676,
            selected_controllers: StrSet::new(),
            tray_icon: default_tray_icon(),
            mpris: MprisConfig::default(),
        }
    }
}

/// What reading a configuration file gave.
#[derive(Debug)]
pub enum ConfigSource<C> {
    /// There is no file at the path.
    Missing,
    /// The file could not be read; the error's text.
    ReadError(String),
    /// The file parsed to this configuration.
    Parsed(C),
    /// The file did not parse; the parser's error text.
    Invalid(String),
}

/// What loading decides.
#[derive(Debug)]
pub enum LoadPlan<C> {
    /// Write this (default) configuration to the path; loading gives it if
    /// the write succeeds and fails with the write's error otherwise.
    CreateDefault(C),
    /// Loading gives this configuration; write it back to the path to add
    /// fields that were missing, ignoring a failure of that write.
    Rewrite(C),
    /// Loading gives this configuration; nothing is written.
    Use(C),
    /// Loading fails with this message; nothing is written.
    Fail(String),
}

impl Config {
    /// Loading the configuration, given what reading the file at the path
    /// (shown as `path_text`) gave: a missing file is created with the
    /// defaults; a parsed file is used and written back; a file that does
    /// not parse fails with a message and is left as it is.
    pub fn load(source: ConfigSource<Config>, path_text: &str) -> (r: LoadPlan<Config>)
        ensures
            match source {
                ConfigSource::Missing => r matches LoadPlan::CreateDefault(c) && is_default_config(c),
                ConfigSource::ReadError(e) => r matches LoadPlan::Fail(m) && m@ == e@,
                ConfigSource::Parsed(c) => r == LoadPlan::Rewrite(c),
                ConfigSource::Invalid(e) => r matches LoadPlan::Fail(m) && m@
                    == "Failed to parse config file at "@ + path_text@ + ": "@ + e@,
            },
    {
        match source {
            ConfigSource::Missing => LoadPlan::CreateDefault(Config::default()),
            ConfigSource::ReadError(e) => LoadPlan::Fail(e),
            ConfigSource::Parsed(c) => LoadPlan::Rewrite(c),
            ConfigSource::Invalid(e) => {
                let mut m = concat3("Failed to parse config file at ", path_text, ": ");
                m.append(e.as_str());
                LoadPlan::Fail(m)
            },
        }
    }
}

} // verus!
