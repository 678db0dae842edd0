use broadlink_remote::api_client::{BLControllerInfo, BLNode, BLNodeKind, BLScript};
use broadlink_remote::refresh::ControllerData;
use broadlink_remote::service::config::{Config, ConfigSource, LoadPlan, MediaKey, MprisConfig};
use broadlink_remote::service::state::AppState;
use broadlink_remote::service::tray::{update_menu, CachedAction, CachedMenu};
use broadlink_remote::tui::config::{default_tray_icon, Config as FullConfig, TuiConfig};

fn ctrl(name: &str, friendly: Option<&str>) -> BLControllerInfo {
    BLControllerInfo {
        name: name.to_string(),
        friendly_name: friendly.map(|f| f.to_string()),
        ip: "10.0.0.2".to_string(),
        port: 80,
        controller_type: Some("rm4".to_string()),
        mac: None,
        model: None,
        devices: Some(vec!["tv".to_string()]),
    }
}

fn cmd(name: &str, friendly: Option<&str>, path: &str, disabled: bool) -> BLNode {
    BLNode {
        kind: BLNodeKind::Command,
        name: name.to_string(),
        friendly_name: friendly.map(|f| f.to_string()),
        disabled,
        children: vec![],
        command_path: Some(path.to_string()),
    }
}

fn group(name: &str, friendly: Option<&str>, children: Vec<BLNode>) -> BLNode {
    BLNode {
        kind: BLNodeKind::Group,
        name: name.to_string(),
        friendly_name: friendly.map(|f| f.to_string()),
        disabled: false,
        children,
        command_path: None,
    }
}

fn labels(items: &Vec<CachedMenu>) -> Vec<String> {
    items
        .iter()
        .map(|m| match m {
            CachedMenu::Separator => "---".to_string(),
            CachedMenu::Standard { label, .. } => label.clone(),
            CachedMenu::SubMenu { label, .. } => format!("[{}]", label),
        })
        .collect()
}

fn service_state() -> AppState {
    let mut st = AppState::new("h".to_string(), 1);
    let tv = group(
        "tv",
        Some("Television"),
        vec![
            cmd("power", Some("Power"), "power", false),
            group("vol", Some("Volume"), vec![cmd("up", None, "vol.up", true)]),
        ],
    );
    let data = vec![
        ControllerData {
            controller: ctrl("living", Some("Living Room")),
            scripts: vec![
                BLScript { name: "zz".to_string(), friendly_name: None, steps: None },
                BLScript { name: "music".to_string(), friendly_name: Some("Musique".to_string()), steps: None },
            ],
            devices: vec![],
            trees: vec![("tv".to_string(), tv), ("amp".to_string(), group("amp", None, vec![]))],
        },
        ControllerData { controller: ctrl("bedroom", None), scripts: vec![], devices: vec![], trees: vec![] },
    ];
    st.begin_refresh();
    assert!(st.is_loading);
    st.finish_refresh(data);
    assert!(!st.is_loading);
    st
}

#[test]
fn menu_without_selection_lists_controllers_sorted() {
    let st = service_state();
    let menu = update_menu(&st);
    assert_eq!(labels(&menu), vec!["Refresh devices", "---", "[Controllers]", "---", "---", "Quit"]);
    match &menu[2] {
        CachedMenu::SubMenu { items, .. } => {
            assert_eq!(labels(items), vec!["☐ bedroom", "☐ Living Room"]);
            assert!(matches!(&items[1], CachedMenu::Standard { action: CachedAction::ToggleController(n), enabled: true, .. } if n == "living"));
        },
        _ => panic!("expected the controllers submenu"),
    }
    assert!(matches!(&menu[0], CachedMenu::Standard { action: CachedAction::Refresh, .. }));
    assert!(matches!(&menu[5], CachedMenu::Standard { action: CachedAction::Quit, .. }));
}

#[test]
fn menu_with_selection_lists_scripts_and_flattened_devices() {
    let mut st = service_state();
    st.toggle_controller("living".to_string());
    let menu = update_menu(&st);
    assert_eq!(
        labels(&menu),
        vec!["Refresh devices", "---", "[Controllers]", "---", "[Living Room - Scripts]", "[amp]", "[Television]", "---", "Quit"]
    );
    match &menu[2] {
        CachedMenu::SubMenu { items, .. } => assert_eq!(labels(items), vec!["☐ bedroom", "☑ Living Room"]),
        _ => panic!("expected the controllers submenu"),
    }
    match &menu[4] {
        CachedMenu::SubMenu { items, .. } => {
            assert_eq!(labels(items), vec!["Musique", "zz"]);
            assert!(matches!(&items[0], CachedMenu::Standard { action: CachedAction::RunScript { controller, script_name }, .. } if controller == "living" && script_name == "music"));
        },
        _ => panic!("expected the scripts submenu"),
    }
    match &menu[6] {
        CachedMenu::SubMenu { items, .. } => {
            assert_eq!(labels(items), vec!["Television > Power", "Television > Volume > up"]);
            assert!(matches!(&items[0], CachedMenu::Standard { enabled: true, action: CachedAction::SendCommand { controller, device, cmd_path }, .. } if controller == "living" && device == "tv" && cmd_path == "power"));
            assert!(matches!(&items[1], CachedMenu::Standard { enabled: false, .. }));
        },
        _ => panic!("expected the device submenu"),
    }
    match &menu[5] {
        CachedMenu::SubMenu { items, .. } => assert!(items.is_empty()),
        _ => panic!("expected the amp submenu"),
    }
}

#[test]
fn toggling_twice_restores_selection() {
    let mut st = service_state();
    st.toggle_controller("bedroom".to_string());
    assert!(st.selected_controllers.contains("bedroom"));
    st.toggle_controller("bedroom".to_string());
    assert!(!st.selected_controllers.contains("bedroom"));
}

#[test]
fn find_command_by_name_friendly_name_or_path() {
    let st = service_state();
    assert_eq!(st.find_command("living", "tv", "Power"), Some("power".to_string()));
    assert_eq!(st.find_command("living", "tv", "power"), Some("power".to_string()));
    assert_eq!(st.find_command("living", "tv", "vol.up"), Some("vol.up".to_string()));
    assert_eq!(st.find_command("living", "tv", "Volume"), None);
    assert_eq!(st.find_command("living", "radio", "power"), None);
    assert_eq!(st.find_command("bedroom", "tv", "power"), None);
}

#[test]
fn icon_name_falls_back() {
    let mut st = AppState::new("h".to_string(), 1);
    assert!(st.show_disabled);
    assert_eq!(st.icon_name(), "preferences-desktop-peripherals");
    st.tray_icon = Some("my-icon".to_string());
    assert_eq!(st.icon_name(), "my-icon");
}

#[test]
fn mpris_commands() {
    let mut m = MprisConfig::default();
    assert!(!m.can_control());
    assert!(m.media_command(MediaKey::PlayPause).is_none());
    m.enable = true;
    m.controller = "Living Room".to_string();
    m.device = "TV".to_string();
    assert!(m.can_control());
    assert!(!m.can_go_next());
    m.commands.play_pause = "Power".to_string();
    m.commands.next = "Volume Up".to_string();
    assert!(m.can_play());
    assert!(m.can_go_next());
    assert!(!m.can_go_previous());
    let c = m.media_command(MediaKey::Next).unwrap();
    assert_eq!((c.controller.as_str(), c.device.as_str(), c.command.as_str()), ("Living Room", "TV", "Volume Up"));
    assert!(m.media_command(MediaKey::Previous).is_none());
    m.device = String::new();
    assert!(m.media_command(MediaKey::Next).is_none());
}

#[test]
fn config_defaults() {
    let c = Config::default();
    assert_eq!(c.host, "192.168.1.143");
    assert_eq!(c.port, 6676);
    assert!(c.selected_controllers.to_vec().is_empty());
    assert_eq!(c.tray_icon, Some("preferences-desktop-peripherals".to_string()));
    assert!(!c.mpris.enable);
    assert_eq!(c.mpris.controller, "");
    assert_eq!(c.mpris.device, "");
    assert_eq!(c.mpris.commands.play_pause, "");
    assert_eq!(c.mpris.commands.previous, "");
    assert_eq!(c.mpris.commands.next, "");
    let t = TuiConfig::default();
    assert_eq!(t.host, "192.168.1.143");
    assert_eq!(t.port, 6676);
    assert_eq!(t.last_selected_controller, "");
    let f = FullConfig::default();
    assert_eq!(f.tray_icon, Some("preferences-desktop-peripherals".to_string()));
    assert_eq!(default_tray_icon(), Some("preferences-desktop-peripherals".to_string()));
}

#[test]
fn test_load_invalid_json_does_not_overwrite() {
    let plan = Config::load(ConfigSource::Invalid("expected value at line 1 column 14".to_string()), "\"/tmp/broadlink_test_config_invalid.json\"");
    match plan {
        LoadPlan::Fail(m) => assert_eq!(
            m,
            "Failed to parse config file at \"/tmp/broadlink_test_config_invalid.json\": expected value at line 1 column 14"
        ),
        _ => panic!("an invalid file must fail and not be written"),
    }
}

#[test]
fn test_load_non_existent_creates_default() {
    match Config::load(ConfigSource::Missing, "\"/tmp/broadlink_test_config_new.json\"") {
        LoadPlan::CreateDefault(c) => {
            assert_eq!(c.host, "192.168.1.143");
            assert_eq!(c.port, 6676);
        },
        _ => panic!("a missing file must be created with the defaults"),
    }
}

#[test]
fn load_parsed_and_unreadable() {
    let mut c = Config::default();
    c.port = 1;
    assert!(matches!(Config::load(ConfigSource::Parsed(c), "p"), LoadPlan::Rewrite(c2) if c2.port == 1));
    assert!(matches!(Config::load(ConfigSource::ReadError("denied".to_string()), "p"), LoadPlan::Fail(m) if m == "denied"));
    assert!(matches!(TuiConfig::load(ConfigSource::Parsed(TuiConfig::default()), "p"), LoadPlan::Use(_)));
    assert!(matches!(TuiConfig::load(ConfigSource::Missing, "p"), LoadPlan::CreateDefault(t) if t.port == 6676));
    assert!(matches!(TuiConfig::load(ConfigSource::Invalid("e".to_string()), "p"), LoadPlan::Fail(m) if m == "Failed to parse TUI config file at p: e"));
    assert!(matches!(FullConfig::load(ConfigSource::Missing, "p"), LoadPlan::CreateDefault(f) if f.tray_icon.is_some()));
    assert!(matches!(FullConfig::load(ConfigSource::Invalid("e".to_string()), "p"), LoadPlan::Fail(m) if m == "Failed to parse config file at p: e"));
}

#[test]
fn missing_config_gets_the_default_player_and_icon() {
    match Config::load(ConfigSource::Missing, "p") {
        LoadPlan::CreateDefault(c) => {
            assert!(c.selected_controllers.to_vec().is_empty());
            assert_eq!(c.tray_icon, Some("preferences-desktop-peripherals".to_string()));
            assert!(!c.mpris.enable);
            assert_eq!(c.mpris.controller, "");
            assert_eq!(c.mpris.device, "");
            assert_eq!(c.mpris.commands.next, "");
        },
        _ => panic!("a missing file must be created with the defaults"),
    }
    match FullConfig::load(ConfigSource::Missing, "p") {
        LoadPlan::CreateDefault(f) => {
            assert_eq!(f.mpris.controller, "");
            assert_eq!(f.mpris.commands.play_pause, "");
        },
        _ => panic!("a missing file must be created with the defaults"),
    }
}

#[test]
fn new_service_state_has_the_default_player() {
    let st = AppState::new("h".to_string(), 1);
    assert!(!st.mpris_config.enable);
    assert_eq!(st.mpris_config.controller, "");
    assert_eq!(st.mpris_config.device, "");
    assert_eq!(st.mpris_config.commands.previous, "");
}

#[test]
fn toggling_leaves_loading_and_disabled_display_alone() {
    let mut st = AppState::new("h".to_string(), 1);
    st.is_loading = true;
    st.show_disabled = false;
    st.toggle_controller("a".to_string());
    assert!(st.is_loading);
    assert!(!st.show_disabled);
    assert_eq!(st.selected_controllers.to_vec(), vec!["a".to_string()]);
}
