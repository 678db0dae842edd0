use broadlink_remote::api_client::{BLControllerInfo, BLDeviceInfo, BLNode, BLNodeKind, BLScript};
use broadlink_remote::refresh::ControllerData;
use broadlink_remote::tui::config::Config;
use broadlink_remote::tui::state::{AppState, CommandListItem, Key, RequestOutcome, TuiAction, View};
use broadlink_remote::tui::ui::{
    command_line, controller_line, current_tab_index, get_view_title, popup_area, popup_line,
    status_text, tab_titles,
};

fn ctrl(name: &str, friendly: Option<&str>) -> BLControllerInfo {
    BLControllerInfo {
        name: name.to_string(),
        friendly_name: friendly.map(|f| f.to_string()),
        ip: "10.0.0.2".to_string(),
        port: 80,
        controller_type: None,
        mac: None,
        model: None,
        devices: None,
    }
}

fn dev(name: &str, friendly: Option<&str>) -> BLDeviceInfo {
    BLDeviceInfo {
        name: name.to_string(),
        friendly_name: friendly.map(|f| f.to_string()),
        device_type: "ir".to_string(),
        manufacturer: None,
        model: None,
    }
}

fn cmd(name: &str, path: &str, disabled: bool) -> BLNode {
    BLNode {
        kind: BLNodeKind::Command,
        name: name.to_string(),
        friendly_name: None,
        disabled,
        children: vec![],
        command_path: Some(path.to_string()),
    }
}

fn group(name: &str, friendly: Option<&str>, children: Vec<BLNode>) -> BLNode {
    BLNode {
        kind: BLNodeKind::Group,
        name: name.to_string(),
        friendly_name: friendly.map(|f| f.to_string()),
        disabled: false,
        children,
        command_path: None,
    }
}

fn script(name: &str, friendly: Option<&str>) -> BLScript {
    BLScript { name: name.to_string(), friendly_name: friendly.map(|f| f.to_string()), steps: None }
}

/// Two controllers; the bedroom has a tv whose tree is
/// tv: [power (cmd), sound (group "Sound": up, mute(disabled)), empty (group: off(disabled))]
fn loaded_state() -> AppState {
    let mut st = AppState::new(Config::default(), 0);
    let tv_tree = group(
        "tv",
        None,
        vec![
            cmd("power", "power", false),
            group("sound", Some("Sound"), vec![cmd("up", "sound.up", false), cmd("mute", "sound.mute", true)]),
            group("empty", None, vec![cmd("off", "empty.off", true)]),
        ],
    );
    let data = vec![
        ControllerData {
            controller: ctrl("bedroom", Some("Bedroom")),
            scripts: vec![script("music", Some("Musique")), script("night", None)],
            devices: vec![dev("tv", Some("Television")), dev("amp", None)],
            trees: vec![("tv".to_string(), tv_tree)],
        },
        ControllerData { controller: ctrl("kitchen", None), scripts: vec![], devices: vec![], trees: vec![] },
    ];
    st.finish_refresh(data, 100);
    st
}

#[test]
fn refresh_moves_to_first_controller() {
    let mut st = AppState::new(Config::default(), 0);
    assert!(matches!(st.current_view, View::Controllers));
    let a = st.handle_key(Key::Char('r'), 5);
    assert!(matches!(a, TuiAction::Refresh));
    assert!(st.is_loading);
    assert_eq!(st.status_message, "Loading devices...");
    st.finish_refresh(
        vec![ControllerData { controller: ctrl("bedroom", None), scripts: vec![], devices: vec![], trees: vec![] }],
        7,
    );
    assert!(!st.is_loading);
    assert_eq!(st.status_message, "Devices loaded");
    assert_eq!(st.status_time, 7);
    assert!(matches!(&st.current_view, View::Devices(c) if c == "bedroom"));
    assert_eq!(st.selected_index, 0);
}

#[test]
fn command_list_has_headers_and_no_disabled_commands() {
    let st = loaded_state();
    let items = st.get_commands_for_device("bedroom", "tv");
    let lines: Vec<String> = items.iter().map(|i| command_line(i)).collect();
    assert_eq!(lines, vec!["─── tv ───", "power", "─── Sound ───", "up"]);
    assert!(st.get_commands_for_device("bedroom", "amp").is_empty());
    assert!(st.get_commands_for_device("nowhere", "tv").is_empty());
    assert!(st.get_command_at_index("bedroom", "tv", 0).is_none());
    assert_eq!(st.get_command_at_index("bedroom", "tv", 1).map(|n| n.name), Some("power".to_string()));
    assert!(st.get_command_at_index("bedroom", "tv", 9).is_none());
}

#[test]
fn entering_a_device_selects_first_command_and_back_restores_it() {
    let mut st = loaded_state();
    // bedroom devices, select tv (index 0)
    let a = st.handle_key(Key::Enter, 200);
    assert!(matches!(a, TuiAction::Nothing));
    assert!(matches!(&st.current_view, View::Commands(c, d) if c == "bedroom" && d == "tv"));
    assert_eq!(st.selected_index, 1);
    // down skips the header
    st.handle_key(Key::Char('j'), 201);
    assert_eq!(st.selected_index, 3);
    st.handle_key(Key::Down, 202);
    assert_eq!(st.selected_index, 3);
    st.handle_key(Key::Up, 203);
    assert_eq!(st.selected_index, 1);
    st.handle_key(Key::Char('k'), 204);
    assert_eq!(st.selected_index, 1);
    // back to devices at tv
    st.handle_key(Key::Char('h'), 205);
    assert!(matches!(&st.current_view, View::Devices(c) if c == "bedroom"));
    assert_eq!(st.selected_index, 0);
}

#[test]
fn enter_on_command_asks_to_send_it_and_reports() {
    let mut st = loaded_state();
    st.handle_key(Key::Enter, 1);
    st.handle_key(Key::Down, 2);
    let a = st.handle_key(Key::Char('l'), 3);
    match &a {
        TuiAction::SendCommand { controller, device, command_path, display } => {
            assert_eq!(controller, "bedroom");
            assert_eq!(device, "tv");
            assert_eq!(command_path, "sound.up");
            assert_eq!(display, "up");
        },
        _ => panic!("expected a command"),
    }
    st.finish_action(&a, &RequestOutcome::Success, 10);
    assert_eq!(st.status_message, "Command sent: up");
    assert_eq!(st.status_time, 10);
    st.finish_action(&a, &RequestOutcome::Failure, 11);
    assert_eq!(st.status_message, "Command failed");
    st.finish_action(&a, &RequestOutcome::Error("timeout".to_string()), 12);
    assert_eq!(st.status_message, "Error: timeout");
    st.finish_action(&TuiAction::Nothing, &RequestOutcome::Success, 13);
    assert_eq!(st.status_time, 12);
}

#[test]
fn scripts_view_runs_scripts() {
    let mut st = loaded_state();
    st.handle_key(Key::Char('s'), 1);
    assert!(matches!(&st.current_view, View::Scripts(c) if c == "bedroom"));
    let a = st.handle_key(Key::Enter, 2);
    match &a {
        TuiAction::RunScript { controller, script, display } => {
            assert_eq!(controller, "bedroom");
            assert_eq!(script, "music");
            assert_eq!(display, "Musique");
        },
        _ => panic!("expected a script"),
    }
    st.finish_action(&a, &RequestOutcome::Success, 3);
    assert_eq!(st.status_message, "Script executed: Musique");
    st.finish_action(&a, &RequestOutcome::Failure, 4);
    assert_eq!(st.status_message, "Script failed");
    st.handle_key(Key::Backspace, 5);
    assert!(matches!(&st.current_view, View::Devices(c) if c == "bedroom"));
}

#[test]
fn back_in_devices_cycles_controllers() {
    let mut st = loaded_state();
    st.handle_key(Key::Left, 1);
    assert!(matches!(&st.current_view, View::Devices(c) if c == "kitchen"));
    st.handle_key(Key::Char('b'), 1);
    assert!(matches!(&st.current_view, View::Devices(c) if c == "bedroom"));
}

#[test]
fn popup_switches_controller() {
    let mut st = loaded_state();
    st.handle_key(Key::Char('d'), 1);
    assert!(st.show_controllers_popup);
    assert_eq!(st.controllers_popup_index, 0);
    st.handle_key(Key::Down, 1);
    st.handle_key(Key::Down, 1);
    assert_eq!(st.controllers_popup_index, 1);
    st.handle_key(Key::Up, 1);
    st.handle_key(Key::Char('j'), 1);
    let a = st.handle_key(Key::Enter, 1);
    assert!(matches!(&a, TuiAction::SaveController { controller } if controller == "kitchen"));
    assert!(!st.show_controllers_popup);
    assert!(matches!(&st.current_view, View::Devices(c) if c == "kitchen"));
    st.handle_key(Key::Char('d'), 1);
    st.handle_key(Key::Char('h'), 1);
    assert!(!st.show_controllers_popup);
}

#[test]
fn jumps_and_unsafe_keys() {
    let mut st = loaded_state();
    st.handle_key(Key::Char('G'), 1);
    assert_eq!(st.selected_index, usize::MAX);
    assert!(!st.key_is_safe(Key::Down));
    assert!(st.key_is_safe(Key::Up));
    st.handle_key(Key::Char('g'), 1);
    assert_eq!(st.selected_index, 0);
    st.handle_key(Key::Other, 1);
    assert_eq!(st.selected_index, 0);
    let empty = AppState::new(Config::default(), 0);
    let mut e = empty;
    e.handle_key(Key::Char('d'), 1);
    assert!(!e.key_is_safe(Key::Down));
    assert!(e.key_is_safe(Key::Enter));
}

#[test]
fn controllers_view_enter_opens_devices() {
    let mut st = AppState::new(Config::default(), 0);
    st.finish_refresh(vec![], 1);
    assert!(matches!(st.current_view, View::Controllers));
    st.handle_key(Key::Enter, 1);
    assert!(matches!(st.current_view, View::Controllers));
    let mut st2 = loaded_state();
    st2.current_view = View::Controllers;
    st2.selected_index = 1;
    let a = st2.handle_key(Key::Right, 1);
    assert!(matches!(&a, TuiAction::SaveController { controller } if controller == "kitchen"));
    assert!(matches!(&st2.current_view, View::Devices(c) if c == "kitchen"));
    assert_eq!(st2.selected_index, 0);
}

#[test]
fn status_freshness_lasts_three_seconds() {
    let mut st = AppState::new(Config::default(), 0);
    st.set_status("hello", 1000);
    assert!(st.status_is_fresh(1000));
    assert!(st.status_is_fresh(3999));
    assert!(!st.status_is_fresh(4000));
    assert!(st.status_is_fresh(10));
    assert_eq!(status_text(&st, 2000), "hello");
    assert_eq!(status_text(&st, 5000), "");
    st.begin_refresh(5000);
    assert_eq!(status_text(&st, 5000), "Loading...");
}

#[test]
fn titles_tabs_and_lines() {
    let mut st = loaded_state();
    assert_eq!(get_view_title(&View::Controllers, &st), "Controllers");
    assert_eq!(get_view_title(&View::Devices("bedroom".to_string()), &st), "Devices - Bedroom");
    assert_eq!(get_view_title(&View::Devices("kitchen".to_string()), &st), "Devices - kitchen");
    assert_eq!(get_view_title(&View::Devices("zzz".to_string()), &st), "Devices - zzz");
    assert_eq!(
        get_view_title(&View::Commands("bedroom".to_string(), "tv".to_string()), &st),
        "Commands - Bedroom/Television"
    );
    assert_eq!(
        get_view_title(&View::Commands("bedroom".to_string(), "amp".to_string()), &st),
        "Commands - Bedroom/amp"
    );
    assert_eq!(get_view_title(&View::Scripts("bedroom".to_string()), &st), "Scripts - Bedroom");
    assert_eq!(get_view_title(&View::Scripts("kitchen".to_string()), &st), "Scripts - kitchen");
    assert_eq!(
        get_view_title(&View::CommandTree("bedroom".to_string(), "tv".to_string()), &st),
        "Tree - Bedroom/Television"
    );
    assert_eq!(get_view_title(&View::CommandTree("c".to_string(), "d".to_string()), &st), "Tree - c/d");
    assert_eq!(tab_titles(&st), vec!["Bedroom".to_string(), "kitchen".to_string()]);
    assert_eq!(current_tab_index(&st), 0);
    st.handle_key(Key::Left, 1);
    assert_eq!(current_tab_index(&st), 1);
    let k = ctrl("kitchen", None);
    assert_eq!(popup_line(&st, &k), "[active] kitchen (10.0.0.2)");
    assert_eq!(popup_line(&st, &ctrl("bedroom", Some("Bedroom"))), "Bedroom (10.0.0.2)");
    assert_eq!(controller_line(&st, &k), "[ ] kitchen (10.0.0.2)");
    assert_eq!(command_line(&CommandListItem::Command(cmd("x", "x", true))), "[disabled] x");
    assert_eq!(command_line(&CommandListItem::Header("H".to_string())), "─── H ───");
    assert_eq!(popup_area(100, 30, 2), (30, 12, 40, 6));
}

#[test]
fn devices_for_controller() {
    let st = loaded_state();
    let devs = st.get_devices_for_controller("bedroom");
    assert_eq!(devs.len(), 2);
    assert_eq!(devs[1].name, "amp");
    assert!(st.get_devices_for_controller("kitchen").is_empty());
    assert!(st.get_devices_for_controller("other").is_empty());
    assert_eq!(st.get_command_display_name(&cmd("a", "a", false)), "a");
}

#[test]
fn back_from_commands_returns_to_the_entered_device() {
    let mut st = loaded_state();
    st.handle_key(Key::Down, 1);
    assert_eq!(st.selected_index, 1);
    st.handle_key(Key::Enter, 1);
    assert!(matches!(&st.current_view, View::Commands(c, d) if c == "bedroom" && d == "amp"));
    assert_eq!(st.selected_index, 0);
    st.handle_key(Key::Backspace, 1);
    assert!(matches!(&st.current_view, View::Devices(c) if c == "bedroom"));
    assert_eq!(st.selected_index, 1);
}

#[test]
fn vim_keys_match_arrows() {
    let mut a = loaded_state();
    let mut b = loaded_state();
    a.handle_key(Key::Enter, 1);
    b.handle_key(Key::Char('l'), 1);
    assert_eq!(a.selected_index, b.selected_index);
    a.handle_key(Key::Down, 1);
    b.handle_key(Key::Char('j'), 1);
    assert_eq!(a.selected_index, b.selected_index);
    a.handle_key(Key::Up, 1);
    b.handle_key(Key::Char('k'), 1);
    assert_eq!(a.selected_index, b.selected_index);
    a.handle_key(Key::Left, 1);
    b.handle_key(Key::Char('h'), 1);
    assert_eq!(format!("{:?}", a.current_view), format!("{:?}", b.current_view));
    assert_eq!(a.selected_index, b.selected_index);
}

#[test]
fn tab_switches_to_the_next_controller_and_saves_it() {
    let mut st = loaded_state();
    st.handle_key(Key::Down, 1);
    let a = st.handle_key(Key::Tab, 1);
    assert!(matches!(&a, TuiAction::SaveController { controller } if controller == "kitchen"));
    assert!(matches!(&st.current_view, View::Devices(c) if c == "kitchen"));
    assert_eq!(st.selected_index, 0);
    let a = st.handle_key(Key::Tab, 2);
    assert!(matches!(&a, TuiAction::SaveController { controller } if controller == "bedroom"));
    assert!(matches!(&st.current_view, View::Devices(c) if c == "bedroom"));
    // from a device's commands, Tab goes to the next controller too
    st.handle_key(Key::Enter, 3);
    assert!(matches!(&st.current_view, View::Commands(_, _)));
    st.handle_key(Key::Tab, 4);
    assert!(matches!(&st.current_view, View::Devices(c) if c == "kitchen"));
    // from the controllers view, Tab goes to the first controller
    st.current_view = View::Controllers;
    let a = st.handle_key(Key::Tab, 5);
    assert!(matches!(&a, TuiAction::SaveController { controller } if controller == "bedroom"));
    assert!(matches!(&st.current_view, View::Devices(c) if c == "bedroom"));
}

#[test]
fn tab_without_controllers_does_nothing() {
    let mut st = AppState::new(Config::default(), 0);
    let a = st.handle_key(Key::Tab, 1);
    assert!(matches!(a, TuiAction::Nothing));
    assert!(matches!(st.current_view, View::Controllers));
}

#[test]
fn saving_a_controller_leaves_the_status_alone() {
    let mut st = loaded_state();
    let before = st.status_message.clone();
    st.finish_action(
        &TuiAction::SaveController { controller: "kitchen".to_string() },
        &RequestOutcome::Success,
        999,
    );
    assert_eq!(st.status_message, before);
    assert_eq!(st.status_time, 100);
}

#[test]
fn popup_escape_saves_nothing() {
    let mut st = loaded_state();
    st.handle_key(Key::Char('d'), 1);
    let a = st.handle_key(Key::Esc, 1);
    assert!(matches!(a, TuiAction::Nothing));
    assert!(matches!(&st.current_view, View::Devices(c) if c == "bedroom"));
}

#[test]
fn back_after_moves_restores_the_entered_device() {
    let mut st = loaded_state();
    st.handle_key(Key::Enter, 1);
    assert!(matches!(&st.current_view, View::Commands(c, d) if c == "bedroom" && d == "tv"));
    st.handle_key(Key::Down, 1);
    st.handle_key(Key::Up, 1);
    st.handle_key(Key::Char('j'), 1);
    assert_eq!(st.selected_index, 3);
    st.handle_key(Key::Backspace, 1);
    assert!(matches!(&st.current_view, View::Devices(c) if c == "bedroom"));
    assert_eq!(st.selected_index, 0);
}
