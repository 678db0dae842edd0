use broadlink_remote::api_client::{BLNode, BLNodeKind, BroadlinkClient};
use broadlink_remote::json::Json;

fn s(x: &str) -> Json {
    Json::Str(x.to_string())
}

fn obj(members: Vec<(&str, Json)>) -> Json {
    Json::Object(members.into_iter().map(|(k, v)| (k.to_string(), v)).collect())
}

fn names(n: &BLNode) -> Vec<String> {
    n.children.iter().map(|c| c.name.clone()).collect()
}

#[test]
fn object_commands_are_sorted_with_paths() {
    let json = obj(vec![
        ("friendly_name", s("Television")),
        (
            "commands",
            obj(vec![
                ("volume_up", obj(vec![("friendly_name", s("Volume +"))])),
                ("power", obj(vec![("disabled", Json::Bool(true))])),
                ("mute", obj(vec![])),
            ]),
        ),
    ]);
    let root = BroadlinkClient::command_tree_from_json("tv", &json);
    assert_eq!(root.kind, BLNodeKind::Group);
    assert_eq!(root.name, "tv");
    assert_eq!(root.friendly_name, Some("Television".to_string()));
    assert!(!root.disabled);
    assert_eq!(root.command_path, None);
    assert_eq!(names(&root), vec!["mute", "power", "volume_up"]);
    let power = &root.children[1];
    assert_eq!(power.kind, BLNodeKind::Command);
    assert!(power.disabled);
    assert_eq!(power.command_path, Some("power".to_string()));
    let up = &root.children[2];
    assert_eq!(up.friendly_name, Some("Volume +".to_string()));
    assert!(!up.disabled);
    assert!(up.children.is_empty());
}

#[test]
fn nested_groups_join_paths_with_dots() {
    let json = obj(vec![(
        "groups",
        obj(vec![
            (
                "sound",
                obj(vec![
                    ("friendly_name", s("Sound")),
                    ("commands", obj(vec![("up", obj(vec![])), ("down", obj(vec![]))])),
                    (
                        "groups",
                        obj(vec![("mode", obj(vec![("commands", obj(vec![("movie", obj(vec![]))]))]))]),
                    ),
                ]),
            ),
            ("power", obj(vec![("disabled", Json::Bool(true)), ("commands", obj(vec![("on", obj(vec![]))]))])),
        ]),
    )]);
    let root = BroadlinkClient::command_tree_from_json("amp", &json);
    assert_eq!(root.friendly_name, None);
    assert_eq!(names(&root), vec!["power", "sound"]);
    let power = &root.children[0];
    assert_eq!(power.kind, BLNodeKind::Group);
    assert!(power.disabled);
    assert_eq!(power.command_path, None);
    assert_eq!(power.children[0].command_path, Some("power.on".to_string()));
    let sound = &root.children[1];
    assert_eq!(sound.friendly_name, Some("Sound".to_string()));
    // commands first, then groups
    assert_eq!(names(sound), vec!["down", "up", "mode"]);
    assert_eq!(sound.children[0].command_path, Some("sound.down".to_string()));
    let mode = &sound.children[2];
    assert_eq!(mode.kind, BLNodeKind::Group);
    assert_eq!(mode.children[0].command_path, Some("sound.mode.movie".to_string()));
}

#[test]
fn array_commands_and_groups_keep_order_and_skip_unnamed() {
    let json = obj(vec![
        (
            "commands",
            Json::Array(vec![
                obj(vec![("name", s("zeta")), ("friendly_name", s("Z"))]),
                obj(vec![("friendly_name", s("no name"))]),
                obj(vec![("name", s("alpha")), ("disabled", Json::Bool(true))]),
                obj(vec![("name", Json::Number)]),
            ]),
        ),
        (
            "groups",
            Json::Array(vec![obj(vec![
                ("name", s("g")),
                ("commands", Json::Array(vec![obj(vec![("name", s("x"))])])),
            ])]),
        ),
    ]);
    let root = BroadlinkClient::command_tree_from_json("dev", &json);
    assert_eq!(names(&root), vec!["zeta", "alpha", "g"]);
    assert_eq!(root.children[0].friendly_name, Some("Z".to_string()));
    assert!(root.children[1].disabled);
    assert_eq!(root.children[1].command_path, Some("alpha".to_string()));
    assert_eq!(root.children[2].children[0].command_path, Some("g.x".to_string()));
}

#[test]
fn values_other_than_objects_and_arrays_give_nothing() {
    let json = obj(vec![("commands", s("oops")), ("groups", Json::Null), ("disabled", Json::Bool(true))]);
    let root = BroadlinkClient::command_tree_from_json("dev", &json);
    assert!(root.children.is_empty());
    assert!(!root.disabled);
    let root2 = BroadlinkClient::command_tree_from_json("dev", &Json::Array(vec![]));
    assert!(root2.children.is_empty());
    assert_eq!(root2.friendly_name, None);
}

#[test]
fn build_nodes_appends_to_existing_children() {
    let mut parent = BLNode {
        kind: BLNodeKind::Group,
        name: "p".to_string(),
        friendly_name: None,
        disabled: false,
        children: vec![],
        command_path: None,
    };
    let json = obj(vec![("commands", obj(vec![("b", obj(vec![]))]))]);
    BroadlinkClient::build_nodes(&mut parent, &json, "root");
    BroadlinkClient::build_nodes(&mut parent, &json, "");
    assert_eq!(names(&parent), vec!["b", "b"]);
    assert_eq!(parent.children[0].command_path, Some("root.b".to_string()));
    assert_eq!(parent.children[1].command_path, Some("b".to_string()));
}

#[test]
fn json_accessors() {
    let json = obj(vec![("a", s("x")), ("a", s("y")), ("b", Json::Bool(false))]);
    assert!(matches!(json.get("a"), Some(Json::Str(v)) if v == "x"));
    assert!(json.get("c").is_none());
    assert_eq!(json.get("b").and_then(|v| v.as_bool()), Some(false));
    assert!(s("q").get("a").is_none());
    assert_eq!(s("q").as_str(), Some(&"q".to_string()));
    assert!(Json::Null.as_object().is_none());
    assert_eq!(Json::Array(vec![Json::Null]).as_array().map(|v| v.len()), Some(1));
}

#[test]
fn endpoint_urls() {
    let c = BroadlinkClient::new("192.168.1.143".to_string(), 6676);
    assert_eq!(c.get_url("/x"), "http://192.168.1.143:6676/api/x");
    assert_eq!(c.controllers_url(), "http://192.168.1.143:6676/api/controller");
    assert_eq!(c.devices_url("bedroom"), "http://192.168.1.143:6676/api/bedroom/device");
    assert_eq!(c.scripts_url("bedroom"), "http://192.168.1.143:6676/api/bedroom/scripts");
    assert_eq!(c.run_script_url("bedroom", "music"), "http://192.168.1.143:6676/api/bedroom/scripts/music");
    assert_eq!(c.send_command_url("bedroom", "tv", "power.on"), "http://192.168.1.143:6676/api/bedroom/tv/power.on");
    assert_eq!(c.command_tree_url("bedroom", "tv"), "http://192.168.1.143:6676/api/bedroom/tv");
    let d = BroadlinkClient::new("h".to_string(), 5);
    assert_eq!(d.controllers_url(), "http://h:5/api/controller");
}

#[test]
fn node_clone_is_deep() {
    let json = obj(vec![("groups", obj(vec![("g", obj(vec![("commands", obj(vec![("c", obj(vec![]))]))]))]))]);
    let root = BroadlinkClient::command_tree_from_json("d", &json);
    let copy = root.clone();
    assert_eq!(format!("{:?}", copy), format!("{:?}", root));
}
