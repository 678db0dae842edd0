//! The tray service's shared state: the fetched controllers, scripts and
//! command trees, the selected controllers, the tray icon and the media
//! player's configuration.
use vstd::prelude::*;
use crate::api_client::{BLControllerInfo, BLNode, BLNodeKind, BLScript, BroadlinkClient, NodeView, node_view, nodes_view, lemma_nodes_view_index, opt_view};
use crate::text::str_eq;
use crate::refresh::{ControllerData, assemble_caches, controllers_of, scripts_map, trees_map, nested_view};
use crate::service::config::{MprisConfig, is_default_mpris, default_icon_name};
use crate::str_map::{StrMap, StrSet};
use crate::text::string_of;

verus! {

/// The service's state.
#[derive(Debug)]
pub struct AppState {
    pub client: BroadlinkClient,
    pub controllers: Vec<BLControllerInfo>,
    pub scripts_cache: StrMap<Vec<BLScript>>,
    pub tree_cache: StrMap<StrMap<BLNode>>,
    pub is_loading: bool,
    pub show_disabled: bool,
    pub selected_controllers: StrSet,
    pub tray_icon: Option<String>,
    pub mpris_config: MprisConfig,
}

/// The selection after toggling `name`: removed if it was there, added if
/// not.
pub open spec fn toggled(sel: Set<Seq<char>>, name: Seq<char>) -> Set<Seq<char>> {
    if sel.contains(name) {
        sel.remove(name)
    } else {
        sel.insert(name)
    }
}

/// Law: toggling a controller twice leaves the selection as it was.
pub proof fn law_toggle_twice(sel: Set<Seq<char>>, name: Seq<char>)
    ensures
        toggled(toggled(sel, name), name) == sel,
{
    if sel.contains(name) {
        assert(sel.remove(name).insert(name) =~= sel);
    } else {
        assert(sel.insert(name).remove(name) =~= sel);
    }
}

/// Law: toggling changes the membership of `name` and of nothing else.
pub proof fn law_toggle_flips_only_name(sel: Set<Seq<char>>, name: Seq<char>, other: Seq<char>)
    ensures
        toggled(sel, name).contains(name) == !sel.contains(name),
        other != name ==> toggled(sel, name).contains(other) == sel.contains(other),
{
}

/// A node is a command with a path that `key` names: by its name, its
/// friendly name or its path.
pub open spec fn command_matches(n: NodeView, key: Seq<char>) -> bool {
    &&& n.kind == BLNodeKind::Command
    &&& n.command_path.is_some()
    &&& (n.name == key || n.friendly_name == Some(key) || n.command_path == Some(key))
}

/// The path of the first command below `n`, in tree order, that `key`
/// names.
pub open spec fn find_in(n: NodeView, key: Seq<char>) -> Option<Seq<char>>
    decreases n, 1int,
{
    if command_matches(n, key) {
        n.command_path
    } else if n.kind == BLNodeKind::Group {
        find_in_list(n.children, key, 0)
    } else {
        None
    }
}

/// The path of the first command below the nodes from position `k` on that
/// `key` names.
pub open spec fn find_in_list(ns: Seq<NodeView>, key: Seq<char>, k: int) -> Option<Seq<char>>
    decreases ns, ns.len() - k,
{
    if k < 0 || k >= ns.len() {
        None
    } else {
        match find_in(ns[k], key) {
            Some(p) => Some(p),
            None => find_in_list(ns, key, k + 1),
        }
    }
}

fn opt_str_eq(o: &Option<String>, key: &str) -> (r: bool)
    ensures
        r == (opt_view(*o) == Some(key@)),
{
    match o {
        Some(s) => str_eq(s.as_str(), key),
        None => false,
    }
}

/// The path of the first command below `node` that `key` names.
pub fn find_in_node(node: &BLNode, key: &str) -> (r: Option<String>)
    ensures
        opt_view(r) == find_in(node@, key@),
    decreases node,
{
    if node.kind == BLNodeKind::Command && node.command_path.is_some() && (str_eq(
        node.name.as_str(),
        key,
    ) || opt_str_eq(&node.friendly_name, key) || opt_str_eq(&node.command_path, key)) {
        return match &node.command_path {
            Some(p) => Some(p.clone()),
            None => None,
        };
    }
    if node.kind == BLNodeKind::Group {
        let ghost kids = nodes_view(node.children@);
        proof {
            lemma_nodes_view_index(node.children@);
        }
        let mut i: usize = 0;
        while i < node.children.len()
            invariant
                i <= node.children@.len(),
                kids == nodes_view(node.children@),
                kids.len() == node.children@.len(),
                forall|q: int| 0 <= q < node.children@.len() ==> #[trigger] kids[q] == node_view(
                    node.children@[q],
                ),
                find_in(node@, key@) == find_in_list(kids, key@, i as int),
            decreases node.children@.len() - i,
        {
            let found = find_in_node(&node.children[i], key);
            if found.is_some() {
                return found;
            }
            i = i + 1;
        }
        None
    } else {
        None
    }
}

impl AppState {
    /// The state of a service that talks to the API at `host:port`, before
    /// the first refresh: no data, no selection, no configured icon, the
    /// media player off, disabled commands shown.
    pub fn new(host: String, port: u16) -> (r: Self)
        ensures
            r.client.host == host,
            r.client.port == port,
            r.controllers@.len() == 0,
            r.scripts_cache@ == Map::<Seq<char>, Vec<BLScript>>::empty(),
            r.tree_cache@ == Map::<Seq<char>, StrMap<BLNode>>::empty(),
            !r.is_loading,
            r.show_disabled,
            r.selected_controllers@ == Set::<Seq<char>>::empty(),
            r.tray_icon.is_none(),
            is_default_mpris(r.mpris_config),
    {
        AppState {
            client: BroadlinkClient::new(host, port),
            controllers: Vec::new(),
            scripts_cache: StrMap::new(),
            tree_cache: StrMap::new(),
            is_loading: false,
            show_disabled: true,
            selected_controllers: StrSet::new(),
            tray_icon: None,
            mpris_config: MprisConfig::default(),
        }
    }

    /// Marks the start of a refresh.
    pub fn begin_refresh(&mut self)
        ensures
            final(self).is_loading,
            final(self).client == old(self).client,
            final(self).show_disabled == old(self).show_disabled,
            final(self).controllers@ == old(self).controllers@,
            final(self).scripts_cache@ == old(self).scripts_cache@,
            final(self).tree_cache@ == old(self).tree_cache@,
            final(self).selected_controllers@ == old(self).selected_controllers@,
            final(self).tray_icon == old(self).tray_icon,
            final(self).mpris_config == old(self).mpris_config,
    {
        self.is_loading = true;
    }

    /// Ends a refresh with what was fetched, per controller: the
    /// controllers, scripts and trees are replaced and loading ends.
    pub fn finish_refresh(&mut self, data: Vec<ControllerData>)
        ensures
            final(self).controllers@ == controllers_of(data@),
            final(self).scripts_cache@ == scripts_map(data@, data@.len() as int),
            nested_view(final(self).tree_cache@) == trees_map(data@, data@.len() as int),
            !final(self).is_loading,
            final(self).client == old(self).client,
            final(self).show_disabled == old(self).show_disabled,
            final(self).selected_controllers@ == old(self).selected_controllers@,
            final(self).tray_icon == old(self).tray_icon,
            final(self).mpris_config == old(self).mpris_config,
    {
        let caches = assemble_caches(data);
        self.controllers = caches.controllers;
        self.scripts_cache = caches.scripts;
        self.tree_cache = caches.trees;
        self.is_loading = false;
    }

    /// Selects the controller `name` if it is not selected, and unselects it
    /// otherwise.
    pub fn toggle_controller(&mut self, name: String)
        ensures
            final(self).selected_controllers@ == toggled(old(self).selected_controllers@, name@),
            final(self).client == old(self).client,
            final(self).is_loading == old(self).is_loading,
            final(self).show_disabled == old(self).show_disabled,
            final(self).controllers@ == old(self).controllers@,
            final(self).scripts_cache@ == old(self).scripts_cache@,
            final(self).tree_cache@ == old(self).tree_cache@,
            final(self).tray_icon == old(self).tray_icon,
            final(self).mpris_config == old(self).mpris_config,
    {
        if self.selected_controllers.contains(name.as_str()) {
            self.selected_controllers.remove(name.as_str());
        } else {
            self.selected_controllers.insert(name);
        }
    }

    /// The command path that the media keys' command `command` stands for on
    /// `device` of `controller`: the path of the first command of the cached
    /// tree that it names, if any.
    pub fn find_command(&self, controller: &str, device: &str, command: &str) -> (r: Option<String>)
        ensures
            opt_view(r) == if self.tree_cache@.contains_key(controller@)
                && self.tree_cache@[controller@]@.contains_key(device@) {
                find_in(self.tree_cache@[controller@]@[device@]@, command@)
            } else {
                None
            },
    {
        match self.tree_cache.get(controller) {
            Some(trees) => match trees.get(device) {
                Some(root) => find_in_node(root, command),
                None => None,
            },
            None => None,
        }
    }

    /// The tray icon's name: the configured one, or the fallback.
    pub fn icon_name(&self) -> (r: String)
        ensures
            r@ == match self.tray_icon {
                Some(i) => i@,
                None => default_icon_name(),
            },
    {
        match &self.tray_icon {
            Some(i) => i.clone(),
            None => string_of("preferences-desktop-peripherals"),
        }
    }
}

} // verus!
