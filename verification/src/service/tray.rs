//! The tray menu: what it lists and what each entry does, built from the
//! service's state. Showing it and running the actions are the
//! application's.
use vstd::prelude::*;
use crate::api_client::{BLControllerInfo, BLNode, BLNodeKind, BLScript, NodeView, node_view, nodes_view, lemma_nodes_view_index, display_name};
use crate::service::state::AppState;
use crate::sort::{sort_indices, sort_order, string_views};
use crate::text::{string_of, concat2, concat3};

verus! {

/// What a menu entry does.
#[derive(Debug)]
pub enum CachedAction {
    /// Refetch everything and rebuild the menu.
    Refresh,
    /// Select or unselect a controller and rebuild the menu.
    ToggleController(String),
    RunScript { controller: String, script_name: String },
    SendCommand { controller: String, device: String, cmd_path: String },
    Quit,
}

/// A menu entry.
#[derive(Debug)]
pub enum CachedMenu {
    Separator,
    Standard { label: String, enabled: bool, action: CachedAction },
    SubMenu { label: String, items: Vec<CachedMenu> },
}

/// A `CachedAction` as a mathematical value.
pub enum ActionV {
    Refresh,
    ToggleController(Seq<char>),
    RunScript(Seq<char>, Seq<char>),
    SendCommand(Seq<char>, Seq<char>, Seq<char>),
    Quit,
}

/// A `CachedMenu` as a mathematical value.
pub enum MenuV {
    Separator,
    Standard(Seq<char>, bool, ActionV),
    SubMenu(Seq<char>, Seq<MenuV>),
}

impl vstd::view::View for CachedAction {
    type V = ActionV;

    open spec fn view(&self) -> ActionV {
        match self {
            CachedAction::Refresh => ActionV::Refresh,
            CachedAction::ToggleController(n) => ActionV::ToggleController(n@),
            CachedAction::RunScript { controller, script_name } => ActionV::RunScript(
                controller@,
                script_name@,
            ),
            CachedAction::SendCommand { controller, device, cmd_path } => ActionV::SendCommand(
                controller@,
                device@,
                cmd_path@,
            ),
            CachedAction::Quit => ActionV::Quit,
        }
    }
}

/// The view of a menu entry.
pub open spec fn menu_view(m: CachedMenu) -> MenuV
    decreases m, 1int,
{
    match m {
        CachedMenu::Separator => MenuV::Separator,
        CachedMenu::Standard { label, enabled, action } => MenuV::Standard(label@, enabled, action@),
        CachedMenu::SubMenu { label, items } => MenuV::SubMenu(label@, menus_view(items@)),
    }
}

/// The views of a list of menu entries.
pub open spec fn menus_view(ms: Seq<CachedMenu>) -> Seq<MenuV>
    decreases ms, 0int,
{
    if ms.len() == 0 {
        Seq::empty()
    } else {
        menus_view(ms.drop_last()).push(menu_view(ms.last()))
    }
}

proof fn lemma_menus_view_push(ms: Seq<CachedMenu>, m: CachedMenu)
    ensures
        menus_view(ms.push(m)) == menus_view(ms).push(menu_view(m)),
{
    assert(ms.push(m).drop_last() =~= ms);
}

/// The label of a command or group: the friendly name, or else the name,
/// after the label of the enclosing group and " > ".
pub open spec fn flat_label(prefix: Option<Seq<char>>, n: NodeView) -> Seq<char> {
    match prefix {
        Some(p) => p + " > "@ + display_name(n),
        None => display_name(n),
    }
}

/// The entries for the commands below `n`, flattened: one per command,
/// labelled with the path of group names, enabled unless the command is
/// disabled, sending the command's path (empty if it has none).
pub open spec fn flatten_node(n: NodeView, ctrl: Seq<char>, dev: Seq<char>, prefix: Option<Seq<char>>) -> Seq<
    MenuV,
>
    decreases n, 1int,
{
    let label = flat_label(prefix, n);
    if n.kind == BLNodeKind::Group {
        flatten_list(n.children, ctrl, dev, label, n.children.len() as int)
    } else {
        seq![
            MenuV::Standard(
                label,
                !n.disabled,
                ActionV::SendCommand(
                    ctrl,
                    dev,
                    match n.command_path {
                        Some(p) => p,
                        None => Seq::empty(),
                    },
                ),
            ),
        ]
    }
}

/// The flattened entries of the first `k` nodes, below the group labelled
/// `label`.
pub open spec fn flatten_list(ns: Seq<NodeView>, ctrl: Seq<char>, dev: Seq<char>, label: Seq<char>, k: int) -> Seq<
    MenuV,
>
    decreases ns, k,
{
    if k <= 0 || k > ns.len() {
        Seq::empty()
    } else {
        flatten_list(ns, ctrl, dev, label, k - 1) + flatten_node(ns[k - 1], ctrl, dev, Some(label))
    }
}

/// The name shown for a controller: its friendly name, or else its name.
pub open spec fn controller_label(c: BLControllerInfo) -> Seq<char> {
    match c.friendly_name {
        Some(f) => f@,
        None => c.name@,
    }
}

/// The name shown for a script: its friendly name, or else its name.
pub open spec fn script_label(s: BLScript) -> Seq<char> {
    match s.friendly_name {
        Some(f) => f@,
        None => s.name@,
    }
}

/// The check box in front of a controller's entry.
pub open spec fn check_mark(selected: bool) -> Seq<char> {
    if selected {
        "☑"@
    } else {
        "☐"@
    }
}

/// The names of a list of controllers.
pub open spec fn controller_names(cs: Seq<BLControllerInfo>) -> Seq<Seq<char>> {
    cs.map_values(|c: BLControllerInfo| c.name@)
}

/// The names of a list of scripts.
pub open spec fn script_names(ss: Seq<BLScript>) -> Seq<Seq<char>> {
    ss.map_values(|s: BLScript| s.name@)
}

/// The keys of a map's entries.
pub open spec fn entry_keys(es: Seq<(String, BLNode)>) -> Seq<Seq<char>> {
    es.map_values(|e: (String, BLNode)| e.0@)
}

/// The entries of the "Controllers" submenu: every controller, sorted by
/// name, with its check box; each toggles its controller.
pub open spec fn controller_items(s: AppState) -> Seq<MenuV> {
    let cs = s.controllers@;
    let order = sort_order(controller_names(cs));
    Seq::new(
        order.len(),
        |k: int|
            MenuV::Standard(
                check_mark(s.selected_controllers@.contains(cs[order[k]].name@)) + " "@
                    + controller_label(cs[order[k]]),
                true,
                ActionV::ToggleController(cs[order[k]].name@),
            ),
    )
}

/// The scripts submenu of a selected controller: its cached scripts sorted
/// by name, each running its script; none when there are no scripts.
pub open spec fn scripts_section(s: AppState, c: BLControllerInfo) -> Seq<MenuV> {
    if s.scripts_cache@.contains_key(c.name@) {
        let ss = s.scripts_cache@[c.name@]@;
        let order = sort_order(script_names(ss));
        let items = Seq::new(
            order.len(),
            |k: int|
                MenuV::Standard(
                    script_label(ss[order[k]]),
                    true,
                    ActionV::RunScript(c.name@, ss[order[k]].name@),
                ),
        );
        if items.len() > 0 {
            seq![MenuV::SubMenu(controller_label(c) + " - Scripts"@, items)]
        } else {
            Seq::empty()
        }
    } else {
        Seq::empty()
    }
}

/// The device submenus of a selected controller: one per cached device,
/// sorted by device name, labelled with the tree's friendly name or the
/// device name, holding the device's flattened commands.
pub open spec fn devices_section(s: AppState, c: BLControllerInfo) -> Seq<MenuV> {
    if s.tree_cache@.contains_key(c.name@) {
        let es = s.tree_cache@[c.name@].entry_seq();
        let order = sort_order(entry_keys(es));
        Seq::new(
            order.len(),
            |k: int|
                MenuV::SubMenu(
                    match es[order[k]].1.friendly_name {
                        Some(f) => f@,
                        None => es[order[k]].0@,
                    },
                    flatten_node(node_view(es[order[k]].1), c.name@, es[order[k]].0@, None),
                ),
        )
    } else {
        Seq::empty()
    }
}

/// The sections of the first `k` controllers in `order`: for a selected
/// controller its scripts and then its devices, nothing for the others.
pub open spec fn controller_sections(s: AppState, order: Seq<int>, k: int) -> Seq<MenuV>
    decreases k,
{
    if k <= 0 {
        Seq::empty()
    } else {
        let c = s.controllers@[order[k - 1]];
        controller_sections(s, order, k - 1) + if s.selected_controllers@.contains(c.name@) {
            scripts_section(s, c) + devices_section(s, c)
        } else {
            Seq::empty()
        }
    }
}

/// The whole menu: "Refresh devices", a separator, the "Controllers"
/// submenu, a separator, the sections of the selected controllers in name
/// order, a separator and "Quit".
pub open spec fn menu_of(s: AppState) -> Seq<MenuV> {
    let order = sort_order(controller_names(s.controllers@));
    seq![
        MenuV::Standard("Refresh devices"@, true, ActionV::Refresh),
        MenuV::Separator,
        MenuV::SubMenu("Controllers"@, controller_items(s)),
        MenuV::Separator,
    ] + controller_sections(s, order, order.len() as int) + seq![
        MenuV::Separator,
        MenuV::Standard("Quit"@, true, ActionV::Quit),
    ]
}

/// Law: after toggling the controller `name`, the "Controllers" submenu
/// lists the same controllers in the same order, with the check box of
/// `name` flipped and every other entry unchanged.
pub proof fn law_toggle_flips_check_mark(s1: AppState, s2: AppState, name: Seq<char>)
    requires
        s2.controllers@ == s1.controllers@,
        s2.selected_controllers@ == crate::service::state::toggled(s1.selected_controllers@, name),
    ensures
        controller_items(s2).len() == controller_items(s1).len(),
        forall|k: int|
            0 <= k < controller_items(s1).len() ==> {
                let c = s1.controllers@[sort_order(controller_names(s1.controllers@))[k]];
                &&& c.name@ == name ==> #[trigger] controller_items(s2)[k] == MenuV::Standard(
                    check_mark(!s1.selected_controllers@.contains(name)) + " "@ + controller_label(c),
                    true,
                    ActionV::ToggleController(c.name@),
                )
                &&& c.name@ != name ==> controller_items(s2)[k] == controller_items(s1)[k]
            },
{
}

/// The controller that an entry's action is for, if its action is for one.
pub open spec fn action_controller(m: MenuV) -> Option<Seq<char>> {
    match m {
        MenuV::Standard(_, _, ActionV::RunScript(c, _)) => Some(c),
        MenuV::Standard(_, _, ActionV::SendCommand(c, _, _)) => Some(c),
        _ => None,
    }
}

/// Every entry of `ms` is an entry whose action is for `ctrl`.
pub open spec fn all_for(ms: Seq<MenuV>, ctrl: Seq<char>) -> bool {
    forall|j: int| 0 <= j < ms.len() ==> action_controller(#[trigger] ms[j]) == Some(ctrl)
}

proof fn lemma_all_for_concat(a: Seq<MenuV>, b: Seq<MenuV>, ctrl: Seq<char>)
    requires
        all_for(a, ctrl),
        all_for(b, ctrl),
    ensures
        all_for(a + b, ctrl),
{
    assert forall|j: int| 0 <= j < (a + b).len() implies action_controller(#[trigger] (a + b)[j])
        == Some(ctrl) by {
        if j < a.len() {
            assert((a + b)[j] == a[j]);
        } else {
            assert((a + b)[j] == b[j - a.len()]);
        }
    }
}

proof fn lemma_flatten_node_for(n: NodeView, ctrl: Seq<char>, dev: Seq<char>, prefix: Option<Seq<char>>)
    ensures
        all_for(flatten_node(n, ctrl, dev, prefix), ctrl),
    decreases n, 1int,
{
    if n.kind == BLNodeKind::Group {
        lemma_flatten_list_for(n.children, ctrl, dev, flat_label(prefix, n), n.children.len() as int);
    }
}

proof fn lemma_flatten_list_for(ns: Seq<NodeView>, ctrl: Seq<char>, dev: Seq<char>, label: Seq<char>, k: int)
    ensures
        all_for(flatten_list(ns, ctrl, dev, label, k), ctrl),
    decreases ns, k,
{
    if k > 0 && k <= ns.len() {
        lemma_flatten_list_for(ns, ctrl, dev, label, k - 1);
        lemma_flatten_node_for(ns[k - 1], ctrl, dev, Some(label));
        lemma_all_for_concat(
            flatten_list(ns, ctrl, dev, label, k - 1),
            flatten_node(ns[k - 1], ctrl, dev, Some(label)),
            ctrl,
        );
    }
}

proof fn lemma_sort_order_in_range(keys: Seq<Seq<char>>, q: int)
    requires
        0 <= q < sort_order(keys).len(),
    ensures
        0 <= sort_order(keys)[q] < keys.len(),
{
    crate::sort::lemma_sort_order(keys);
}

/// The entries of a controller section: submenus whose entries all act on
/// a selected controller.
pub open spec fn sections_for_selected(ms: Seq<MenuV>, s: AppState) -> bool {
    forall|k: int| 0 <= k < ms.len() ==> submenu_for_selected(#[trigger] ms[k], s)
}

/// A submenu whose entries all act on one selected controller.
pub open spec fn submenu_for_selected(m: MenuV, s: AppState) -> bool {
    match m {
        MenuV::SubMenu(_, items) => exists|c: Seq<char>|
            #[trigger] s.selected_controllers@.contains(c) && all_for(items, c),
        _ => false,
    }
}

proof fn lemma_submenu_for(label: Seq<char>, items: Seq<MenuV>, s: AppState, c: Seq<char>)
    requires
        s.selected_controllers@.contains(c),
        all_for(items, c),
    ensures
        submenu_for_selected(MenuV::SubMenu(label, items), s),
{
}

proof fn lemma_sections_concat(a: Seq<MenuV>, b: Seq<MenuV>, s: AppState)
    requires
        sections_for_selected(a, s),
        sections_for_selected(b, s),
    ensures
        sections_for_selected(a + b, s),
{
    assert forall|k: int| 0 <= k < (a + b).len() implies submenu_for_selected(#[trigger] (a + b)[k], s) by {
        if k < a.len() {
            assert((a + b)[k] == a[k]);
        } else {
            assert((a + b)[k] == b[k - a.len()]);
        }
    }
}

proof fn lemma_controller_sections(s: AppState, order: Seq<int>, k: int)
    ensures
        sections_for_selected(controller_sections(s, order, k), s),
    decreases k,
{
    if k > 0 {
        lemma_controller_sections(s, order, k - 1);
        let c = s.controllers@[order[k - 1]];
        if s.selected_controllers@.contains(c.name@) {
            let sc = scripts_section(s, c);
            let dv = devices_section(s, c);
            assert(sections_for_selected(sc, s)) by {
                if s.scripts_cache@.contains_key(c.name@) {
                    let ss = s.scripts_cache@[c.name@]@;
                    let o = sort_order(script_names(ss));
                    let items = Seq::new(
                        o.len(),
                        |q: int|
                            MenuV::Standard(
                                script_label(ss[o[q]]),
                                true,
                                ActionV::RunScript(c.name@, ss[o[q]].name@),
                            ),
                    );
                    assert(all_for(items, c.name@));
                    if items.len() > 0 {
                        assert(sc[0] == MenuV::SubMenu(controller_label(c) + " - Scripts"@, items));
                        lemma_submenu_for(controller_label(c) + " - Scripts"@, items, s, c.name@);
                    }
                }
            }
            assert(sections_for_selected(dv, s)) by {
                if s.tree_cache@.contains_key(c.name@) {
                    let es = s.tree_cache@[c.name@].entry_seq();
                    let o = sort_order(entry_keys(es));
                    assert forall|q: int| 0 <= q < dv.len() implies submenu_for_selected(
                        #[trigger] dv[q],
                        s,
                    ) by {
                        lemma_sort_order_in_range(entry_keys(es), q);
                        let items = flatten_node(node_view(es[o[q]].1), c.name@, es[o[q]].0@, None);
                        lemma_flatten_node_for(node_view(es[o[q]].1), c.name@, es[o[q]].0@, None);
                        let label = match es[o[q]].1.friendly_name {
                            Some(f) => f@,
                            None => es[o[q]].0@,
                        };
                        assert(dv[q] == MenuV::SubMenu(label, items));
                        lemma_submenu_for(label, items, s, c.name@);
                    }
                }
            }
            lemma_sections_concat(sc, dv, s);
            lemma_sections_concat(controller_sections(s, order, k - 1), sc + dv, s);
        } else {
            assert(controller_sections(s, order, k) =~= controller_sections(s, order, k - 1));
        }
    }
}

/// Law: the menu offers scripts and commands only of selected
/// controllers: the entries between the controllers submenu and the final
/// separator are submenus, and every entry in each of them runs a script
/// or sends a command of one selected controller.
pub proof fn law_menu_offers_only_selected_controllers(s: AppState)
    ensures
        ({
            let order = sort_order(controller_names(s.controllers@));
            sections_for_selected(controller_sections(s, order, order.len() as int), s)
        }),
{
    let order = sort_order(controller_names(s.controllers@));
    lemma_controller_sections(s, order, order.len() as int);
}

/// Law: the "Controllers" submenu has one entry per controller: every
/// controller's toggle is there, and the entries go by controller name.
pub proof fn law_controllers_submenu_lists_each(s: AppState)
    ensures
        controller_items(s).len() == s.controllers@.len(),
        forall|i: int|
            #![trigger s.controllers@[i]]
            0 <= i < s.controllers@.len() ==> exists|k: int|
                0 <= k < controller_items(s).len() && #[trigger] controller_items(s)[k]
                    == MenuV::Standard(
                    check_mark(s.selected_controllers@.contains(s.controllers@[i].name@)) + " "@
                        + controller_label(s.controllers@[i]),
                    true,
                    ActionV::ToggleController(s.controllers@[i].name@),
                ),
        forall|a: int, b: int|
            0 <= a < b < s.controllers@.len() ==> crate::text::lex_le(
                #[trigger] s.controllers@[sort_order(controller_names(s.controllers@))[a]].name@,
                #[trigger] s.controllers@[sort_order(controller_names(s.controllers@))[b]].name@,
            ),
{
    let keys = controller_names(s.controllers@);
    let order = sort_order(keys);
    crate::sort::lemma_sort_order(keys);
    assert forall|i: int|
        #![trigger s.controllers@[i]]
        0 <= i < s.controllers@.len() implies exists|k: int|
            0 <= k < controller_items(s).len() && #[trigger] controller_items(s)[k] == MenuV::Standard(
                check_mark(s.selected_controllers@.contains(s.controllers@[i].name@)) + " "@
                    + controller_label(s.controllers@[i]),
                true,
                ActionV::ToggleController(s.controllers@[i].name@),
            ) by {
        assert(crate::sort::holds_index(order, i));
        let k = choose|k: int| 0 <= k < order.len() && order[k] == i;
        assert(controller_items(s)[k] == MenuV::Standard(
            check_mark(s.selected_controllers@.contains(s.controllers@[i].name@)) + " "@
                + controller_label(s.controllers@[i]),
            true,
            ActionV::ToggleController(s.controllers@[i].name@),
        ));
    }
    assert forall|a: int, b: int| 0 <= a < b < s.controllers@.len() implies crate::text::lex_le(
        #[trigger] s.controllers@[order[a]].name@,
        #[trigger] s.controllers@[order[b]].name@,
    ) by {
        assert(keys[order[a]] == s.controllers@[order[a]].name@);
        assert(keys[order[b]] == s.controllers@[order[b]].name@);
    }
}

/// The command nodes of a tree, at every depth, in tree order.
pub open spec fn tree_commands(n: NodeView) -> Seq<NodeView>
    decreases n, 1int,
{
    match n.kind {
        BLNodeKind::Command => seq![n],
        BLNodeKind::Group => tree_commands_of(n.children, n.children.len() as int),
    }
}

/// The command nodes of the first `k` trees of `ns`, one after the other.
pub open spec fn tree_commands_of(ns: Seq<NodeView>, k: int) -> Seq<NodeView>
    decreases ns, k,
{
    if k <= 0 || k > ns.len() {
        Seq::empty()
    } else {
        tree_commands_of(ns, k - 1) + tree_commands(ns[k - 1])
    }
}

/// Entry `k` of `ms` acts on command `k` of `cs` of `dev` of `ctrl`: it is
/// enabled unless the command is disabled, and it sends the command's path
/// (empty for a command without one).
pub open spec fn entries_send(ms: Seq<MenuV>, cs: Seq<NodeView>, ctrl: Seq<char>, dev: Seq<char>) -> bool {
    &&& ms.len() == cs.len()
    &&& forall|k: int|
        0 <= k < ms.len() ==> (#[trigger] ms[k] matches MenuV::Standard(_, enabled, action)
            && enabled == !cs[k].disabled && action == ActionV::SendCommand(
            ctrl,
            dev,
            match cs[k].command_path {
                Some(p) => p,
                None => Seq::empty(),
            },
        ))
}

proof fn lemma_entries_send_concat(
    a: Seq<MenuV>,
    ca: Seq<NodeView>,
    b: Seq<MenuV>,
    cb: Seq<NodeView>,
    ctrl: Seq<char>,
    dev: Seq<char>,
)
    requires
        entries_send(a, ca, ctrl, dev),
        entries_send(b, cb, ctrl, dev),
    ensures
        entries_send(a + b, ca + cb, ctrl, dev),
{
    assert forall|k: int| 0 <= k < (a + b).len() implies (#[trigger] (a + b)[k] matches MenuV::Standard(
        _,
        enabled,
        action,
    ) && enabled == !(ca + cb)[k].disabled && action == ActionV::SendCommand(
        ctrl,
        dev,
        match (ca + cb)[k].command_path {
            Some(p) => p,
            None => Seq::empty(),
        },
    )) by {
        if k < a.len() {
            assert((a + b)[k] == a[k]);
            assert((ca + cb)[k] == ca[k]);
        } else {
            assert((a + b)[k] == b[k - a.len()]);
            assert((ca + cb)[k] == cb[k - ca.len()]);
        }
    }
}

proof fn lemma_flatten_node_sends(n: NodeView, ctrl: Seq<char>, dev: Seq<char>, prefix: Option<Seq<char>>)
    ensures
        entries_send(flatten_node(n, ctrl, dev, prefix), tree_commands(n), ctrl, dev),
    decreases n, 1int,
{
    if n.kind == BLNodeKind::Group {
        lemma_flatten_list_sends(n.children, ctrl, dev, flat_label(prefix, n), n.children.len() as int);
    } else {
        let ms = flatten_node(n, ctrl, dev, prefix);
        assert(ms[0] is Standard);
    }
}

proof fn lemma_flatten_list_sends(ns: Seq<NodeView>, ctrl: Seq<char>, dev: Seq<char>, label: Seq<char>, k: int)
    ensures
        entries_send(flatten_list(ns, ctrl, dev, label, k), tree_commands_of(ns, k), ctrl, dev),
    decreases ns, k,
{
    if k > 0 && k <= ns.len() {
        lemma_flatten_list_sends(ns, ctrl, dev, label, k - 1);
        lemma_flatten_node_sends(ns[k - 1], ctrl, dev, Some(label));
        lemma_entries_send_concat(
            flatten_list(ns, ctrl, dev, label, k - 1),
            tree_commands_of(ns, k - 1),
            flatten_node(ns[k - 1], ctrl, dev, Some(label)),
            tree_commands(ns[k - 1]),
            ctrl,
            dev,
        );
    }
}

/// Law: a device's tray submenu has one entry per command of its tree, at
/// every depth and in tree order; each entry is enabled unless its command
/// is disabled, and sends that command's own path (the dot-separated path
/// of the groups above it and its name) to the device of the controller.
pub proof fn law_device_entries_send_command_paths(
    n: NodeView,
    ctrl: Seq<char>,
    dev: Seq<char>,
    prefix: Option<Seq<char>>,
)
    ensures
        entries_send(flatten_node(n, ctrl, dev, prefix), tree_commands(n), ctrl, dev),
{
    lemma_flatten_node_sends(n, ctrl, dev, prefix);
}

/// Appends to `items` the flattened entries of the commands below `node`
/// of `device` of `controller`.
pub fn flatten_node_cached(
    node: &BLNode,
    controller: &str,
    device: &str,
    prefix: Option<String>,
    items: &mut Vec<CachedMenu>,
)
    ensures
        menus_view(final(items)@) == menus_view(old(items)@) + flatten_node(
            node@,
            controller@,
            device@,
            match prefix {
                Some(p) => Some(p@),
                None => None,
            },
        ),
    decreases node,
{
    let current_name = match &node.friendly_name {
        Some(f) => f.clone(),
        None => node.name.clone(),
    };
    let label = match prefix {
        Some(p) => concat3(p.as_str(), " > ", current_name.as_str()),
        None => current_name,
    };
    match node.kind {
        BLNodeKind::Group => {
            let ghost kids = nodes_view(node.children@);
            let ghost start = menus_view(items@);
            proof {
                lemma_nodes_view_index(node.children@);
            }
            let mut i: usize = 0;
            while i < node.children.len()
                invariant
                    i <= node.children@.len(),
                    kids == nodes_view(node.children@),
                    kids.len() == node.children@.len(),
                    forall|q: int| 0 <= q < node.children@.len() ==> #[trigger] kids[q] == node_view(
                        node.children@[q],
                    ),
                    menus_view(items@) == start + flatten_list(
                        kids,
                        controller@,
                        device@,
                        label@,
                        i as int,
                    ),
                decreases node.children@.len() - i,
            {
                flatten_node_cached(&node.children[i], controller, device, Some(label.clone()), items);
                i = i + 1;
            }
        },
        BLNodeKind::Command => {
            let path = match &node.command_path {
                Some(p) => p.clone(),
                None => String::new(),
            };
            let m = CachedMenu::Standard {
                label,
                enabled: !node.disabled,
                action: CachedAction::SendCommand {
                    controller: string_of(controller),
                    device: string_of(device),
                    cmd_path: path,
                },
            };
            proof {
                lemma_menus_view_push(items@, m);
            }
            items.push(m);
        },
    }
}

fn controller_name_vec(cs: &Vec<BLControllerInfo>) -> (r: Vec<String>)
    ensures
        string_views(r@) == controller_names(cs@),
{
    let mut out: Vec<String> = Vec::new();
    let mut i: usize = 0;
    while i < cs.len()
        invariant
            i <= cs@.len(),
            string_views(out@) == controller_names(cs@.take(i as int)),
        decreases cs@.len() - i,
    {
        let ghost before = out@;
        out.push(cs[i].name.clone());
        assert(string_views(out@) =~= string_views(before).push(cs@[i as int].name@));
        assert(cs@.take(i + 1) =~= cs@.take(i as int).push(cs@[i as int]));
        assert(controller_names(cs@.take(i + 1)) =~= controller_names(cs@.take(i as int)).push(
            cs@[i as int].name@,
        ));
        i = i + 1;
    }
    assert(cs@.take(cs@.len() as int) =~= cs@);
    out
}

fn script_name_vec(ss: &Vec<BLScript>) -> (r: Vec<String>)
    ensures
        string_views(r@) == script_names(ss@),
{
    let mut out: Vec<String> = Vec::new();
    let mut i: usize = 0;
    while i < ss.len()
        invariant
            i <= ss@.len(),
            string_views(out@) == script_names(ss@.take(i as int)),
        decreases ss@.len() - i,
    {
        let ghost before = out@;
        out.push(ss[i].name.clone());
        assert(string_views(out@) =~= string_views(before).push(ss@[i as int].name@));
        assert(ss@.take(i + 1) =~= ss@.take(i as int).push(ss@[i as int]));
        assert(script_names(ss@.take(i + 1)) =~= script_names(ss@.take(i as int)).push(
            ss@[i as int].name@,
        ));
        i = i + 1;
    }
    assert(ss@.take(ss@.len() as int) =~= ss@);
    out
}

fn entry_key_vec(es: &Vec<(String, BLNode)>) -> (r: Vec<String>)
    ensures
        string_views(r@) == entry_keys(es@),
{
    let mut out: Vec<String> = Vec::new();
    let mut i: usize = 0;
    while i < es.len()
        invariant
            i <= es@.len(),
            string_views(out@) == entry_keys(es@.take(i as int)),
        decreases es@.len() - i,
    {
        let ghost before = out@;
        out.push(es[i].0.clone());
        assert(string_views(out@) =~= string_views(before).push(es@[i as int].0@));
        assert(es@.take(i + 1) =~= es@.take(i as int).push(es@[i as int]));
        assert(entry_keys(es@.take(i + 1)) =~= entry_keys(es@.take(i as int)).push(
            es@[i as int].0@,
        ));
        i = i + 1;
    }
    assert(es@.take(es@.len() as int) =~= es@);
    out
}

fn controller_label_of(c: &BLControllerInfo) -> (r: String)
    ensures
        r@ == controller_label(*c),
{
    match &c.friendly_name {
        Some(f) => f.clone(),
        None => c.name.clone(),
    }
}

fn controller_item_vec(state: &AppState, order: &Vec<usize>) -> (r: Vec<CachedMenu>)
    requires
        order@.map_values(|x: usize| x as int) == sort_order(controller_names(state.controllers@)),
        forall|k: int| 0 <= k < order@.len() ==> (#[trigger] order@[k]) < state.controllers@.len(),
    ensures
        menus_view(r@) == controller_items(*state),
{
    let ghost all = controller_items(*state);
    let ghost ord = sort_order(controller_names(state.controllers@));
    assert(ord.len() == order@.len());
    let mut out: Vec<CachedMenu> = Vec::new();
    let mut k: usize = 0;
    while k < order.len()
        invariant
            k <= order@.len(),
            order@.map_values(|x: usize| x as int) == ord,
            ord == sort_order(controller_names(state.controllers@)),
            forall|q: int| 0 <= q < order@.len() ==> (#[trigger] order@[q]) < state.controllers@.len(),
            all == controller_items(*state),
            all.len() == ord.len(),
            menus_view(out@) == all.take(k as int),
        decreases order@.len() - k,
    {
        let c = &state.controllers[order[k]];
        assert(ord[k as int] == order@[k as int] as int);
        let selected = state.selected_controllers.contains(c.name.as_str());
        let mark = if selected {
            "☑"
        } else {
            "☐"
        };
        let label = concat3(mark, " ", controller_label_of(c).as_str());
        let m = CachedMenu::Standard {
            label,
            enabled: true,
            action: CachedAction::ToggleController(c.name.clone()),
        };
        proof {
            lemma_menus_view_push(out@, m);
            assert(menu_view(m) == all[k as int]);
            assert(all.take(k + 1) =~= all.take(k as int).push(all[k as int]));
        }
        out.push(m);
        k = k + 1;
    }
    assert(all.take(k as int) =~= all);
    out
}

fn add_scripts_section(state: &AppState, c: &BLControllerInfo, items: &mut Vec<CachedMenu>)
    ensures
        menus_view(final(items)@) == menus_view(old(items)@) + scripts_section(*state, *c),
{
    if let Some(scripts) = state.scripts_cache.get(c.name.as_str()) {
        let names = script_name_vec(scripts);
        let order = sort_indices(&names);
        let ghost ss = scripts@;
        let ghost ord = sort_order(script_names(ss));
        let ghost all = Seq::new(
            ord.len(),
            |q: int|
                MenuV::Standard(
                    script_label(ss[ord[q]]),
                    true,
                    ActionV::RunScript(c.name@, ss[ord[q]].name@),
                ),
        );
        assert(ord.len() == order@.len());
        let mut script_items: Vec<CachedMenu> = Vec::new();
        let mut k: usize = 0;
        while k < order.len()
            invariant
                k <= order@.len(),
                ss == scripts@,
                order@.map_values(|x: usize| x as int) == ord,
                forall|q: int| 0 <= q < order@.len() ==> (#[trigger] order@[q]) < names@.len(),
                names@.len() == ss.len(),
                all.len() == ord.len(),
                all == Seq::new(
                    ord.len(),
                    |q: int|
                        MenuV::Standard(
                            script_label(ss[ord[q]]),
                            true,
                            ActionV::RunScript(c.name@, ss[ord[q]].name@),
                        ),
                ),
                menus_view(script_items@) == all.take(k as int),
            decreases order@.len() - k,
        {
            let sc = &scripts[order[k]];
            assert(ord[k as int] == order@[k as int] as int);
            let label = match &sc.friendly_name {
                Some(f) => f.clone(),
                None => sc.name.clone(),
            };
            let m = CachedMenu::Standard {
                label,
                enabled: true,
                action: CachedAction::RunScript {
                    controller: c.name.clone(),
                    script_name: sc.name.clone(),
                },
            };
            proof {
                lemma_menus_view_push(script_items@, m);
                assert(menu_view(m) == all[k as int]);
                assert(all.take(k + 1) =~= all.take(k as int).push(all[k as int]));
            }
            script_items.push(m);
            k = k + 1;
        }
        assert(all.take(k as int) =~= all);
        if script_items.len() > 0 {
            let label = concat2(controller_label_of(c).as_str(), " - Scripts");
            let m = CachedMenu::SubMenu { label, items: script_items };
            proof {
                lemma_menus_view_push(items@, m);
            }
            items.push(m);
        } else {
            assert(menus_view(items@) + scripts_section(*state, *c) =~= menus_view(items@));
        }
    } else {
        assert(menus_view(items@) + scripts_section(*state, *c) =~= menus_view(items@));
    }
}

fn add_devices_section(state: &AppState, c: &BLControllerInfo, items: &mut Vec<CachedMenu>)
    ensures
        menus_view(final(items)@) == menus_view(old(items)@) + devices_section(*state, *c),
{
    if let Some(dev_map) = state.tree_cache.get(c.name.as_str()) {
        let entries = dev_map.entries();
        let keys = entry_key_vec(entries);
        let order = sort_indices(&keys);
        let ghost es = entries@;
        let ghost ord = sort_order(entry_keys(es));
        let ghost start = menus_view(items@);
        let ghost all = devices_section(*state, *c);
        assert(ord.len() == order@.len());
        let mut k: usize = 0;
        while k < order.len()
            invariant
                k <= order@.len(),
                es == entries@,
                es == state.tree_cache@[c.name@].entry_seq(),
                state.tree_cache@.contains_key(c.name@),
                order@.map_values(|x: usize| x as int) == ord,
                ord == sort_order(entry_keys(es)),
                forall|q: int| 0 <= q < order@.len() ==> (#[trigger] order@[q]) < keys@.len(),
                keys@.len() == es.len(),
                all == devices_section(*state, *c),
                all.len() == ord.len(),
                menus_view(items@) == start + all.take(k as int),
            decreases order@.len() - k,
        {
            let idx = order[k];
            assert(ord[k as int] == idx as int);
            let dev_name = &entries[idx].0;
            let root = &entries[idx].1;
            let mut dev_items: Vec<CachedMenu> = Vec::new();
            flatten_node_cached(root, c.name.as_str(), dev_name.as_str(), None, &mut dev_items);
            let label = match &root.friendly_name {
                Some(f) => f.clone(),
                None => dev_name.clone(),
            };
            let m = CachedMenu::SubMenu { label, items: dev_items };
            proof {
                lemma_menus_view_push(items@, m);
                assert(menus_view(dev_items@) =~= flatten_node(
                    node_view(es[idx as int].1),
                    c.name@,
                    es[idx as int].0@,
                    None,
                ));
                assert(menu_view(m) == all[k as int]);
                assert(all.take(k + 1) =~= all.take(k as int).push(all[k as int]));
            }
            items.push(m);
            k = k + 1;
        }
        assert(all.take(k as int) =~= all);
    } else {
        assert(menus_view(items@) + devices_section(*state, *c) =~= menus_view(items@));
    }
}

/// The tray menu for `state`.
pub fn update_menu(state: &AppState) -> (r: Vec<CachedMenu>)
    ensures
        menus_view(r@) == menu_of(*state),
{
    let mut new_cache: Vec<CachedMenu> = Vec::new();
    let m1 = CachedMenu::Standard {
        label: string_of("Refresh devices"),
        enabled: true,
        action: CachedAction::Refresh,
    };
    proof {
        lemma_menus_view_push(new_cache@, m1);
    }
    new_cache.push(m1);
    proof {
        lemma_menus_view_push(new_cache@, CachedMenu::Separator);
    }
    new_cache.push(CachedMenu::Separator);
    let names = controller_name_vec(&state.controllers);
    let order = sort_indices(&names);
    let ctrl_items = controller_item_vec(state, &order);
    let m2 = CachedMenu::SubMenu { label: string_of("Controllers"), items: ctrl_items };
    proof {
        lemma_menus_view_push(new_cache@, m2);
    }
    new_cache.push(m2);
    proof {
        lemma_menus_view_push(new_cache@, CachedMenu::Separator);
    }
    new_cache.push(CachedMenu::Separator);
    let ghost head = menus_view(new_cache@);
    let ghost ord = sort_order(controller_names(state.controllers@));
    assert(ord.len() == order@.len());
    let mut k: usize = 0;
    while k < order.len()
        invariant
            k <= order@.len(),
            order@.map_values(|x: usize| x as int) == ord,
            ord == sort_order(controller_names(state.controllers@)),
            forall|q: int| 0 <= q < order@.len() ==> (#[trigger] order@[q]) < state.controllers@.len(),
            menus_view(new_cache@) == head + controller_sections(*state, ord, k as int),
        decreases order@.len() - k,
    {
        let c = &state.controllers[order[k]];
        assert(ord[k as int] == order@[k as int] as int);
        let ghost before = menus_view(new_cache@);
        if state.selected_controllers.contains(c.name.as_str()) {
            add_scripts_section(state, c, &mut new_cache);
            add_devices_section(state, c, &mut new_cache);
            assert(menus_view(new_cache@) =~= head + controller_sections(*state, ord, k + 1));
        } else {
            assert(menus_view(new_cache@) =~= head + controller_sections(*state, ord, k + 1));
        }
        k = k + 1;
    }
    proof {
        lemma_menus_view_push(new_cache@, CachedMenu::Separator);
    }
    new_cache.push(CachedMenu::Separator);
    let m3 = CachedMenu::Standard { label: string_of("Quit"), enabled: true, action: CachedAction::Quit };
    proof {
        lemma_menus_view_push(new_cache@, m3);
    }
    new_cache.push(m3);
    assert(menus_view(new_cache@) =~= menu_of(*state));
    new_cache
}

} // verus!
