//! The terminal UI's state and what each key does to it. Requests to the
//! API, refreshes and the clock are the application's: a key that needs a
//! request yields an action, and the application reports its outcome back.
use vstd::prelude::*;
use vstd::view::View as _;
use crate::api_client::{
    BLControllerInfo, BLDeviceInfo, BLNode, BLNodeKind, BroadlinkClient, NodeView, node_view,
    nodes_view, lemma_nodes_view_index, display_name,
};
use crate::refresh::{ControllerData, assemble_caches, controllers_of, scripts_map, devices_map, trees_map, nested_view};
use crate::str_map::{StrMap, StrSet};
use crate::text::{string_of, concat2, str_eq};
use crate::tui::config::Config;

verus! {

/// A key press, as the terminal reports it.
#[derive(Debug, Clone, Copy, PartialEq, Eq, Structural)]
pub enum Key {
    Up,
    Down,
    Left,
    Right,
    Enter,
    Backspace,
    Esc,
    Tab,
    Char(char),
    Other,
}

/// What the main area shows.
#[derive(Debug)]
pub enum View {
    Controllers,
    /// The devices of a controller.
    Devices(String),
    /// The commands of a controller's device.
    Commands(String, String),
    /// The scripts of a controller.
    Scripts(String),
    /// The command tree of a controller's device.
    CommandTree(String, String),
}

/// A `View` as a mathematical value.
pub enum ViewV {
    Controllers,
    Devices(Seq<char>),
    Commands(Seq<char>, Seq<char>),
    Scripts(Seq<char>),
    CommandTree(Seq<char>, Seq<char>),
}

impl vstd::view::View for View {
    type V = ViewV;

    open spec fn view(&self) -> ViewV {
        match self {
            View::Controllers => ViewV::Controllers,
            View::Devices(c) => ViewV::Devices(c@),
            View::Commands(c, d) => ViewV::Commands(c@, d@),
            View::Scripts(c) => ViewV::Scripts(c@),
            View::CommandTree(c, d) => ViewV::CommandTree(c@, d@),
        }
    }
}

impl Clone for View {
    fn clone(&self) -> (r: Self)
        ensures
            r == *self,
    {
        match self {
            View::Controllers => View::Controllers,
            View::Devices(c) => View::Devices(c.clone()),
            View::Commands(c, d) => View::Commands(c.clone(), d.clone()),
            View::Scripts(c) => View::Scripts(c.clone()),
            View::CommandTree(c, d) => View::CommandTree(c.clone(), d.clone()),
        }
    }
}

/// A line of the command list: a command, or the header of a group.
#[derive(Debug)]
pub enum CommandListItem {
    Command(BLNode),
    Header(String),
}

/// A `CommandListItem` as a mathematical value.
pub enum ItemV {
    Command(NodeView),
    Header(Seq<char>),
}

impl vstd::view::View for CommandListItem {
    type V = ItemV;

    open spec fn view(&self) -> ItemV {
        match self {
            CommandListItem::Command(n) => ItemV::Command(n@),
            CommandListItem::Header(h) => ItemV::Header(h@),
        }
    }
}

/// The views of a list of items.
pub open spec fn items_view(s: Seq<CommandListItem>) -> Seq<ItemV> {
    s.map_values(|it: CommandListItem| it@)
}

/// The command list of a node: an enabled command gives itself, a disabled
/// one nothing; a group gives its header followed by the lists of its
/// children, or nothing when those are empty.
pub open spec fn collect_items(n: NodeView) -> Seq<ItemV>
    decreases n, 1int,
{
    if n.kind == BLNodeKind::Command {
        if n.disabled {
            Seq::empty()
        } else {
            seq![ItemV::Command(n)]
        }
    } else {
        let g = collect_list(n.children, n.children.len() as int);
        if g.len() > 0 {
            seq![ItemV::Header(display_name(n))] + g
        } else {
            Seq::empty()
        }
    }
}

/// The command lists of the first `k` nodes, one after the other.
pub open spec fn collect_list(ns: Seq<NodeView>, k: int) -> Seq<ItemV>
    decreases ns, k,
{
    if k <= 0 || k > ns.len() {
        Seq::empty()
    } else {
        collect_list(ns, k - 1) + collect_items(ns[k - 1])
    }
}

/// The command at position `i` of a list, if there is one there.
pub open spec fn command_at(items: Seq<ItemV>, i: int) -> Option<NodeView> {
    if 0 <= i < items.len() {
        match items[i] {
            ItemV::Command(n) => Some(n),
            ItemV::Header(_) => None,
        }
    } else {
        None
    }
}

/// The position of the first command at or after `i`, or 0 if none.
pub open spec fn first_command_from(items: Seq<ItemV>, i: int) -> int
    decreases items.len() - i,
{
    if i < 0 || i >= items.len() {
        0
    } else if items[i] is Command {
        i
    } else {
        first_command_from(items, i + 1)
    }
}

/// The position of the last command before `j`, if any.
pub open spec fn prev_command_before(items: Seq<ItemV>, j: int) -> Option<int>
    decreases j,
{
    if j <= 0 {
        None
    } else if items[j - 1] is Command {
        Some(j - 1)
    } else {
        prev_command_before(items, j - 1)
    }
}

/// The position of the first command at or after `j`, if any.
pub open spec fn next_command_from(items: Seq<ItemV>, j: int) -> Option<int>
    decreases items.len() - j,
{
    if j < 0 || j >= items.len() {
        None
    } else if items[j] is Command {
        Some(j)
    } else {
        next_command_from(items, j + 1)
    }
}

/// The first position of a controller named `name`, if any.
pub open spec fn controller_index_from(ctrls: Seq<BLControllerInfo>, name: Seq<char>, p: int) -> Option<
    int,
>
    decreases ctrls.len() - p,
{
    if p < 0 || p >= ctrls.len() {
        None
    } else if ctrls[p].name@ == name {
        Some(p)
    } else {
        controller_index_from(ctrls, name, p + 1)
    }
}

/// The controller that a view belongs to, if any.
pub open spec fn view_controller(view: ViewV) -> Option<Seq<char>> {
    match view {
        ViewV::Controllers => None,
        ViewV::Devices(c) => Some(c),
        ViewV::Commands(c, _) => Some(c),
        ViewV::Scripts(c) => Some(c),
        ViewV::CommandTree(c, _) => Some(c),
    }
}

/// The friendly name of a script, or else its name.
pub open spec fn script_display(s: crate::api_client::BLScript) -> Seq<char> {
    match s.friendly_name {
        Some(f) => f@,
        None => s.name@,
    }
}

/// What the application is to do after a key.
#[derive(Debug)]
pub enum TuiAction {
    Nothing,
    /// Refetch everything and call `finish_refresh`.
    Refresh,
    /// Send a command; `display` names it in the status line.
    SendCommand { controller: String, device: String, command_path: String, display: String },
    /// Run a script; `display` names it in the status line.
    RunScript { controller: String, script: String, display: String },
    /// Remember `controller` as the last selected one in the configuration.
    SaveController { controller: String },
}

/// A `TuiAction` as a mathematical value.
pub enum ActionV {
    Nothing,
    Refresh,
    SendCommand(Seq<char>, Seq<char>, Seq<char>, Seq<char>),
    RunScript(Seq<char>, Seq<char>, Seq<char>),
    SaveController(Seq<char>),
}

impl vstd::view::View for TuiAction {
    type V = ActionV;

    open spec fn view(&self) -> ActionV {
        match self {
            TuiAction::Nothing => ActionV::Nothing,
            TuiAction::Refresh => ActionV::Refresh,
            TuiAction::SendCommand { controller, device, command_path, display } => ActionV::SendCommand(
                controller@,
                device@,
                command_path@,
                display@,
            ),
            TuiAction::RunScript { controller, script, display } => ActionV::RunScript(
                controller@,
                script@,
                display@,
            ),
            TuiAction::SaveController { controller } => ActionV::SaveController(controller@),
        }
    }
}

/// How a request to the API ended.
#[derive(Debug)]
pub enum RequestOutcome {
    /// The API answered with a success status.
    Success,
    /// The API answered with another status.
    Failure,
    /// The request failed; the error's text.
    Error(String),
}

/// The part of the state that keys change.
pub struct Nav {
    pub view: ViewV,
    pub selected_index: usize,
    pub show_popup: bool,
    pub popup_index: usize,
    pub device_selection: Map<Seq<char>, usize>,
    pub is_loading: bool,
    pub status_message: Seq<char>,
    pub status_time: u64,
}

/// The terminal UI's state. `status_time` is the time of the last status
/// message in milliseconds of the application's monotonic clock.
#[derive(Debug)]
pub struct AppState {
    pub client: BroadlinkClient,
    pub controllers: Vec<BLControllerInfo>,
    pub scripts_cache: StrMap<Vec<crate::api_client::BLScript>>,
    pub tree_cache: StrMap<StrMap<BLNode>>,
    pub devices_cache: StrMap<Vec<BLDeviceInfo>>,
    pub is_loading: bool,
    pub selected_controllers: StrSet,
    pub current_view: View,
    pub selected_index: usize,
    pub status_message: String,
    pub status_time: u64,
    pub show_controllers_popup: bool,
    pub controllers_popup_index: usize,
    pub device_selection: StrMap<usize>,
}

/// Whether two states hold the same data: client, controllers, caches and
/// selected controllers.
pub open spec fn same_data(a: AppState, b: AppState) -> bool {
    &&& a.client == b.client
    &&& a.controllers@ == b.controllers@
    &&& a.scripts_cache@ == b.scripts_cache@
    &&& a.tree_cache@ == b.tree_cache@
    &&& a.devices_cache@ == b.devices_cache@
    &&& a.selected_controllers@ == b.selected_controllers@
}

impl AppState {
    /// The part of the state that keys change.
    pub open spec fn nav(self) -> Nav {
        Nav {
            view: self.current_view@,
            selected_index: self.selected_index,
            show_popup: self.show_controllers_popup,
            popup_index: self.controllers_popup_index,
            device_selection: self.device_selection@,
            is_loading: self.is_loading,
            status_message: self.status_message@,
            status_time: self.status_time,
        }
    }

    /// The devices cached for `ctrl`.
    pub open spec fn devices_for(self, ctrl: Seq<char>) -> Seq<BLDeviceInfo> {
        if self.devices_cache@.contains_key(ctrl) {
            self.devices_cache@[ctrl]@
        } else {
            Seq::empty()
        }
    }

    /// The command list of `dev` of `ctrl`, from the cached tree.
    pub open spec fn items_for(self, ctrl: Seq<char>, dev: Seq<char>) -> Seq<ItemV> {
        if self.tree_cache@.contains_key(ctrl) && self.tree_cache@[ctrl]@.contains_key(dev) {
            collect_items(self.tree_cache@[ctrl]@[dev]@)
        } else {
            Seq::empty()
        }
    }

    /// The selection after moving up: in a command list the previous
    /// command, if any; elsewhere one line up, stopping at the top.
    pub open spec fn up_index(self) -> usize {
        match self.current_view@ {
            ViewV::Commands(c, d) => match prev_command_before(
                self.items_for(c, d),
                self.selected_index as int,
            ) {
                Some(j) => j as usize,
                None => self.selected_index,
            },
            _ => if self.selected_index > 0 {
                (self.selected_index - 1) as usize
            } else {
                self.selected_index
            },
        }
    }

    /// The selection after moving down: in a command list the next command,
    /// if any; elsewhere one line down.
    pub open spec fn down_index(self) -> usize {
        match self.current_view@ {
            ViewV::Commands(c, d) => match next_command_from(
                self.items_for(c, d),
                self.selected_index + 1,
            ) {
                Some(j) => j as usize,
                None => self.selected_index,
            },
            _ => (self.selected_index + 1) as usize,
        }
    }

    /// The keys that the navigation cannot handle (its index arithmetic
    /// would overflow or index past the list): moving up in a
    /// command list with the selection past its end, moving down in an
    /// empty command list, moving down elsewhere from the largest index, and
    /// moving down in the controllers popup when there are no controllers.
    pub open spec fn key_panics(self, key: Key) -> bool {
        if self.show_controllers_popup {
            (key == Key::Down || key == Key::Char('j')) && self.controllers@.len() == 0
        } else if key == Key::Up || key == Key::Char('k') {
            match self.current_view@ {
                ViewV::Commands(c, d) => self.selected_index > self.items_for(c, d).len(),
                _ => false,
            }
        } else if key == Key::Down || key == Key::Char('j') {
            match self.current_view@ {
                ViewV::Commands(c, d) => self.items_for(c, d).len() == 0,
                _ => self.selected_index == usize::MAX,
            }
        } else {
            false
        }
    }

    /// What a key does while the controllers popup is open.
    pub open spec fn popup_step(self, key: Key) -> Nav {
        let n = self.nav();
        let i = self.controllers_popup_index;
        if key == Key::Up || key == Key::Char('k') {
            if i > 0 {
                Nav { popup_index: (i - 1) as usize, ..n }
            } else {
                n
            }
        } else if key == Key::Down || key == Key::Char('j') {
            if i < self.controllers@.len() - 1 {
                Nav { popup_index: (i + 1) as usize, ..n }
            } else {
                n
            }
        } else if key == Key::Enter || key == Key::Char('l') {
            if i < self.controllers@.len() {
                Nav {
                    view: ViewV::Devices(self.controllers@[i as int].name@),
                    selected_index: 0,
                    show_popup: false,
                    ..n
                }
            } else {
                Nav { show_popup: false, ..n }
            }
        } else if key == Key::Esc || key == Key::Char('q') || key == Key::Char('h') {
            Nav { show_popup: false, ..n }
        } else {
            n
        }
    }

    /// The action of a key in the controllers popup: choosing a controller
    /// has it remembered.
    pub open spec fn popup_action(self, key: Key) -> ActionV {
        let i = self.controllers_popup_index;
        if (key == Key::Enter || key == Key::Char('l')) && i < self.controllers@.len() {
            ActionV::SaveController(self.controllers@[i as int].name@)
        } else {
            ActionV::Nothing
        }
    }

    /// Switching to the next controller: the devices of the controller after
    /// the current view's (after the last comes the first; the first when
    /// the view belongs to no known controller), which is remembered. With no
    /// controllers nothing happens.
    pub open spec fn tab_step(self) -> (Nav, ActionV) {
        let n = self.nav();
        let ctrls = self.controllers@;
        if ctrls.len() == 0 {
            (n, ActionV::Nothing)
        } else {
            let next = match view_controller(self.current_view@) {
                Some(c) => match controller_index_from(ctrls, c, 0) {
                    Some(i) => (i + 1) % (ctrls.len() as int),
                    None => 0,
                },
                None => 0,
            };
            (
                Nav { view: ViewV::Devices(ctrls[next].name@), selected_index: 0, ..n },
                ActionV::SaveController(ctrls[next].name@),
            )
        }
    }

    /// Going back: from a controller's devices to the previous controller's
    /// (from the first to the last); from commands or a tree to the devices,
    /// at the device that was entered; from scripts to the devices.
    pub open spec fn back_step(self) -> Nav {
        let n = self.nav();
        match self.current_view@ {
            ViewV::Devices(c) => {
                let ctrls = self.controllers@;
                let view = match controller_index_from(ctrls, c, 0) {
                    Some(i) => if i > 0 {
                        ViewV::Devices(ctrls[i - 1].name@)
                    } else {
                        ViewV::Devices(ctrls.last().name@)
                    },
                    None => ViewV::Devices(c),
                };
                Nav { view, selected_index: 0, ..n }
            },
            ViewV::Commands(c, _) | ViewV::CommandTree(c, _) => Nav {
                view: ViewV::Devices(c),
                selected_index: if self.device_selection@.contains_key(c) {
                    self.device_selection@[c]
                } else {
                    0
                },
                ..n
            },
            ViewV::Scripts(c) => Nav { view: ViewV::Devices(c), selected_index: 0, ..n },
            ViewV::Controllers => n,
        }
    }

    /// Entering the selected line: a controller opens its devices (and is
    /// remembered in the configuration); a device opens its commands at the
    /// first command (and its position is remembered); a command with a path
    /// is sent; a script is run.
    pub open spec fn enter_step(self) -> (Nav, ActionV) {
        let n = self.nav();
        let sel = self.selected_index;
        match self.current_view@ {
            ViewV::Controllers => if sel < self.controllers@.len() {
                (
                    Nav {
                        view: ViewV::Devices(self.controllers@[sel as int].name@),
                        selected_index: 0,
                        ..n
                    },
                    ActionV::SaveController(self.controllers@[sel as int].name@),
                )
            } else {
                (n, ActionV::Nothing)
            },
            ViewV::Devices(c) => {
                let devs = self.devices_for(c);
                if sel < devs.len() {
                    let d = devs[sel as int].name@;
                    (
                        Nav {
                            view: ViewV::Commands(c, d),
                            selected_index: first_command_from(self.items_for(c, d), 0) as usize,
                            device_selection: n.device_selection.insert(c, sel),
                            ..n
                        },
                        ActionV::Nothing,
                    )
                } else {
                    (n, ActionV::Nothing)
                }
            },
            ViewV::Commands(c, d) => match command_at(self.items_for(c, d), sel as int) {
                Some(node) => match node.command_path {
                    Some(p) => (n, ActionV::SendCommand(c, d, p, display_name(node))),
                    None => (n, ActionV::Nothing),
                },
                None => (n, ActionV::Nothing),
            },
            ViewV::Scripts(c) => if self.scripts_cache@.contains_key(c) && sel
                < self.scripts_cache@[c]@.len() {
                let s = self.scripts_cache@[c]@[sel as int];
                (n, ActionV::RunScript(c, s.name@, script_display(s)))
            } else {
                (n, ActionV::Nothing)
            },
            ViewV::CommandTree(_, _) => (n, ActionV::Nothing),
        }
    }

    /// What a key does: the new navigation state and the action to perform.
    pub open spec fn key_step(self, key: Key, now: u64) -> (Nav, ActionV) {
        let n = self.nav();
        if self.show_controllers_popup {
            (self.popup_step(key), self.popup_action(key))
        } else if key == Key::Tab {
            self.tab_step()
        } else if key == Key::Up || key == Key::Char('k') {
            (Nav { selected_index: self.up_index(), ..n }, ActionV::Nothing)
        } else if key == Key::Down || key == Key::Char('j') {
            (Nav { selected_index: self.down_index(), ..n }, ActionV::Nothing)
        } else if key == Key::Left || key == Key::Char('h') || key == Key::Backspace || key
            == Key::Char('b') {
            (self.back_step(), ActionV::Nothing)
        } else if key == Key::Right || key == Key::Char('l') || key == Key::Enter {
            self.enter_step()
        } else if key == Key::Char('g') {
            (Nav { selected_index: 0, ..n }, ActionV::Nothing)
        } else if key == Key::Char('G') {
            (Nav { selected_index: usize::MAX, ..n }, ActionV::Nothing)
        } else if key == Key::Char('r') {
            (
                Nav {
                    is_loading: true,
                    status_message: "Loading devices..."@,
                    status_time: now,
                    ..n
                },
                ActionV::Refresh,
            )
        } else if key == Key::Char('d') {
            (Nav { show_popup: true, popup_index: 0, ..n }, ActionV::Nothing)
        } else if key == Key::Char('s') {
            match n.view {
                ViewV::Devices(c) => (
                    Nav { view: ViewV::Scripts(c), selected_index: 0, ..n },
                    ActionV::Nothing,
                ),
                _ => (n, ActionV::Nothing),
            }
        } else {
            (n, ActionV::Nothing)
        }
    }
}

/// The view of an optional node.
pub open spec fn opt_node_view(o: Option<BLNode>) -> Option<NodeView> {
    match o {
        Some(n) => Some(n@),
        None => None,
    }
}

proof fn lemma_items_view_push(s: Seq<CommandListItem>, x: CommandListItem)
    ensures
        items_view(s.push(x)) == items_view(s).push(x@),
{
    assert(items_view(s.push(x)) =~= items_view(s).push(x@));
}

proof fn lemma_items_view_append(s: Seq<CommandListItem>, t: Seq<CommandListItem>)
    ensures
        items_view(s + t) == items_view(s) + items_view(t),
{
    assert(items_view(s + t) =~= items_view(s) + items_view(t));
}

/// The friendly name of a node, or else its name.
fn node_display_name(node: &BLNode) -> (r: String)
    ensures
        r@ == display_name(node@),
{
    match &node.friendly_name {
        Some(f) => f.clone(),
        None => node.name.clone(),
    }
}

/// The shape of a command list: every command in it is an enabled command,
/// and a non-empty list ends with a command (so no group header is left
/// without commands after it).
pub open spec fn well_shaped(items: Seq<ItemV>) -> bool {
    &&& commands_enabled(items)
    &&& items.len() > 0 ==> items.last() is Command
}

/// Every command of the list is an enabled command.
pub open spec fn commands_enabled(items: Seq<ItemV>) -> bool {
    forall|k: int|
        0 <= k < items.len() ==> match #[trigger] items[k] {
            ItemV::Command(c) => c.kind == BLNodeKind::Command && !c.disabled,
            ItemV::Header(_) => true,
        }
}

proof fn lemma_well_shaped_concat(a: Seq<ItemV>, b: Seq<ItemV>)
    requires
        commands_enabled(a),
        well_shaped(b),
        b.len() > 0 || well_shaped(a),
    ensures
        well_shaped(a + b),
{
    assert forall|k: int| 0 <= k < (a + b).len() implies match #[trigger] (a + b)[k] {
        ItemV::Command(c) => c.kind == BLNodeKind::Command && !c.disabled,
        ItemV::Header(_) => true,
    } by {
        if k < a.len() {
            assert((a + b)[k] == a[k]);
        } else {
            assert((a + b)[k] == b[k - a.len()]);
        }
    }
    if b.len() > 0 {
        assert((a + b).last() == b.last());
    } else {
        assert(a + b =~= a);
    }
}

proof fn lemma_item_shape(n: NodeView)
    ensures
        well_shaped(collect_items(n)),
    decreases n, 1int,
{
    if n.kind != BLNodeKind::Command {
        lemma_list_shape(n.children, n.children.len() as int);
        let g = collect_list(n.children, n.children.len() as int);
        if g.len() > 0 {
            let h = seq![ItemV::Header(display_name(n))];
            assert(commands_enabled(h));
            lemma_well_shaped_concat(h, g);
        }
    }
}

proof fn lemma_list_shape(ns: Seq<NodeView>, k: int)
    ensures
        well_shaped(collect_list(ns, k)),
    decreases ns, k,
{
    if k > 0 && k <= ns.len() {
        lemma_list_shape(ns, k - 1);
        lemma_item_shape(ns[k - 1]);
        lemma_well_shaped_concat(collect_list(ns, k - 1), collect_items(ns[k - 1]));
    }
}

/// Law: the command list of a device lists only enabled commands, and every
/// group header in it is followed by commands.
pub proof fn law_command_list_shape(n: NodeView)
    ensures
        well_shaped(collect_items(n)),
{
    lemma_item_shape(n);
}

proof fn lemma_prev_command(items: Seq<ItemV>, j: int)
    requires
        j <= items.len(),
    ensures
        prev_command_before(items, j) matches Some(i) ==> 0 <= i < j && items[i] is Command,
    decreases j,
{
    if j > 0 && !(items[j - 1] is Command) {
        lemma_prev_command(items, j - 1);
    }
}

proof fn lemma_next_command(items: Seq<ItemV>, j: int)
    ensures
        next_command_from(items, j) matches Some(i) ==> j <= i < items.len() && items[i] is Command,
    decreases items.len() - j,
{
    if 0 <= j < items.len() && !(items[j] is Command) {
        lemma_next_command(items, j + 1);
    }
}

/// Law: in a command list, moving up or down never lands on a group
/// header: the selection either stays or moves to a command (up: before
/// it; down: after it).
pub proof fn law_moves_land_on_commands(s: AppState)
    requires
        s.current_view@ is Commands,
        !s.show_controllers_popup,
        !s.key_panics(Key::Up),
        s.items_for(s.current_view@->Commands_0, s.current_view@->Commands_1).len() <= usize::MAX,
    ensures
        ({
            let items = s.items_for(s.current_view@->Commands_0, s.current_view@->Commands_1);
            &&& s.up_index() != s.selected_index ==> s.up_index() < s.selected_index
                && items[s.up_index() as int] is Command
            &&& s.down_index() != s.selected_index ==> s.down_index() > s.selected_index
                && s.down_index() < items.len() && items[s.down_index() as int] is Command
        }),
{
    let c = s.current_view@->Commands_0;
    let d = s.current_view@->Commands_1;
    let items = s.items_for(c, d);
    lemma_prev_command(items, s.selected_index as int);
    lemma_next_command(items, s.selected_index + 1);
}

proof fn lemma_first_command(items: Seq<ItemV>, i: int)
    requires
        0 <= i,
        exists|k: int| i <= k < items.len() && #[trigger] items[k] is Command,
    ensures
        i <= first_command_from(items, i) < items.len(),
        items[first_command_from(items, i)] is Command,
    decreases items.len() - i,
{
    if !(items[i] is Command) {
        let k = choose|k: int| i <= k < items.len() && #[trigger] items[k] is Command;
        assert(k != i);
        lemma_first_command(items, i + 1);
    }
}

/// Law: entering a device selects its first command, when it has one.
pub proof fn law_enter_selects_first_command(items: Seq<ItemV>)
    requires
        exists|k: int| 0 <= k < items.len() && #[trigger] items[k] is Command,
    ensures
        items[first_command_from(items, 0)] is Command,
        forall|k: int| 0 <= k < first_command_from(items, 0) ==> !(#[trigger] items[k] is Command),
{
    lemma_first_command(items, 0);
    lemma_first_command_is_first(items, 0);
}

proof fn lemma_first_command_is_first(items: Seq<ItemV>, i: int)
    requires
        0 <= i,
        exists|k: int| i <= k < items.len() && #[trigger] items[k] is Command,
    ensures
        forall|k: int| i <= k < first_command_from(items, i) ==> !(#[trigger] items[k] is Command),
    decreases items.len() - i,
{
    if !(items[i] is Command) {
        let k = choose|k: int| i <= k < items.len() && #[trigger] items[k] is Command;
        assert(k != i);
        lemma_first_command_is_first(items, i + 1);
    }
}

/// Law: moving up or down outside the controllers popup changes only the
/// selection: the view, the remembered device positions and the rest of the
/// navigation state stay, and nothing is to be done.
pub proof fn law_moves_change_only_the_selection(s: AppState, key: Key, now: u64)
    requires
        !s.show_controllers_popup,
        key == Key::Up || key == Key::Down || key == Key::Char('k') || key == Key::Char('j'),
    ensures
        s.key_step(key, now).0 == (Nav { selected_index: s.key_step(key, now).0.selected_index, ..s.nav() }),
        s.key_step(key, now).1 == ActionV::Nothing,
{
}

/// Law: after entering a device from a controller's device list and moving
/// up and down in its commands any number of times, going back returns to
/// that controller's devices with the entered device selected.
pub proof fn law_back_after_moves_returns_to_entered_device(s1: AppState, s2: AppState, s3: AppState)
    requires
        s1.current_view@ is Devices,
        s1.selected_index < s1.devices_for(s1.current_view@->Devices_0).len(),
        s2.nav() == s1.enter_step().0,
        same_data(s2, s1),
        s3.nav() == (Nav { selected_index: s3.selected_index, ..s2.nav() }),
        same_data(s3, s2),
    ensures
        s3.back_step().view == s1.current_view@,
        s3.back_step().selected_index == s1.selected_index,
{
}

/// The controllers have pairwise different names.
pub open spec fn distinct_names(ctrls: Seq<BLControllerInfo>) -> bool {
    forall|a: int, b: int| 0 <= a < b < ctrls.len() ==> #[trigger] ctrls[a].name@ != #[trigger] ctrls[b].name@
}

proof fn lemma_controller_index(ctrls: Seq<BLControllerInfo>, j: int, p: int)
    requires
        distinct_names(ctrls),
        0 <= p <= j < ctrls.len(),
    ensures
        controller_index_from(ctrls, ctrls[j].name@, p) == Some(j),
    decreases j - p,
{
    if p < j {
        assert(ctrls[p].name@ != ctrls[j].name@);
        lemma_controller_index(ctrls, j, p + 1);
    }
}

/// Law: with controllers of different names, going back from the devices
/// of the controller that Tab switched to returns to the devices of the
/// controller it was pressed on.
pub proof fn law_back_undoes_tab(s1: AppState, s2: AppState, i: int)
    requires
        !s1.show_controllers_popup,
        distinct_names(s1.controllers@),
        0 <= i < s1.controllers@.len(),
        s1.current_view@ == ViewV::Devices(s1.controllers@[i].name@),
        s2.nav() == s1.tab_step().0,
        same_data(s2, s1),
    ensures
        s2.back_step().view == s1.current_view@,
{
    let ctrls = s1.controllers@;
    let n = ctrls.len() as int;
    lemma_controller_index(ctrls, i, 0);
    let next = (i + 1) % n;
    if i + 1 < n {
        assert(next == i + 1) by (nonlinear_arith)
            requires
                next == (i + 1) % n,
                0 <= i + 1 < n,
        ;
    } else {
        assert(next == 0) by (nonlinear_arith)
            requires
                next == (i + 1) % n,
                i + 1 == n,
                n > 0,
        ;
    }
    lemma_controller_index(ctrls, next, 0);
}

/// The enabled commands of a tree, at every depth, in tree order.
pub open spec fn enabled_commands(n: NodeView) -> Seq<NodeView>
    decreases n, 1int,
{
    match n.kind {
        BLNodeKind::Command => if n.disabled {
            Seq::empty()
        } else {
            seq![n]
        },
        BLNodeKind::Group => enabled_commands_of(n.children, n.children.len() as int),
    }
}

/// The enabled commands of the first `k` trees of `ns`, one tree after the
/// other.
pub open spec fn enabled_commands_of(ns: Seq<NodeView>, k: int) -> Seq<NodeView>
    decreases ns, k,
{
    if k <= 0 || k > ns.len() {
        Seq::empty()
    } else {
        enabled_commands_of(ns, k - 1) + enabled_commands(ns[k - 1])
    }
}

/// The commands that a list shows, in list order (headers left out).
pub open spec fn commands_in(items: Seq<ItemV>) -> Seq<NodeView>
    decreases items.len(),
{
    if items.len() == 0 {
        Seq::empty()
    } else {
        commands_in(items.drop_last()) + match items.last() {
            ItemV::Command(c) => seq![c],
            ItemV::Header(_) => Seq::empty(),
        }
    }
}

proof fn lemma_commands_in_concat(a: Seq<ItemV>, b: Seq<ItemV>)
    ensures
        commands_in(a + b) == commands_in(a) + commands_in(b),
    decreases b.len(),
{
    if b.len() == 0 {
        assert(a + b =~= a);
        assert(commands_in(a) + commands_in(b) =~= commands_in(a));
    } else {
        lemma_commands_in_concat(a, b.drop_last());
        assert((a + b).drop_last() =~= a + b.drop_last());
        assert((a + b).last() == b.last());
        let t = match b.last() {
            ItemV::Command(c) => seq![c],
            ItemV::Header(_) => Seq::<NodeView>::empty(),
        };
        assert(commands_in(a) + commands_in(b.drop_last()) + t =~= commands_in(a) + (commands_in(
            b.drop_last(),
        ) + t));
    }
}

proof fn lemma_item_commands(n: NodeView)
    ensures
        commands_in(collect_items(n)) == enabled_commands(n),
    decreases n, 1int,
{
    if n.kind == BLNodeKind::Command {
        if n.disabled {
            assert(commands_in(Seq::<ItemV>::empty()) =~= Seq::<NodeView>::empty());
        } else {
            let one = seq![ItemV::Command(n)];
            assert(one.drop_last() =~= Seq::<ItemV>::empty());
            assert(commands_in(one.drop_last()) =~= Seq::<NodeView>::empty());
            assert(one.last() == ItemV::Command(n));
            assert(commands_in(one) =~= seq![n]);
        }
    } else {
        lemma_list_commands(n.children, n.children.len() as int);
        let g = collect_list(n.children, n.children.len() as int);
        if g.len() > 0 {
            let h = seq![ItemV::Header(display_name(n))];
            lemma_commands_in_concat(h, g);
            assert(h.drop_last() =~= Seq::<ItemV>::empty());
            assert(commands_in(h.drop_last()) =~= Seq::<NodeView>::empty());
            assert(h.last() == ItemV::Header(display_name(n)));
            assert(commands_in(h) =~= Seq::<NodeView>::empty());
            assert(commands_in(h) + commands_in(g) =~= commands_in(g));
        } else {
            assert(g =~= Seq::<ItemV>::empty());
        }
    }
}

proof fn lemma_list_commands(ns: Seq<NodeView>, k: int)
    ensures
        commands_in(collect_list(ns, k)) == enabled_commands_of(ns, k),
    decreases ns, k,
{
    if k > 0 && k <= ns.len() {
        lemma_list_commands(ns, k - 1);
        lemma_item_commands(ns[k - 1]);
        lemma_commands_in_concat(collect_list(ns, k - 1), collect_items(ns[k - 1]));
    }
}

/// Law: the command list of a device shows exactly the enabled commands of
/// its tree, at every depth and in tree order: none is dropped, none is
/// repeated, and no disabled command is shown.
pub proof fn law_command_list_shows_every_enabled_command(n: NodeView)
    ensures
        commands_in(collect_items(n)) == enabled_commands(n),
{
    lemma_item_commands(n);
}

/// Law: outside a command list and outside the controllers popup, Up moves
/// the selection one line up (staying on the first line), Down one line
/// down, and nothing else changes.
pub proof fn law_up_and_down_move_one_line(s: AppState, now: u64)
    requires
        !s.show_controllers_popup,
        !(s.current_view@ is Commands),
    ensures
        s.key_step(Key::Up, now).0 == (Nav {
            selected_index: if s.selected_index > 0 {
                (s.selected_index - 1) as usize
            } else {
                0
            },
            ..s.nav()
        }),
        s.selected_index < usize::MAX ==> s.key_step(Key::Down, now).0 == (Nav {
            selected_index: (s.selected_index + 1) as usize,
            ..s.nav()
        }),
{
}

/// Law: outside a command list and outside the controllers popup, Up and
/// then Down returns to the line the selection was on (when it was not on
/// the first line).
pub proof fn law_up_then_down_returns(s1: AppState, s2: AppState, now: u64)
    requires
        !s1.show_controllers_popup,
        !(s1.current_view@ is Commands),
        s1.selected_index > 0,
        s2.nav() == s1.key_step(Key::Up, now).0,
        same_data(s2, s1),
    ensures
        s2.key_step(Key::Down, now).0 == s1.nav(),
{
}

/// Law: Enter in the scripts view of a controller runs the script on the
/// selected line of that controller's cached scripts, named by its friendly
/// name or else its name, and leaves the navigation as it is.
pub proof fn law_enter_runs_the_selected_script(s: AppState, now: u64)
    requires
        !s.show_controllers_popup,
        s.current_view@ is Scripts,
        s.scripts_cache@.contains_key(s.current_view@->Scripts_0),
        s.selected_index < s.scripts_cache@[s.current_view@->Scripts_0]@.len(),
    ensures
        ({
            let c = s.current_view@->Scripts_0;
            let script = s.scripts_cache@[c]@[s.selected_index as int];
            &&& s.key_step(Key::Enter, now).0 == s.nav()
            &&& s.key_step(Key::Enter, now).1 == ActionV::RunScript(
                c,
                script.name@,
                match script.friendly_name {
                    Some(f) => f@,
                    None => script.name@,
                },
            )
        }),
{
}

/// Law: Enter on a line of a command list that holds a command with a path
/// sends that command (its path, to the list's controller and device, named
/// by its friendly name or else its name); on any other line it does
/// nothing. The navigation stays as it is.
pub proof fn law_enter_sends_the_selected_command(s: AppState, now: u64)
    requires
        !s.show_controllers_popup,
        s.current_view@ is Commands,
    ensures
        ({
            let c = s.current_view@->Commands_0;
            let d = s.current_view@->Commands_1;
            let items = s.items_for(c, d);
            let i = s.selected_index as int;
            &&& s.key_step(Key::Enter, now).0 == s.nav()
            &&& s.key_step(Key::Enter, now).1 == if i < items.len() && items[i] is Command
                && items[i]->Command_0.command_path is Some {
                let node = items[i]->Command_0;
                ActionV::SendCommand(
                    c,
                    d,
                    node.command_path->Some_0,
                    match node.friendly_name {
                        Some(f) => f,
                        None => node.name,
                    },
                )
            } else {
                ActionV::Nothing
            }
        }),
{
}

/// Law: Enter on a line of the controllers view opens that controller's
/// devices at the first line and has the controller remembered; Enter on a
/// line of a controller's devices opens that device's commands and
/// remembers the line for going back.
pub proof fn law_enter_opens_the_selected_line(s: AppState, now: u64)
    requires
        !s.show_controllers_popup,
    ensures
        s.current_view@ is Controllers && s.selected_index < s.controllers@.len() ==> {
            let name = s.controllers@[s.selected_index as int].name@;
            &&& s.key_step(Key::Enter, now).0.view == ViewV::Devices(name)
            &&& s.key_step(Key::Enter, now).0.selected_index == 0
            &&& s.key_step(Key::Enter, now).1 == ActionV::SaveController(name)
        },
        s.current_view@ is Devices && s.selected_index < s.devices_for(
            s.current_view@->Devices_0,
        ).len() ==> {
            let c = s.current_view@->Devices_0;
            let d = s.devices_for(c)[s.selected_index as int].name@;
            &&& s.key_step(Key::Enter, now).0.view == ViewV::Commands(c, d)
            &&& s.key_step(Key::Enter, now).0.device_selection == s.device_selection@.insert(
                c,
                s.selected_index,
            )
            &&& s.key_step(Key::Enter, now).1 == ActionV::Nothing
        },
{
}

/// Law: outside the controllers popup the vim keys do what the arrows do:
/// `k` is up, `j` is down, `h` (and `b`, Backspace) is left, `l` (and
/// Enter) is right.
pub proof fn law_vim_keys(s: AppState, now: u64)
    requires
        !s.show_controllers_popup,
    ensures
        s.key_step(Key::Char('k'), now) == s.key_step(Key::Up, now),
        s.key_step(Key::Char('j'), now) == s.key_step(Key::Down, now),
        s.key_step(Key::Char('h'), now) == s.key_step(Key::Left, now),
        s.key_step(Key::Char('b'), now) == s.key_step(Key::Left, now),
        s.key_step(Key::Backspace, now) == s.key_step(Key::Left, now),
        s.key_step(Key::Char('l'), now) == s.key_step(Key::Right, now),
        s.key_step(Key::Enter, now) == s.key_step(Key::Right, now),
        s.key_panics(Key::Char('k')) == s.key_panics(Key::Up),
        s.key_panics(Key::Char('j')) == s.key_panics(Key::Down),
        !s.key_panics(Key::Char('h')) && !s.key_panics(Key::Left),
        !s.key_panics(Key::Char('b')) && !s.key_panics(Key::Backspace),
        !s.key_panics(Key::Char('l')) && !s.key_panics(Key::Right) && !s.key_panics(Key::Enter),
{
}

/// Law: in the controllers popup `k` and `j` move like the arrows and `l`
/// switches like Enter.
pub proof fn law_popup_vim_keys(s: AppState, now: u64)
    requires
        s.show_controllers_popup,
    ensures
        s.key_step(Key::Char('k'), now) == s.key_step(Key::Up, now),
        s.key_step(Key::Char('j'), now) == s.key_step(Key::Down, now),
        s.key_step(Key::Char('l'), now) == s.key_step(Key::Enter, now),
{
}

impl AppState {
    /// The state after start-up with `config`, at time `now`: no data yet,
    /// the controllers view, and the configured selection of controllers.
    pub fn new(config: Config, now: u64) -> (r: Self)
        ensures
            r.client.host == config.host,
            r.client.port == config.port,
            r.controllers@.len() == 0,
            r.scripts_cache@ == Map::<Seq<char>, Vec<crate::api_client::BLScript>>::empty(),
            r.tree_cache@ == Map::<Seq<char>, StrMap<BLNode>>::empty(),
            r.devices_cache@ == Map::<Seq<char>, Vec<BLDeviceInfo>>::empty(),
            r.selected_controllers@ == config.selected_controllers@,
            r.nav() == (Nav {
                view: ViewV::Controllers,
                selected_index: 0,
                show_popup: false,
                popup_index: 0,
                device_selection: Map::empty(),
                is_loading: false,
                status_message: Seq::empty(),
                status_time: now,
            }),
    {
        AppState {
            client: BroadlinkClient::new(config.host, config.port),
            controllers: Vec::new(),
            scripts_cache: StrMap::new(),
            tree_cache: StrMap::new(),
            devices_cache: StrMap::new(),
            is_loading: false,
            selected_controllers: config.selected_controllers,
            current_view: View::Controllers,
            selected_index: 0,
            status_message: String::new(),
            status_time: now,
            show_controllers_popup: false,
            controllers_popup_index: 0,
            device_selection: StrMap::new(),
        }
    }

    /// Shows `msg` in the status line from time `now` on.
    pub fn set_status(&mut self, msg: &str, now: u64)
        ensures
            final(self).nav() == (Nav { status_message: msg@, status_time: now, ..old(self).nav() }),
            same_data(*final(self), *old(self)),
    {
        self.status_message = string_of(msg);
        self.status_time = now;
    }

    /// Whether the status message is less than three seconds old at `now`
    /// (a time before the message counts as no time).
    pub fn status_is_fresh(&self, now: u64) -> (r: bool)
        ensures
            r == (now < self.status_time + 3000),
    {
        let elapsed = if now > self.status_time {
            now - self.status_time
        } else {
            0
        };
        elapsed < 3000
    }

    /// Marks the start of a refresh at `now`.
    pub fn begin_refresh(&mut self, now: u64)
        ensures
            final(self).nav() == (Nav {
                is_loading: true,
                status_message: "Loading devices..."@,
                status_time: now,
                ..old(self).nav()
            }),
            same_data(*final(self), *old(self)),
    {
        self.is_loading = true;
        self.set_status("Loading devices...", now);
    }

    /// Ends a refresh at `now` with what was fetched, per controller: the
    /// controllers and caches are replaced, loading ends, and the view moves
    /// to the first controller's devices, if there is one.
    pub fn finish_refresh(&mut self, data: Vec<ControllerData>, now: u64)
        ensures
            final(self).controllers@ == controllers_of(data@),
            final(self).scripts_cache@ == scripts_map(data@, data@.len() as int),
            final(self).devices_cache@ == devices_map(data@, data@.len() as int),
            nested_view(final(self).tree_cache@) == trees_map(data@, data@.len() as int),
            final(self).client == old(self).client,
            final(self).selected_controllers@ == old(self).selected_controllers@,
            final(self).nav() == (Nav {
                is_loading: false,
                status_message: "Devices loaded"@,
                status_time: now,
                view: if data@.len() > 0 {
                    ViewV::Devices(data@[0].controller.name@)
                } else {
                    old(self).nav().view
                },
                selected_index: if data@.len() > 0 {
                    0
                } else {
                    old(self).selected_index
                },
                ..old(self).nav()
            }),
    {
        let caches = assemble_caches(data);
        self.controllers = caches.controllers;
        self.scripts_cache = caches.scripts;
        self.tree_cache = caches.trees;
        self.devices_cache = caches.devices;
        self.is_loading = false;
        self.set_status("Devices loaded", now);
        if self.controllers.len() > 0 {
            self.current_view = View::Devices(self.controllers[0].name.clone());
            self.selected_index = 0;
        }
    }

    /// Appends to `items` the command list of `node`.
    pub fn collect_commands_with_headers(node: &BLNode, items: &mut Vec<CommandListItem>)
        ensures
            items_view(final(items)@) == items_view(old(items)@) + collect_items(node@),
        decreases node,
    {
        if node.kind == BLNodeKind::Command {
            if !node.disabled {
                let c = CommandListItem::Command(node.clone());
                proof {
                    lemma_items_view_push(items@, c);
                }
                items.push(c);
            } else {
                assert(items_view(items@) + collect_items(node@) =~= items_view(items@));
            }
        } else {
            let mut group_items: Vec<CommandListItem> = Vec::new();
            let ghost kids = nodes_view(node.children@);
            proof {
                lemma_nodes_view_index(node.children@);
            }
            let mut i: usize = 0;
            while i < node.children.len()
                invariant
                    i <= node.children@.len(),
                    kids == nodes_view(node.children@),
                    kids.len() == node.children@.len(),
                    forall|q: int| 0 <= q < node.children@.len() ==> #[trigger] kids[q] == node_view(
                        node.children@[q],
                    ),
                    items_view(group_items@) == collect_list(kids, i as int),
                decreases node.children@.len() - i,
            {
                Self::collect_commands_with_headers(&node.children[i], &mut group_items);
                i = i + 1;
            }
            if group_items.len() > 0 {
                let h = CommandListItem::Header(node_display_name(node));
                proof {
                    lemma_items_view_push(items@, h);
                    lemma_items_view_append(items@.push(h), group_items@);
                    assert(items_view(items@.push(h)) + items_view(group_items@) =~= items_view(
                        items@,
                    ) + collect_items(node@));
                }
                items.push(h);
                items.append(&mut group_items);
            } else {
                assert(items_view(items@) + collect_items(node@) =~= items_view(items@));
            }
        }
    }

    /// The command list of `device` of `controller`, from the cached tree.
    pub fn get_commands_for_device(&self, controller: &str, device: &str) -> (r: Vec<
        CommandListItem,
    >)
        ensures
            items_view(r@) == self.items_for(controller@, device@),
    {
        let mut items: Vec<CommandListItem> = Vec::new();
        if let Some(trees) = self.tree_cache.get(controller) {
            if let Some(root) = trees.get(device) {
                Self::collect_commands_with_headers(root, &mut items);
                assert(items_view(items@) =~= self.items_for(controller@, device@));
                return items;
            }
        }
        assert(items_view(items@) =~= self.items_for(controller@, device@));
        items
    }

    /// The command at position `index` of the command list, if there is one
    /// there.
    pub fn get_command_at_index(&self, controller: &str, device: &str, index: usize) -> (r: Option<
        BLNode,
    >)
        ensures
            opt_node_view(r) == command_at(self.items_for(controller@, device@), index as int),
    {
        let items = self.get_commands_for_device(controller, device);
        if index < items.len() {
            assert(items_view(items@)[index as int] == items@[index as int]@);
            match &items[index] {
                CommandListItem::Command(node) => Some(node.clone()),
                CommandListItem::Header(_) => None,
            }
        } else {
            None
        }
    }

    /// The position of the first command of the list, or 0.
    fn find_first_command_index(&self, controller: &str, device: &str) -> (r: usize)
        ensures
            r == first_command_from(self.items_for(controller@, device@), 0),
    {
        let items = self.get_commands_for_device(controller, device);
        let ghost iv = items_view(items@);
        let mut i: usize = 0;
        while i < items.len()
            invariant
                iv == items_view(items@),
                iv == self.items_for(controller@, device@),
                i <= items@.len(),
                first_command_from(iv, 0) == first_command_from(iv, i as int),
            decreases items@.len() - i,
        {
            assert(iv[i as int] == items@[i as int]@);
            if let CommandListItem::Command(_) = &items[i] {
                return i;
            }
            i = i + 1;
        }
        0
    }

    /// The devices cached for `controller`.
    pub fn get_devices_for_controller(&self, controller: &str) -> (r: Vec<BLDeviceInfo>)
        ensures
            r@ == self.devices_for(controller@),
    {
        let mut out: Vec<BLDeviceInfo> = Vec::new();
        if let Some(devs) = self.devices_cache.get(controller) {
            let mut i: usize = 0;
            while i < devs.len()
                invariant
                    i <= devs@.len(),
                    out@ == devs@.take(i as int),
                decreases devs@.len() - i,
            {
                out.push(devs[i].clone());
                assert(devs@.take(i + 1) =~= devs@.take(i as int).push(devs@[i as int]));
                i = i + 1;
            }
            assert(devs@.take(devs@.len() as int) =~= devs@);
        }
        out
    }

    /// The friendly name of a node, or else its name.
    pub fn get_command_display_name(&self, node: &BLNode) -> (r: String)
        ensures
            r@ == display_name(node@),
    {
        node_display_name(node)
    }

    /// Whether `key` can be handled: `key_panics` does not hold of it.
    pub fn key_is_safe(&self, key: Key) -> (r: bool)
        ensures
            r == !self.key_panics(key),
    {
        if self.show_controllers_popup {
            !((key == Key::Down || key == Key::Char('j')) && self.controllers.len() == 0)
        } else if key == Key::Up || key == Key::Char('k') {
            match &self.current_view {
                View::Commands(c, d) => {
                    let items = self.get_commands_for_device(c.as_str(), d.as_str());
                    self.selected_index <= items.len()
                },
                _ => true,
            }
        } else if key == Key::Down || key == Key::Char('j') {
            match &self.current_view {
                View::Commands(c, d) => {
                    let items = self.get_commands_for_device(c.as_str(), d.as_str());
                    items.len() != 0
                },
                _ => self.selected_index != usize::MAX,
            }
        } else {
            true
        }
    }

    fn navigate_up(&mut self)
        requires
            !old(self).show_controllers_popup,
            !old(self).key_panics(Key::Up),
        ensures
            final(self).nav() == (Nav { selected_index: old(self).up_index(), ..old(self).nav() }),
            same_data(*final(self), *old(self)),
    {
        let found = match &self.current_view {
            View::Commands(ctrl, dev) => {
                let items = self.get_commands_for_device(ctrl.as_str(), dev.as_str());
                let ghost iv = items_view(items@);
                let mut idx = self.selected_index;
                let mut res: Option<usize> = None;
                while idx > 0 && res.is_none()
                    invariant
                        iv == items_view(items@),
                        idx <= items@.len(),
                        res.is_none() ==> prev_command_before(iv, self.selected_index as int)
                            == prev_command_before(iv, idx as int),
                        res matches Some(j) ==> prev_command_before(iv, self.selected_index as int)
                            == Some(j as int),
                    decreases idx,
                {
                    idx = idx - 1;
                    assert(iv[idx as int] == items@[idx as int]@);
                    if let CommandListItem::Command(_) = &items[idx] {
                        res = Some(idx);
                    }
                }
                match res {
                    Some(j) => Some(j),
                    None => Some(self.selected_index),
                }
            },
            _ => None,
        };
        match found {
            Some(j) => {
                self.selected_index = j;
            },
            None => {
                if self.selected_index > 0 {
                    self.selected_index = self.selected_index - 1;
                }
            },
        }
    }
}

/// The first position of a controller named `name`, if any.
fn find_controller(ctrls: &Vec<BLControllerInfo>, name: &str) -> (r: Option<usize>)
    ensures
        match r {
            Some(p) => controller_index_from(ctrls@, name@, 0) == Some(p as int) && p < ctrls@.len(),
            None => controller_index_from(ctrls@, name@, 0) is None,
        },
{
    let mut i: usize = 0;
    while i < ctrls.len()
        invariant
            i <= ctrls@.len(),
            controller_index_from(ctrls@, name@, 0) == controller_index_from(ctrls@, name@, i as int),
        decreases ctrls@.len() - i,
    {
        if str_eq(ctrls[i].name.as_str(), name) {
            return Some(i);
        }
        i = i + 1;
    }
    None
}

/// The friendly name of a script, or else its name.
fn script_display_name(script: &crate::api_client::BLScript) -> (r: String)
    ensures
        r@ == script_display(*script),
{
    match &script.friendly_name {
        Some(f) => f.clone(),
        None => script.name.clone(),
    }
}

impl AppState {
    fn navigate_down(&mut self)
        requires
            !old(self).show_controllers_popup,
            !old(self).key_panics(Key::Down),
        ensures
            final(self).nav() == (Nav { selected_index: old(self).down_index(), ..old(self).nav() }),
            same_data(*final(self), *old(self)),
    {
        let found = match &self.current_view {
            View::Commands(ctrl, dev) => {
                let items = self.get_commands_for_device(ctrl.as_str(), dev.as_str());
                let ghost iv = items_view(items@);
                let mut idx = self.selected_index;
                let mut res: Option<usize> = None;
                assert(items@.len() > 0);
                while idx < items.len() - 1 && res.is_none()
                    invariant
                        iv == items_view(items@),
                        items@.len() > 0,
                        self.selected_index <= idx,
                        res.is_none() ==> next_command_from(iv, self.selected_index + 1)
                            == next_command_from(iv, idx + 1),
                        res matches Some(j) ==> next_command_from(iv, self.selected_index + 1)
                            == Some(j as int),
                    decreases items@.len() - idx,
                {
                    idx = idx + 1;
                    assert(iv[idx as int] == items@[idx as int]@);
                    if let CommandListItem::Command(_) = &items[idx] {
                        res = Some(idx);
                    }
                }
                match res {
                    Some(j) => Some(j),
                    None => Some(self.selected_index),
                }
            },
            _ => None,
        };
        match found {
            Some(j) => {
                self.selected_index = j;
            },
            None => {
                self.selected_index = self.selected_index + 1;
            },
        }
    }

    fn handle_controllers_popup_key(&mut self, key: Key) -> (r: TuiAction)
        requires
            old(self).show_controllers_popup,
            !old(self).key_panics(key),
        ensures
            final(self).nav() == old(self).popup_step(key),
            r@ == old(self).popup_action(key),
            same_data(*final(self), *old(self)),
    {
        let mut action = TuiAction::Nothing;
        if key == Key::Up || key == Key::Char('k') {
            if self.controllers_popup_index > 0 {
                self.controllers_popup_index = self.controllers_popup_index - 1;
            }
        } else if key == Key::Down || key == Key::Char('j') {
            if self.controllers_popup_index < self.controllers.len() - 1 {
                self.controllers_popup_index = self.controllers_popup_index + 1;
            }
        } else if key == Key::Enter || key == Key::Char('l') {
            if self.controllers_popup_index < self.controllers.len() {
                let name = self.controllers[self.controllers_popup_index].name.clone();
                action = TuiAction::SaveController { controller: name.clone() };
                self.current_view = View::Devices(name);
                self.selected_index = 0;
            }
            self.show_controllers_popup = false;
        } else if key == Key::Esc || key == Key::Char('q') || key == Key::Char('h') {
            self.show_controllers_popup = false;
        }
        action
    }

    fn handle_tab(&mut self) -> (r: TuiAction)
        ensures
            final(self).nav() == old(self).tab_step().0,
            r@ == old(self).tab_step().1,
            same_data(*final(self), *old(self)),
    {
        let n = self.controllers.len();
        if n == 0 {
            return TuiAction::Nothing;
        }
        let pos = match &self.current_view {
            View::Controllers => None,
            View::Devices(c) => find_controller(&self.controllers, c.as_str()),
            View::Commands(c, _) => find_controller(&self.controllers, c.as_str()),
            View::Scripts(c) => find_controller(&self.controllers, c.as_str()),
            View::CommandTree(c, _) => find_controller(&self.controllers, c.as_str()),
        };
        let next: usize = match pos {
            Some(i) => (i + 1) % n,
            None => 0,
        };
        let name = self.controllers[next].name.clone();
        self.current_view = View::Devices(name.clone());
        self.selected_index = 0;
        TuiAction::SaveController { controller: name }
    }

    fn handle_back(&mut self)
        ensures
            final(self).nav() == old(self).back_step(),
            same_data(*final(self), *old(self)),
    {
        let ghost n = self.nav();
        let mut new_view: Option<View> = None;
        let mut new_index: usize = self.selected_index;
        match &self.current_view {
            View::Devices(ctrl_name) => {
                let pos = find_controller(&self.controllers, ctrl_name.as_str());
                if let Some(p) = pos {
                    if p > 0 {
                        new_view = Some(View::Devices(self.controllers[p - 1].name.clone()));
                    } else {
                        let last = self.controllers.len() - 1;
                        new_view = Some(View::Devices(self.controllers[last].name.clone()));
                    }
                }
                new_index = 0;
            },
            View::Commands(ctrl_name, _) | View::CommandTree(ctrl_name, _) => {
                let ctrl = ctrl_name.clone();
                new_index = match self.device_selection.get(ctrl.as_str()) {
                    Some(idx) => *idx,
                    None => 0,
                };
                new_view = Some(View::Devices(ctrl));
            },
            View::Scripts(ctrl_name) => {
                new_view = Some(View::Devices(ctrl_name.clone()));
                new_index = 0;
            },
            View::Controllers => {},
        }
        if let Some(v) = new_view {
            self.current_view = v;
        }
        self.selected_index = new_index;
    }

    fn handle_enter(&mut self) -> (r: TuiAction)
        ensures
            final(self).nav() == old(self).enter_step().0,
            r@ == old(self).enter_step().1,
            same_data(*final(self), *old(self)),
    {
        let sel = self.selected_index;
        match &self.current_view {
            View::Controllers => {
                if sel < self.controllers.len() {
                    let name = self.controllers[sel].name.clone();
                    self.current_view = View::Devices(name.clone());
                    self.selected_index = 0;
                    TuiAction::SaveController { controller: name }
                } else {
                    TuiAction::Nothing
                }
            },
            View::Devices(ctrl_name) => {
                let ctrl = ctrl_name.clone();
                let devices = self.get_devices_for_controller(ctrl.as_str());
                if sel < devices.len() {
                    let dev_name = devices[sel].name.clone();
                    self.device_selection.insert(ctrl.clone(), sel);
                    let first = self.find_first_command_index(ctrl.as_str(), dev_name.as_str());
                    self.current_view = View::Commands(ctrl, dev_name);
                    self.selected_index = first;
                }
                TuiAction::Nothing
            },
            View::Commands(ctrl_name, dev_name) => {
                match self.get_command_at_index(ctrl_name.as_str(), dev_name.as_str(), sel) {
                    Some(node) => match &node.command_path {
                        Some(p) => TuiAction::SendCommand {
                            controller: ctrl_name.clone(),
                            device: dev_name.clone(),
                            command_path: p.clone(),
                            display: self.get_command_display_name(&node),
                        },
                        None => TuiAction::Nothing,
                    },
                    None => TuiAction::Nothing,
                }
            },
            View::Scripts(ctrl_name) => {
                match self.scripts_cache.get(ctrl_name.as_str()) {
                    Some(scripts) => {
                        if sel < scripts.len() {
                            let script = &scripts[sel];
                            TuiAction::RunScript {
                                controller: ctrl_name.clone(),
                                script: script.name.clone(),
                                display: script_display_name(script),
                            }
                        } else {
                            TuiAction::Nothing
                        }
                    },
                    None => TuiAction::Nothing,
                }
            },
            View::CommandTree(_, _) => TuiAction::Nothing,
        }
    }

    /// Handles a key at time `now`: changes the navigation state as
    /// `key_step` says and returns the action that the application is to
    /// perform. The data (client, controllers, caches, selection of
    /// controllers) is left as it is.
    pub fn handle_key(&mut self, key: Key, now: u64) -> (r: TuiAction)
        requires
            !old(self).key_panics(key),
        ensures
            final(self).nav() == old(self).key_step(key, now).0,
            r@ == old(self).key_step(key, now).1,
            same_data(*final(self), *old(self)),
    {
        if self.show_controllers_popup {
            return self.handle_controllers_popup_key(key);
        }
        if key == Key::Tab {
            self.handle_tab()
        } else if key == Key::Up || key == Key::Char('k') {
            self.navigate_up();
            TuiAction::Nothing
        } else if key == Key::Down || key == Key::Char('j') {
            self.navigate_down();
            TuiAction::Nothing
        } else if key == Key::Left || key == Key::Char('h') || key == Key::Backspace || key
            == Key::Char('b') {
            self.handle_back();
            TuiAction::Nothing
        } else if key == Key::Right || key == Key::Char('l') || key == Key::Enter {
            self.handle_enter()
        } else if key == Key::Char('g') {
            self.selected_index = 0;
            TuiAction::Nothing
        } else if key == Key::Char('G') {
            self.selected_index = usize::MAX;
            TuiAction::Nothing
        } else if key == Key::Char('r') {
            self.begin_refresh(now);
            TuiAction::Refresh
        } else if key == Key::Char('d') {
            self.show_controllers_popup = true;
            self.controllers_popup_index = 0;
            TuiAction::Nothing
        } else if key == Key::Char('s') {
            let next = match &self.current_view {
                View::Devices(ctrl_name) => Some(View::Scripts(ctrl_name.clone())),
                _ => None,
            };
            if let Some(v) = next {
                self.current_view = v;
                self.selected_index = 0;
            }
            TuiAction::Nothing
        } else {
            TuiAction::Nothing
        }
    }

    /// Reports in the status line, at time `now`, how the request of
    /// `action` ended: "Command sent: <name>" / "Command failed" for a
    /// command, "Script executed: <name>" / "Script failed" for a script,
    /// "Error: <error>" when the request failed. Other actions leave the
    /// state as it is.
    pub fn finish_action(&mut self, action: &TuiAction, outcome: &RequestOutcome, now: u64)
        ensures
            same_data(*final(self), *old(self)),
            final(self).nav() == match action@ {
                ActionV::SendCommand(_, _, _, display) => Nav {
                    status_message: match outcome {
                        RequestOutcome::Success => "Command sent: "@ + display,
                        RequestOutcome::Failure => "Command failed"@,
                        RequestOutcome::Error(e) => "Error: "@ + e@,
                    },
                    status_time: now,
                    ..old(self).nav()
                },
                ActionV::RunScript(_, _, display) => Nav {
                    status_message: match outcome {
                        RequestOutcome::Success => "Script executed: "@ + display,
                        RequestOutcome::Failure => "Script failed"@,
                        RequestOutcome::Error(e) => "Error: "@ + e@,
                    },
                    status_time: now,
                    ..old(self).nav()
                },
                _ => old(self).nav(),
            },
    {
        match action {
            TuiAction::SendCommand { display, .. } => {
                let msg = match outcome {
                    RequestOutcome::Success => concat2("Command sent: ", display.as_str()),
                    RequestOutcome::Failure => string_of("Command failed"),
                    RequestOutcome::Error(e) => concat2("Error: ", e.as_str()),
                };
                self.set_status(msg.as_str(), now);
            },
            TuiAction::RunScript { display, .. } => {
                let msg = match outcome {
                    RequestOutcome::Success => concat2("Script executed: ", display.as_str()),
                    RequestOutcome::Failure => string_of("Script failed"),
                    RequestOutcome::Error(e) => concat2("Error: ", e.as_str()),
                };
                self.set_status(msg.as_str(), now);
            },
            _ => {},
        }
    }
}

} // verus!
