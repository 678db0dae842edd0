//! The text that the terminal UI shows: titles, list lines, tabs, the
//! status line and the place of the controllers popup. Drawing it is the
//! application's.
use vstd::prelude::*;
use vstd::view::View as _;
use crate::api_client::{BLControllerInfo, BLDeviceInfo, BLScript, display_name};
use crate::text::{str_eq, string_of, concat2, concat3};
use crate::tui::state::{AppState, View, ViewV, CommandListItem, ItemV, view_controller};

verus! {

/// The name shown for a controller: its friendly name, or else its name.
pub open spec fn controller_shown(c: BLControllerInfo) -> Seq<char> {
    match c.friendly_name {
        Some(f) => f@,
        None => c.name@,
    }
}

/// The friendly name of the first controller named `name`; `name` itself
/// when there is no such controller or it has no friendly name.
pub open spec fn controller_friendly_from(cs: Seq<BLControllerInfo>, name: Seq<char>, p: int) -> Seq<char>
    decreases cs.len() - p,
{
    if p < 0 || p >= cs.len() {
        name
    } else if cs[p].name@ == name {
        match cs[p].friendly_name {
            Some(f) => f@,
            None => name,
        }
    } else {
        controller_friendly_from(cs, name, p + 1)
    }
}

/// The friendly name of the first device named `name`; `name` itself when
/// there is no such device or it has no friendly name.
pub open spec fn device_friendly_from(ds: Seq<BLDeviceInfo>, name: Seq<char>, p: int) -> Seq<char>
    decreases ds.len() - p,
{
    if p < 0 || p >= ds.len() {
        name
    } else if ds[p].name@ == name {
        match ds[p].friendly_name {
            Some(f) => f@,
            None => name,
        }
    } else {
        device_friendly_from(ds, name, p + 1)
    }
}

/// The title of the main area for `view`.
pub open spec fn view_title(view: ViewV, s: AppState) -> Seq<char> {
    match view {
        ViewV::Controllers => "Controllers"@,
        ViewV::Devices(c) => "Devices - "@ + controller_friendly_from(s.controllers@, c, 0),
        ViewV::Commands(c, d) => "Commands - "@ + controller_friendly_from(s.controllers@, c, 0)
            + "/"@ + device_friendly_from(s.devices_for(c), d, 0),
        ViewV::Scripts(c) => "Scripts - "@ + controller_friendly_from(s.controllers@, c, 0),
        ViewV::CommandTree(c, d) => "Tree - "@ + controller_friendly_from(s.controllers@, c, 0)
            + "/"@ + device_friendly_from(s.devices_for(c), d, 0),
    }
}

/// The first position of a controller named `name`, or 0.
pub open spec fn controller_pos_from(cs: Seq<BLControllerInfo>, name: Seq<char>, p: int) -> int
    decreases cs.len() - p,
{
    if p < 0 || p >= cs.len() {
        0
    } else if cs[p].name@ == name {
        p
    } else {
        controller_pos_from(cs, name, p + 1)
    }
}

/// The line of a command list: a command with its name (marked when
/// disabled), a group header between rules.
pub open spec fn item_line(item: ItemV) -> Seq<char> {
    match item {
        ItemV::Command(n) => if n.disabled {
            "[disabled] "@ + display_name(n)
        } else {
            display_name(n)
        },
        ItemV::Header(h) => "─── "@ + h + " ───"@,
    }
}

fn friendly_controller(cs: &Vec<BLControllerInfo>, name: &str) -> (r: String)
    ensures
        r@ == controller_friendly_from(cs@, name@, 0),
{
    let mut i: usize = 0;
    while i < cs.len()
        invariant
            i <= cs@.len(),
            controller_friendly_from(cs@, name@, 0) == controller_friendly_from(cs@, name@, i as int),
        decreases cs@.len() - i,
    {
        if str_eq(cs[i].name.as_str(), name) {
            return match &cs[i].friendly_name {
                Some(f) => f.clone(),
                None => string_of(name),
            };
        }
        i = i + 1;
    }
    string_of(name)
}

fn friendly_device(ds: &Vec<BLDeviceInfo>, name: &str) -> (r: String)
    ensures
        r@ == device_friendly_from(ds@, name@, 0),
{
    let mut i: usize = 0;
    while i < ds.len()
        invariant
            i <= ds@.len(),
            device_friendly_from(ds@, name@, 0) == device_friendly_from(ds@, name@, i as int),
        decreases ds@.len() - i,
    {
        if str_eq(ds[i].name.as_str(), name) {
            return match &ds[i].friendly_name {
                Some(f) => f.clone(),
                None => string_of(name),
            };
        }
        i = i + 1;
    }
    string_of(name)
}

/// The title of the main area for `view`: the view's kind with the
/// controller it shows and the device, each by its friendly name (or else
/// its name).
pub fn get_view_title(view: &View, state: &AppState) -> (r: String)
    ensures
        r@ == view_title(view@, *state),
{
    match view {
        View::Controllers => string_of("Controllers"),
        View::Devices(ctrl) => {
            let f = friendly_controller(&state.controllers, ctrl.as_str());
            concat2("Devices - ", f.as_str())
        },
        View::Commands(ctrl, dev) => {
            let fc = friendly_controller(&state.controllers, ctrl.as_str());
            let devs = state.get_devices_for_controller(ctrl.as_str());
            let fd = friendly_device(&devs, dev.as_str());
            let mut s = concat3("Commands - ", fc.as_str(), "/");
            s.append(fd.as_str());
            s
        },
        View::Scripts(ctrl) => {
            let fc = friendly_controller(&state.controllers, ctrl.as_str());
            concat2("Scripts - ", fc.as_str())
        },
        View::CommandTree(ctrl, dev) => {
            let fc = friendly_controller(&state.controllers, ctrl.as_str());
            let devs = state.get_devices_for_controller(ctrl.as_str());
            let fd = friendly_device(&devs, dev.as_str());
            let mut s = concat3("Tree - ", fc.as_str(), "/");
            s.append(fd.as_str());
            s
        },
    }
}

fn controller_name_shown(c: &BLControllerInfo) -> (r: String)
    ensures
        r@ == controller_shown(*c),
{
    match &c.friendly_name {
        Some(f) => f.clone(),
        None => c.name.clone(),
    }
}

/// The titles of the controller tabs, one per controller in order.
pub fn tab_titles(state: &AppState) -> (r: Vec<String>)
    ensures
        r@.len() == state.controllers@.len(),
        forall|i: int| 0 <= i < r@.len() ==> #[trigger] r@[i]@ == controller_shown(state.controllers@[i]),
{
    let mut out: Vec<String> = Vec::new();
    let mut i: usize = 0;
    while i < state.controllers.len()
        invariant
            i <= state.controllers@.len(),
            out@.len() == i,
            forall|j: int| 0 <= j < i ==> #[trigger] out@[j]@ == controller_shown(state.controllers@[j]),
        decreases state.controllers@.len() - i,
    {
        out.push(controller_name_shown(&state.controllers[i]));
        i = i + 1;
    }
    out
}

/// The highlighted tab: the controller of the current view (its first
/// position), or the first tab.
pub fn current_tab_index(state: &AppState) -> (r: usize)
    ensures
        r == match view_controller(state.current_view@) {
            Some(c) => controller_pos_from(state.controllers@, c, 0),
            None => 0,
        },
{
    let ctrl = match &state.current_view {
        View::Controllers => None,
        View::Devices(c) => Some(c),
        View::Commands(c, _) => Some(c),
        View::Scripts(c) => Some(c),
        View::CommandTree(c, _) => Some(c),
    };
    match ctrl {
        None => 0,
        Some(c) => {
            let mut i: usize = 0;
            while i < state.controllers.len()
                invariant
                    i <= state.controllers@.len(),
                    view_controller(state.current_view@) == Some(c@),
                    controller_pos_from(state.controllers@, c@, 0) == controller_pos_from(
                        state.controllers@,
                        c@,
                        i as int,
                    ),
                decreases state.controllers@.len() - i,
            {
                if str_eq(state.controllers[i].name.as_str(), c.as_str()) {
                    return i;
                }
                i = i + 1;
            }
            0
        },
    }
}

/// The line of a controller in the controllers list: its check box for
/// the selection, its name and its address.
pub fn controller_line(state: &AppState, ctrl: &BLControllerInfo) -> (r: String)
    ensures
        r@ == (if state.selected_controllers@.contains(ctrl.name@) {
            "[✓] "@
        } else {
            "[ ] "@
        }) + controller_shown(*ctrl) + " ("@ + ctrl.ip@ + ")"@,
{
    let prefix = if state.selected_controllers.contains(ctrl.name.as_str()) {
        "[✓] "
    } else {
        "[ ] "
    };
    let mut s = concat3(prefix, controller_name_shown(ctrl).as_str(), " (");
    s.append(ctrl.ip.as_str());
    s.append(")");
    s
}

/// The line of a controller in the popup: marked when the current view
/// belongs to it, with its name and address.
pub fn popup_line(state: &AppState, ctrl: &BLControllerInfo) -> (r: String)
    ensures
        r@ == (if view_controller(state.current_view@) == Some(ctrl.name@) {
            "[active] "@
        } else {
            ""@
        }) + controller_shown(*ctrl) + " ("@ + ctrl.ip@ + ")"@,
{
    let active = match &state.current_view {
        View::Controllers => false,
        View::Devices(c) => str_eq(c.as_str(), ctrl.name.as_str()),
        View::Commands(c, _) => str_eq(c.as_str(), ctrl.name.as_str()),
        View::Scripts(c) => str_eq(c.as_str(), ctrl.name.as_str()),
        View::CommandTree(c, _) => str_eq(c.as_str(), ctrl.name.as_str()),
    };
    let prefix = if active {
        "[active] "
    } else {
        ""
    };
    let mut s = concat3(prefix, controller_name_shown(ctrl).as_str(), " (");
    s.append(ctrl.ip.as_str());
    s.append(")");
    s
}

/// The line of a device in the devices list: its friendly name, or else
/// its name.
pub fn device_line(dev: &BLDeviceInfo) -> (r: String)
    ensures
        r@ == match dev.friendly_name {
            Some(f) => f@,
            None => dev.name@,
        },
{
    match &dev.friendly_name {
        Some(f) => f.clone(),
        None => dev.name.clone(),
    }
}

/// The line of a script in the scripts list: its friendly name, or else its
/// name.
pub fn script_line(script: &BLScript) -> (r: String)
    ensures
        r@ == match script.friendly_name {
            Some(f) => f@,
            None => script.name@,
        },
{
    match &script.friendly_name {
        Some(f) => f.clone(),
        None => script.name.clone(),
    }
}

/// The line of an item of the command list.
pub fn command_line(item: &CommandListItem) -> (r: String)
    ensures
        r@ == item_line(item@),
{
    match item {
        CommandListItem::Command(node) => {
            let name = match &node.friendly_name {
                Some(f) => f.clone(),
                None => node.name.clone(),
            };
            if node.disabled {
                concat2("[disabled] ", name.as_str())
            } else {
                name
            }
        },
        CommandListItem::Header(h) => concat3("─── ", h.as_str(), " ───"),
    }
}

/// The status line at time `now`: "Loading..." during a refresh, else the
/// status message while it is fresh, else nothing.
pub fn status_text(state: &AppState, now: u64) -> (r: String)
    ensures
        r@ == if state.is_loading {
            "Loading..."@
        } else if now < state.status_time + 3000 {
            state.status_message@
        } else {
            ""@
        },
{
    if state.is_loading {
        string_of("Loading...")
    } else if state.status_is_fresh(now) {
        state.status_message.clone()
    } else {
        string_of("")
    }
}

/// The place of the controllers popup in an area of `width` by `height`
/// cells for `n` controllers: 40 cells wide, four lines more than the
/// controllers (their count taken modulo 2^16, as a `u16` cast does),
/// centred. The area must be large enough to hold it.
pub fn popup_area(width: u16, height: u16, n: usize) -> (r: (u16, u16, u16, u16))
    requires
        width >= 40,
        (n % 65536) + 4 <= height,
    ensures
        r.2 == 40,
        r.3 == (n % 65536) + 4,
        r.0 == (width - 40) / 2,
        r.1 == (height - r.3) / 2,
{
    let popup_width: u16 = 40;
    let popup_height: u16 = (n % 65536) as u16 + 4;
    let x = (width - popup_width) / 2;
    let y = (height - popup_height) / 2;
    (x, y, popup_width, popup_height)
}

} // verus!
