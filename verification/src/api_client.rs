//! The records of the Broadlink REST API, the URLs of its endpoints, and the
//! command tree built from a device's JSON description.
use vstd::prelude::*;
use crate::json::{Json, json_get, get_str, get_bool, get_string, get_flag};
use crate::sort::{sort_indices, sort_order, string_views};
use crate::text::{path_join, join_path, decimal, u16_to_decimal, concat3, string_of};

verus! {

/// The view of an optional string.
pub open spec fn opt_view(o: Option<String>) -> Option<Seq<char>> {
    match o {
        Some(s) => Some(s@),
        None => None,
    }
}

/// A copy of an optional string.
pub fn clone_opt(o: &Option<String>) -> (r: Option<String>)
    ensures
        r == *o,
{
    match o {
        Some(s) => Some(s.clone()),
        None => None,
    }
}

/// A copy of a list of strings.
pub fn clone_strings(v: &Vec<String>) -> (r: Vec<String>)
    ensures
        r@ == v@,
{
    let mut out: Vec<String> = Vec::new();
    let mut i: usize = 0;
    while i < v.len()
        invariant
            i <= v@.len(),
            out@ == v@.take(i as int),
        decreases v@.len() - i,
    {
        out.push(v[i].clone());
        assert(v@.take(i + 1) =~= v@.take(i as int).push(v@[i as int]));
        i = i + 1;
    }
    assert(v@.take(v@.len() as int) =~= v@);
    out
}

/// A controller, as `GET /api/controller` lists it. The JSON member `type`
/// is held in `controller_type`.
#[derive(Debug)]
pub struct BLControllerInfo {
    pub name: String,
    pub friendly_name: Option<String>,
    pub ip: String,
    pub port: u16,
    pub controller_type: Option<String>,
    pub mac: Option<String>,
    pub model: Option<String>,
    pub devices: Option<Vec<String>>,
}

/// The view of an optional list.
pub open spec fn opt_seq<T>(o: Option<Vec<T>>) -> Option<Seq<T>> {
    match o {
        Some(v) => Some(v@),
        None => None,
    }
}

impl Clone for BLControllerInfo {
    fn clone(&self) -> (r: Self)
        ensures
            r.name == self.name,
            r.friendly_name == self.friendly_name,
            r.ip == self.ip,
            r.port == self.port,
            r.controller_type == self.controller_type,
            r.mac == self.mac,
            r.model == self.model,
            opt_seq(r.devices) == opt_seq(self.devices),
    {
        BLControllerInfo {
            name: self.name.clone(),
            friendly_name: clone_opt(&self.friendly_name),
            ip: self.ip.clone(),
            port: self.port,
            controller_type: clone_opt(&self.controller_type),
            mac: clone_opt(&self.mac),
            model: clone_opt(&self.model),
            devices: match &self.devices {
                Some(d) => Some(clone_strings(d)),
                None => None,
            },
        }
    }
}

/// A device of a controller, as `GET /api/<controller>/device` lists it. The
/// JSON member `type` is held in `device_type`.
#[derive(Debug)]
pub struct BLDeviceInfo {
    pub name: String,
    pub friendly_name: Option<String>,
    pub device_type: String,
    pub manufacturer: Option<String>,
    pub model: Option<String>,
}

impl Clone for BLDeviceInfo {
    fn clone(&self) -> (r: Self)
        ensures
            r == *self,
    {
        BLDeviceInfo {
            name: self.name.clone(),
            friendly_name: clone_opt(&self.friendly_name),
            device_type: self.device_type.clone(),
            manufacturer: clone_opt(&self.manufacturer),
            model: clone_opt(&self.model),
        }
    }
}

/// One step of a script: a send or a wait. The JSON member `type` is held in
/// `step_type`.
#[derive(Debug)]
pub struct BLScriptStep {
    pub step_type: String,
    pub device: Option<String>,
    pub command: Option<String>,
    pub time: Option<u64>,
}

impl Clone for BLScriptStep {
    fn clone(&self) -> (r: Self)
        ensures
            r == *self,
    {
        BLScriptStep {
            step_type: self.step_type.clone(),
            device: clone_opt(&self.device),
            command: clone_opt(&self.command),
            time: self.time,
        }
    }
}

/// A script of a controller, as `GET /api/<controller>/scripts` lists it.
#[derive(Debug)]
pub struct BLScript {
    pub name: String,
    pub friendly_name: Option<String>,
    pub steps: Option<Vec<BLScriptStep>>,
}

impl Clone for BLScript {
    fn clone(&self) -> (r: Self)
        ensures
            r.name == self.name,
            r.friendly_name == self.friendly_name,
            opt_seq(r.steps) == opt_seq(self.steps),
    {
        let steps = match &self.steps {
            Some(s) => {
                let mut out: Vec<BLScriptStep> = Vec::new();
                let mut i: usize = 0;
                while i < s.len()
                    invariant
                        i <= s@.len(),
                        out@ == s@.take(i as int),
                    decreases s@.len() - i,
                {
                    out.push(s[i].clone());
                    assert(s@.take(i + 1) =~= s@.take(i as int).push(s@[i as int]));
                    i = i + 1;
                }
                assert(s@.take(s@.len() as int) =~= s@);
                Some(out)
            },
            None => None,
        };
        BLScript { name: self.name.clone(), friendly_name: clone_opt(&self.friendly_name), steps }
    }
}

/// Whether a node of the command tree is a group or a command.
#[derive(Debug, Clone, Copy, PartialEq, Eq, Structural)]
pub enum BLNodeKind {
    Group,
    Command,
}

/// A node of a device's command tree. A command carries its dot-separated
/// path, which is what `POST /api/<controller>/<device>/<path>` takes.
#[derive(Debug)]
pub struct BLNode {
    pub kind: BLNodeKind,
    pub name: String,
    pub friendly_name: Option<String>,
    pub disabled: bool,
    pub children: Vec<BLNode>,
    pub command_path: Option<String>,
}

/// A node of the command tree as a mathematical value.
pub struct NodeView {
    pub kind: BLNodeKind,
    pub name: Seq<char>,
    pub friendly_name: Option<Seq<char>>,
    pub disabled: bool,
    pub children: Seq<NodeView>,
    pub command_path: Option<Seq<char>>,
}

/// The view of a node.
pub open spec fn node_view(n: BLNode) -> NodeView
    decreases n, 1int,
{
    NodeView {
        kind: n.kind,
        name: n.name@,
        friendly_name: opt_view(n.friendly_name),
        disabled: n.disabled,
        children: nodes_view(n.children@),
        command_path: opt_view(n.command_path),
    }
}

/// The views of a list of nodes.
pub open spec fn nodes_view(ns: Seq<BLNode>) -> Seq<NodeView>
    decreases ns, 0int,
{
    if ns.len() == 0 {
        Seq::empty()
    } else {
        nodes_view(ns.drop_last()).push(node_view(ns.last()))
    }
}

impl View for BLNode {
    type V = NodeView;

    open spec fn view(&self) -> NodeView {
        node_view(*self)
    }
}

/// `nodes_view` of a list with one more node at the end.
pub proof fn lemma_nodes_view_push(ns: Seq<BLNode>, n: BLNode)
    ensures
        nodes_view(ns.push(n)) == nodes_view(ns).push(node_view(n)),
{
    assert(ns.push(n).drop_last() =~= ns);
}

/// `nodes_view` keeps the length and views each node.
pub proof fn lemma_nodes_view_index(ns: Seq<BLNode>)
    ensures
        nodes_view(ns).len() == ns.len(),
        forall|i: int| 0 <= i < ns.len() ==> #[trigger] nodes_view(ns)[i] == node_view(ns[i]),
    decreases ns.len(),
{
    if ns.len() > 0 {
        lemma_nodes_view_index(ns.drop_last());
        assert forall|i: int| 0 <= i < ns.len() implies #[trigger] nodes_view(ns)[i] == node_view(
            ns[i],
        ) by {
            if i < ns.len() - 1 {
                assert(ns.drop_last()[i] == ns[i]);
            }
        }
    }
}

impl Clone for BLNode {
    fn clone(&self) -> (r: Self)
        ensures
            r@ == self@,
        decreases self,
    {
        let mut children: Vec<BLNode> = Vec::new();
        let mut i: usize = 0;
        while i < self.children.len()
            invariant
                i <= self.children@.len(),
                nodes_view(children@) == nodes_view(self.children@.take(i as int)),
            decreases self.children@.len() - i,
        {
            let c = self.children[i].clone();
            proof {
                lemma_nodes_view_push(children@, c);
                lemma_nodes_view_push(self.children@.take(i as int), self.children@[i as int]);
                assert(self.children@.take(i + 1) =~= self.children@.take(i as int).push(
                    self.children@[i as int],
                ));
            }
            children.push(c);
            i = i + 1;
        }
        assert(self.children@.take(self.children@.len() as int) =~= self.children@);
        BLNode {
            kind: self.kind,
            name: self.name.clone(),
            friendly_name: clone_opt(&self.friendly_name),
            disabled: self.disabled,
            children,
            command_path: clone_opt(&self.command_path),
        }
    }
}

/// The friendly name of a node, or else its name.
pub open spec fn display_name(n: NodeView) -> Seq<char> {
    match n.friendly_name {
        Some(f) => f,
        None => n.name,
    }
}

/// `n` with `children` in place of its children.
pub open spec fn with_children(n: NodeView, children: Seq<NodeView>) -> NodeView {
    NodeView { children, ..n }
}

/// The names of the members of an object.
pub open spec fn member_keys(w: Seq<(String, Json)>) -> Seq<Seq<char>> {
    w.map_values(|e: (String, Json)| e.0@)
}

/// The command node for the member or element `v` named `name`, below `path`.
pub open spec fn command_entry(name: Seq<char>, v: Json, path: Seq<char>) -> NodeView {
    NodeView {
        kind: BLNodeKind::Command,
        name,
        friendly_name: get_str(v, "friendly_name"@),
        disabled: get_bool(v, "disabled"@) == Some(true),
        children: Seq::empty(),
        command_path: Some(path_join(path, name)),
    }
}

/// The group node for `v` named `name`, with the given children.
pub open spec fn group_entry(name: Seq<char>, v: Json, children: Seq<NodeView>) -> NodeView {
    NodeView {
        kind: BLNodeKind::Group,
        name,
        friendly_name: get_str(v, "friendly_name"@),
        disabled: get_bool(v, "disabled"@) == Some(true),
        children,
        command_path: None,
    }
}

/// The commands of an object of commands: one per member, sorted by name.
pub open spec fn object_commands(w: Seq<(String, Json)>, path: Seq<char>) -> Seq<NodeView> {
    let order = sort_order(member_keys(w));
    Seq::new(order.len(), |k: int| command_entry(w[order[k]].0@, w[order[k]].1, path))
}

/// The commands of an array of commands: one per element that has a string
/// `name`, in array order.
pub open spec fn array_commands(a: Seq<Json>, path: Seq<char>) -> Seq<NodeView>
    decreases a.len(),
{
    if a.len() == 0 {
        Seq::empty()
    } else {
        let rest = array_commands(a.drop_last(), path);
        match get_str(a.last(), "name"@) {
            Some(n) => rest.push(command_entry(n, a.last(), path)),
            None => rest,
        }
    }
}

/// The command nodes that the member `commands` of `j` gives.
pub open spec fn commands_of(j: Json, path: Seq<char>) -> Seq<NodeView> {
    match json_get(j, "commands"@) {
        Some(Json::Object(w)) => object_commands(w@, path),
        Some(Json::Array(a)) => array_commands(a@, path),
        _ => Seq::empty(),
    }
}

/// The children that `build_nodes` adds for `j` below `path`: the commands,
/// then the groups.
pub open spec fn child_nodes(j: Json, path: Seq<char>) -> Seq<NodeView>
    decreases j, 1int,
{
    commands_of(j, path) + groups_of(j, path)
}

/// The group nodes that the member `groups` of `j` gives: for an object one
/// per member sorted by name, for an array one per element with a string
/// `name`; each with the children of its own value.
pub open spec fn groups_of(j: Json, path: Seq<char>) -> Seq<NodeView>
    decreases j, 0int,
{
    match j {
        Json::Object(v) => {
            let gi = crate::json::key_index(v@, "groups"@);
            if 0 <= gi < v@.len() {
                match v@[gi].1 {
                    Json::Object(w) => {
                        let order = sort_order(member_keys(w@));
                        object_groups(w@, order, path, order.len() as int)
                    },
                    Json::Array(a) => array_groups(a@, path, a@.len() as int),
                    _ => Seq::empty(),
                }
            } else {
                Seq::empty()
            }
        },
        _ => Seq::empty(),
    }
}

/// The first `n` groups of an object of groups, taken in the sorted `order`.
pub open spec fn object_groups(w: Seq<(String, Json)>, order: Seq<int>, path: Seq<char>, n: int) -> Seq<
    NodeView,
>
    decreases w, n,
{
    if n <= 0 || n > order.len() {
        Seq::empty()
    } else {
        let rest = object_groups(w, order, path, n - 1);
        let idx = order[n - 1];
        if 0 <= idx < w.len() {
            rest.push(
                group_entry(w[idx].0@, w[idx].1, child_nodes(w[idx].1, path_join(path, w[idx].0@))),
            )
        } else {
            rest
        }
    }
}

/// The groups of the first `n` elements of an array of groups; elements
/// without a string `name` give none.
pub open spec fn array_groups(a: Seq<Json>, path: Seq<char>, n: int) -> Seq<NodeView>
    decreases a, n,
{
    if n <= 0 || n > a.len() {
        Seq::empty()
    } else {
        let rest = array_groups(a, path, n - 1);
        match get_str(a[n - 1], "name"@) {
            Some(nm) => rest.push(group_entry(nm, a[n - 1], child_nodes(a[n - 1], path_join(path, nm)))),
            None => rest,
        }
    }
}

/// Law: the commands of an object of commands are its members, each once,
/// in name order (ties kept in member order); each is a command without
/// children whose path is the group path joined with its name.
pub proof fn law_object_commands_sorted(w: Seq<(String, Json)>, path: Seq<char>)
    ensures
        object_commands(w, path).len() == w.len(),
        forall|a: int, b: int|
            0 <= a < b < w.len() ==> crate::text::lex_le(
                #[trigger] object_commands(w, path)[a].name,
                #[trigger] object_commands(w, path)[b].name,
            ),
        forall|i: int|
            #![trigger w[i]]
            0 <= i < w.len() ==> exists|k: int|
                0 <= k < w.len() && #[trigger] object_commands(w, path)[k].name == w[i].0@,
        forall|k: int|
            0 <= k < w.len() ==> {
                let n = #[trigger] object_commands(w, path)[k];
                &&& n.kind == BLNodeKind::Command
                &&& n.children.len() == 0
                &&& n.command_path == Some(path_join(path, n.name))
            },
{
    let keys = member_keys(w);
    let order = sort_order(keys);
    crate::sort::lemma_sort_order(keys);
    let oc = object_commands(w, path);
    assert forall|a: int, b: int| 0 <= a < b < w.len() implies crate::text::lex_le(
        #[trigger] oc[a].name,
        #[trigger] oc[b].name,
    ) by {
        assert(oc[a].name == keys[order[a]]);
        assert(oc[b].name == keys[order[b]]);
    }
    assert forall|i: int| #![trigger w[i]] 0 <= i < w.len() implies exists|k: int|
        0 <= k < w.len() && #[trigger] oc[k].name == w[i].0@ by {
        assert(crate::sort::holds_index(order, i));
        let k = choose|k: int| 0 <= k < order.len() && order[k] == i;
        assert(oc[k].name == w[i].0@);
    }
}

/// A node is a command without children that carries the path of `path`
/// joined with its name.
pub open spec fn is_command_at(n: NodeView, path: Seq<char>) -> bool {
    &&& n.kind == BLNodeKind::Command
    &&& n.children.len() == 0
    &&& n.command_path == Some(path_join(path, n.name))
}

proof fn lemma_array_commands_at(a: Seq<Json>, path: Seq<char>)
    ensures
        forall|k: int|
            0 <= k < array_commands(a, path).len() ==> is_command_at(
                #[trigger] array_commands(a, path)[k],
                path,
            ),
    decreases a.len(),
{
    if a.len() > 0 {
        lemma_array_commands_at(a.drop_last(), path);
        let rest = array_commands(a.drop_last(), path);
        assert forall|k: int| 0 <= k < array_commands(a, path).len() implies is_command_at(
            #[trigger] array_commands(a, path)[k],
            path,
        ) by {
            if k < rest.len() {
                assert(array_commands(a, path)[k] == rest[k]);
            }
        }
    }
}

/// Law: every node that the `commands` of a JSON value give is a command
/// without children, whose path is the enclosing path joined with its name
/// (the dot-separated path that `POST /api/<controller>/<device>/<path>`
/// takes).
pub proof fn law_commands_carry_paths(j: Json, path: Seq<char>)
    ensures
        forall|k: int|
            0 <= k < commands_of(j, path).len() ==> is_command_at(
                #[trigger] commands_of(j, path)[k],
                path,
            ),
{
    match json_get(j, "commands"@) {
        Some(Json::Object(w)) => {
            law_object_commands_sorted(w@, path);
            assert forall|k: int| 0 <= k < commands_of(j, path).len() implies is_command_at(
                #[trigger] commands_of(j, path)[k],
                path,
            ) by {
                assert(commands_of(j, path)[k] == object_commands(w@, path)[k]);
            }
        },
        Some(Json::Array(a)) => {
            lemma_array_commands_at(a@, path);
        },
        _ => {},
    }
}

/// A command node took its flags from the JSON entry `v`: it is disabled
/// exactly when `v`'s `disabled` member is the boolean `true`, and its
/// friendly name is `v`'s `friendly_name` string, if any.
pub open spec fn flags_from(n: NodeView, v: Json) -> bool {
    &&& n.disabled == (get_bool(v, "disabled"@) == Some(true))
    &&& n.friendly_name == get_str(v, "friendly_name"@)
}

proof fn lemma_array_commands_flags(a: Seq<Json>, path: Seq<char>)
    ensures
        forall|k: int|
            0 <= k < array_commands(a, path).len() ==> exists|i: int|
                0 <= i < a.len() && get_str(a[i], "name"@) == Some(
                    #[trigger] array_commands(a, path)[k].name,
                ) && flags_from(array_commands(a, path)[k], a[i]),
    decreases a.len(),
{
    if a.len() > 0 {
        let b = a.drop_last();
        lemma_array_commands_flags(b, path);
        let rest = array_commands(b, path);
        assert forall|k: int| 0 <= k < array_commands(a, path).len() implies exists|i: int|
            0 <= i < a.len() && get_str(a[i], "name"@) == Some(
                #[trigger] array_commands(a, path)[k].name,
            ) && flags_from(array_commands(a, path)[k], a[i]) by {
            if k < rest.len() {
                assert(array_commands(a, path)[k] == rest[k]);
                let i = choose|i: int|
                    0 <= i < b.len() && get_str(b[i], "name"@) == Some(#[trigger] rest[k].name)
                        && flags_from(rest[k], b[i]);
                assert(a[i] == b[i]);
            } else {
                assert(a[a.len() - 1] == a.last());
            }
        }
    }
}

/// Law: every command that the `commands` of a JSON value give comes from
/// an entry of it with the command's name (a member of an object of
/// commands, or an element of an array of commands whose `name` it is),
/// and is disabled exactly when that entry's `disabled` member is `true`
/// (`false` or no member gives an enabled command), with that entry's
/// friendly name.
pub proof fn law_command_flags_from_json(j: Json, path: Seq<char>)
    ensures
        forall|k: int|
            0 <= k < commands_of(j, path).len() ==> match json_get(j, "commands"@) {
                Some(Json::Object(w)) => exists|i: int|
                    0 <= i < w@.len() && w@[i].0@ == (#[trigger] commands_of(j, path)[k]).name
                        && flags_from(commands_of(j, path)[k], w@[i].1),
                Some(Json::Array(a)) => exists|i: int|
                    0 <= i < a@.len() && get_str(a@[i], "name"@) == Some(
                        (#[trigger] commands_of(j, path)[k]).name,
                    ) && flags_from(commands_of(j, path)[k], a@[i]),
                _ => false,
            },
{
    match json_get(j, "commands"@) {
        Some(Json::Object(w)) => {
            let keys = member_keys(w@);
            let order = sort_order(keys);
            crate::sort::lemma_sort_order(keys);
            assert forall|k: int| 0 <= k < commands_of(j, path).len() implies exists|i: int|
                0 <= i < w@.len() && w@[i].0@ == (#[trigger] commands_of(j, path)[k]).name
                    && flags_from(commands_of(j, path)[k], w@[i].1) by {
                lemma_sort_order_index(keys, k);
                let i = order[k];
                assert(commands_of(j, path)[k] == command_entry(w@[i].0@, w@[i].1, path));
            }
        },
        Some(Json::Array(a)) => {
            lemma_array_commands_flags(a@, path);
        },
        _ => {},
    }
}

proof fn lemma_sort_order_index(keys: Seq<Seq<char>>, k: int)
    requires
        0 <= k < sort_order(keys).len(),
    ensures
        0 <= sort_order(keys)[k] < keys.len(),
{
    crate::sort::lemma_sort_order(keys);
}

/// A node is a group without a command path.
pub open spec fn is_group(n: NodeView) -> bool {
    n.kind == BLNodeKind::Group && n.command_path.is_none()
}

proof fn lemma_object_groups_are_groups(w: Seq<(String, Json)>, order: Seq<int>, path: Seq<char>, n: int)
    ensures
        forall|k: int|
            0 <= k < object_groups(w, order, path, n).len() ==> is_group(
                #[trigger] object_groups(w, order, path, n)[k],
            ),
    decreases n,
{
    if n > 0 && n <= order.len() {
        lemma_object_groups_are_groups(w, order, path, n - 1);
        let rest = object_groups(w, order, path, n - 1);
        assert forall|k: int| 0 <= k < object_groups(w, order, path, n).len() implies is_group(
            #[trigger] object_groups(w, order, path, n)[k],
        ) by {
            if k < rest.len() {
                assert(object_groups(w, order, path, n)[k] == rest[k]);
            }
        }
    }
}

proof fn lemma_array_groups_are_groups(a: Seq<Json>, path: Seq<char>, n: int)
    ensures
        forall|k: int|
            0 <= k < array_groups(a, path, n).len() ==> is_group(
                #[trigger] array_groups(a, path, n)[k],
            ),
    decreases n,
{
    if n > 0 && n <= a.len() {
        lemma_array_groups_are_groups(a, path, n - 1);
        let rest = array_groups(a, path, n - 1);
        assert forall|k: int| 0 <= k < array_groups(a, path, n).len() implies is_group(
            #[trigger] array_groups(a, path, n)[k],
        ) by {
            if k < rest.len() {
                assert(array_groups(a, path, n)[k] == rest[k]);
            }
        }
    }
}

/// Law: every node that the `groups` of a JSON value give is a group, and
/// no group carries a command path.
pub proof fn law_groups_have_no_path(j: Json, path: Seq<char>)
    ensures
        forall|k: int| 0 <= k < groups_of(j, path).len() ==> is_group(#[trigger] groups_of(j, path)[k]),
{
    match j {
        Json::Object(v) => {
            let gi = crate::json::key_index(v@, "groups"@);
            if 0 <= gi < v@.len() {
                match v@[gi].1 {
                    Json::Object(w) => {
                        let order = sort_order(member_keys(w@));
                        lemma_object_groups_are_groups(w@, order, path, order.len() as int);
                        assert(groups_of(j, path) == object_groups(w@, order, path, order.len() as int));
                    },
                    Json::Array(a) => {
                        lemma_array_groups_are_groups(a@, path, a@.len() as int);
                        assert(groups_of(j, path) == array_groups(a@, path, a@.len() as int));
                    },
                    _ => {},
                }
            }
        },
        _ => {},
    }
}

/// A node is placed right below `path`: a command is a command without
/// children that carries `path` joined with its name; a group carries no
/// command path, and each of its children is placed right below `path`
/// joined with the group's name.
pub open spec fn well_placed(n: NodeView, path: Seq<char>) -> bool
    decreases n,
{
    match n.kind {
        BLNodeKind::Command => is_command_at(n, path),
        BLNodeKind::Group => {
            &&& n.command_path.is_none()
            &&& forall|k: int|
                0 <= k < n.children.len() ==> well_placed(
                    #[trigger] n.children[k],
                    path_join(path, n.name),
                )
        },
    }
}

/// Every node of `ns` is placed right below `path`.
pub open spec fn all_placed(ns: Seq<NodeView>, path: Seq<char>) -> bool {
    forall|k: int| 0 <= k < ns.len() ==> well_placed(#[trigger] ns[k], path)
}

proof fn lemma_child_nodes_placed(j: Json, path: Seq<char>)
    ensures
        all_placed(child_nodes(j, path), path),
    decreases j, 1int,
{
    law_commands_carry_paths(j, path);
    law_groups_have_no_path(j, path);
    lemma_groups_placed(j, path);
    let c = commands_of(j, path);
    let g = groups_of(j, path);
    assert forall|k: int| 0 <= k < (c + g).len() implies well_placed(#[trigger] (c + g)[k], path) by {
        if k < c.len() {
            assert((c + g)[k] == c[k]);
            assert(is_command_at(c[k], path));
        } else {
            assert((c + g)[k] == g[k - c.len()]);
        }
    }
}

proof fn lemma_groups_placed(j: Json, path: Seq<char>)
    ensures
        all_placed(groups_of(j, path), path),
    decreases j, 0int,
{
    match j {
        Json::Object(v) => {
            let gi = crate::json::key_index(v@, "groups"@);
            if 0 <= gi < v@.len() {
                match v@[gi].1 {
                    Json::Object(w) => {
                        let order = sort_order(member_keys(w@));
                        lemma_object_groups_placed(w@, order, path, order.len() as int);
                    },
                    Json::Array(a) => {
                        lemma_array_groups_placed(a@, path, a@.len() as int);
                    },
                    _ => {},
                }
            }
        },
        _ => {},
    }
}

proof fn lemma_object_groups_placed(w: Seq<(String, Json)>, order: Seq<int>, path: Seq<char>, n: int)
    ensures
        all_placed(object_groups(w, order, path, n), path),
    decreases w, n,
{
    if n > 0 && n <= order.len() {
        lemma_object_groups_placed(w, order, path, n - 1);
        let idx = order[n - 1];
        if 0 <= idx < w.len() {
            let name = w[idx].0@;
            lemma_child_nodes_placed(w[idx].1, path_join(path, name));
            let rest = object_groups(w, order, path, n - 1);
            let g = group_entry(name, w[idx].1, child_nodes(w[idx].1, path_join(path, name)));
            assert(well_placed(g, path));
            assert forall|k: int| 0 <= k < rest.push(g).len() implies well_placed(
                #[trigger] rest.push(g)[k],
                path,
            ) by {
                if k < rest.len() {
                    assert(rest.push(g)[k] == rest[k]);
                }
            }
        }
    }
}

proof fn lemma_array_groups_placed(a: Seq<Json>, path: Seq<char>, n: int)
    ensures
        all_placed(array_groups(a, path, n), path),
    decreases a, n,
{
    if n > 0 && n <= a.len() {
        lemma_array_groups_placed(a, path, n - 1);
        match get_str(a[n - 1], "name"@) {
            Some(nm) => {
                lemma_child_nodes_placed(a[n - 1], path_join(path, nm));
                let rest = array_groups(a, path, n - 1);
                let g = group_entry(nm, a[n - 1], child_nodes(a[n - 1], path_join(path, nm)));
                assert(well_placed(g, path));
                assert forall|k: int| 0 <= k < rest.push(g).len() implies well_placed(
                    #[trigger] rest.push(g)[k],
                    path,
                ) by {
                    if k < rest.len() {
                        assert(rest.push(g)[k] == rest[k]);
                    }
                }
            },
            None => {},
        }
    }
}

/// Law: at every depth of the tree that `build_nodes` adds below `path`, a
/// command has no children and carries the dot-separated path of the groups
/// above it joined with its name (starting from `path`), and a group carries
/// no command path.
pub proof fn law_tree_paths_at_every_depth(j: Json, path: Seq<char>)
    ensures
        all_placed(child_nodes(j, path), path),
{
    lemma_child_nodes_placed(j, path);
}

/// The member names of an object, in member order.
fn member_key_vec(obj: &Vec<(String, Json)>) -> (r: Vec<String>)
    ensures
        string_views(r@) == member_keys(obj@),
{
    let mut out: Vec<String> = Vec::new();
    let mut i: usize = 0;
    while i < obj.len()
        invariant
            i <= obj@.len(),
            string_views(out@) == member_keys(obj@.take(i as int)),
        decreases obj@.len() - i,
    {
        let ghost before = out@;
        out.push(obj[i].0.clone());
        assert(string_views(out@) =~= string_views(before).push(obj@[i as int].0@));
        assert(obj@.take(i + 1) =~= obj@.take(i as int).push(obj@[i as int]));
        assert(member_keys(obj@.take(i + 1)) =~= member_keys(obj@.take(i as int)).push(
            obj@[i as int].0@,
        ));
        i = i + 1;
    }
    assert(obj@.take(obj@.len() as int) =~= obj@);
    out
}

/// The plain data of the REST client: where the API is. The HTTP requests
/// themselves are made by the application with these URLs.
#[derive(Debug)]
pub struct BroadlinkClient {
    pub host: String,
    pub port: u16,
}

/// `http://<host>:<port>/api<endpoint>`.
pub open spec fn api_url(host: Seq<char>, port: u16, endpoint: Seq<char>) -> Seq<char> {
    "http://"@ + host + ":"@ + decimal(port as nat) + "/api"@ + endpoint
}

impl BroadlinkClient {
    /// A client for the API at `host:port`.
    pub fn new(host: String, port: u16) -> (r: Self)
        ensures
            r.host == host,
            r.port == port,
    {
        BroadlinkClient { host, port }
    }

    /// The URL of `endpoint` below `/api`.
    pub fn get_url(&self, endpoint: &str) -> (r: String)
        ensures
            r@ == api_url(self.host@, self.port, endpoint@),
    {
        let mut s = string_of("http://");
        s.append(self.host.as_str());
        s.append(":");
        let port = u16_to_decimal(self.port);
        s.append(port.as_str());
        s.append("/api");
        s.append(endpoint);
        s
    }

    /// The URL that lists the controllers.
    pub fn controllers_url(&self) -> (r: String)
        ensures
            r@ == api_url(self.host@, self.port, "/controller"@),
    {
        self.get_url("/controller")
    }

    /// The URL that lists the devices of `controller`.
    pub fn devices_url(&self, controller: &str) -> (r: String)
        ensures
            r@ == api_url(self.host@, self.port, "/"@ + controller@ + "/device"@),
    {
        let e = concat3("/", controller, "/device");
        self.get_url(e.as_str())
    }

    /// The URL that lists the scripts of `controller`.
    pub fn scripts_url(&self, controller: &str) -> (r: String)
        ensures
            r@ == api_url(self.host@, self.port, "/"@ + controller@ + "/scripts"@),
    {
        let e = concat3("/", controller, "/scripts");
        self.get_url(e.as_str())
    }

    /// The URL that runs the script `name` of `controller` (by `POST`).
    pub fn run_script_url(&self, controller: &str, name: &str) -> (r: String)
        ensures
            r@ == api_url(self.host@, self.port, "/"@ + controller@ + "/scripts/"@ + name@),
    {
        let mut e = concat3("/", controller, "/scripts/");
        e.append(name);
        self.get_url(e.as_str())
    }

    /// The URL that sends the command at `command_path` to `device` (by `POST`).
    pub fn send_command_url(&self, controller: &str, device: &str, command_path: &str) -> (r: String)
        ensures
            r@ == api_url(
                self.host@,
                self.port,
                "/"@ + controller@ + "/"@ + device@ + "/"@ + command_path@,
            ),
    {
        let mut e = concat3("/", controller, "/");
        e.append(device);
        e.append("/");
        e.append(command_path);
        self.get_url(e.as_str())
    }

    /// The URL of the command tree of `device`.
    pub fn command_tree_url(&self, controller: &str, device: &str) -> (r: String)
        ensures
            r@ == api_url(self.host@, self.port, "/"@ + controller@ + "/"@ + device@),
    {
        let mut e = concat3("/", controller, "/");
        e.append(device);
        self.get_url(e.as_str())
    }

    /// The command tree of `device` from the JSON that describes it: a group
    /// named after the device, with the device's `friendly_name`, holding
    /// the commands and groups of the JSON.
    pub fn command_tree_from_json(device: &str, json: &Json) -> (r: BLNode)
        ensures
            r@ == (NodeView {
                kind: BLNodeKind::Group,
                name: device@,
                friendly_name: get_str(*json, "friendly_name"@),
                disabled: false,
                children: child_nodes(*json, Seq::empty()),
                command_path: None,
            }),
    {
        let mut root = BLNode {
            kind: BLNodeKind::Group,
            name: string_of(device),
            friendly_name: get_string(json, "friendly_name"),
            disabled: false,
            children: Vec::new(),
            command_path: None,
        };
        let ghost root0 = root@;
        proof {
            reveal_strlit("");
            assert(""@ =~= Seq::<char>::empty());
        }
        Self::build_nodes(&mut root, json, "");
        assert(root@.children =~= child_nodes(*json, Seq::empty()));
        root
    }

    /// Adds to `parent` the nodes that `json` describes below `path`: first
    /// its commands, then its groups, each group holding its own nodes.
    pub fn build_nodes(parent: &mut BLNode, json: &Json, path: &str)
        ensures
            final(parent)@ == with_children(
                old(parent)@,
                old(parent)@.children + child_nodes(*json, path@),
            ),
        decreases json, 1int,
    {
        Self::add_commands(parent, json, path);
        Self::add_groups(parent, json, path);
        assert(final(parent)@.children =~= old(parent)@.children + child_nodes(*json, path@));
    }

    fn add_commands(parent: &mut BLNode, json: &Json, path: &str)
        ensures
            final(parent)@ == with_children(
                old(parent)@,
                old(parent)@.children + commands_of(*json, path@),
            ),
    {
        let ghost start = node_view(*parent);
        if let Some(commands) = json.get("commands") {
            if let Some(obj) = commands.as_object() {
                let keys = member_key_vec(obj);
                let order = sort_indices(&keys);
                let ghost ord = sort_order(member_keys(obj@));
                let ghost all = object_commands(obj@, path@);
                assert(ord.len() == order@.len());
                let mut k: usize = 0;
                while k < order.len()
                    invariant
                        k <= order@.len(),
                        order@.map_values(|x: usize| x as int) == ord,
                        forall|q: int| 0 <= q < order@.len() ==> (#[trigger] order@[q]) < keys@.len(),
                        keys@.len() == obj@.len(),
                        all == object_commands(obj@, path@),
                        ord == sort_order(member_keys(obj@)),
                        all.len() == ord.len(),
                        node_view(*parent) == with_children(start, start.children + all.take(k as int)),
                    decreases order@.len() - k,
                {
                    let idx = order[k];
                    assert(ord[k as int] == idx as int);
                    let node = BLNode {
                        kind: BLNodeKind::Command,
                        name: obj[idx].0.clone(),
                        friendly_name: get_string(&obj[idx].1, "friendly_name"),
                        disabled: get_flag(&obj[idx].1, "disabled"),
                        children: Vec::new(),
                        command_path: Some(join_path(path, obj[idx].0.as_str())),
                    };
                    proof {
                        let e = command_entry(obj@[idx as int].0@, obj@[idx as int].1, path@);
                        assert(all[k as int] == e);
                        assert(node_view(node).children =~= e.children);
                        assert(node_view(node).name == e.name);
                        assert(node_view(node).friendly_name == e.friendly_name);
                        assert(node_view(node).disabled == e.disabled);
                        assert(node_view(node).command_path == e.command_path);
                        assert(node_view(node) == all[k as int]);
                        lemma_nodes_view_push(parent.children@, node);
                        assert(all.take(k + 1) =~= all.take(k as int).push(all[k as int]));
                    }
                    parent.children.push(node);
                    k = k + 1;
                }
                assert(all.take(k as int) =~= all);
            } else if let Some(arr) = commands.as_array() {
                let mut i: usize = 0;
                while i < arr.len()
                    invariant
                        i <= arr@.len(),
                        node_view(*parent) == with_children(
                            start,
                            start.children + array_commands(arr@.take(i as int), path@),
                        ),
                    decreases arr@.len() - i,
                {
                    proof {
                        assert(arr@.take(i + 1).drop_last() =~= arr@.take(i as int));
                        assert(arr@.take(i + 1).last() == arr@[i as int]);
                    }
                    if let Some(name) = get_string(&arr[i], "name") {
                        let node = BLNode {
                            kind: BLNodeKind::Command,
                            name: name.clone(),
                            friendly_name: get_string(&arr[i], "friendly_name"),
                            disabled: get_flag(&arr[i], "disabled"),
                            children: Vec::new(),
                            command_path: Some(join_path(path, name.as_str())),
                        };
                        proof {
                            lemma_nodes_view_push(parent.children@, node);
                        }
                        parent.children.push(node);
                    }
                    i = i + 1;
                }
                assert(arr@.take(arr@.len() as int) =~= arr@);
            } else {
                assert(start.children + commands_of(*json, path@) =~= start.children);
            }
        } else {
            assert(start.children + commands_of(*json, path@) =~= start.children);
        }
    }

    fn add_groups(parent: &mut BLNode, json: &Json, path: &str)
        ensures
            final(parent)@ == with_children(
                old(parent)@,
                old(parent)@.children + groups_of(*json, path@),
            ),
        decreases json, 0int,
    {
        let ghost start = node_view(*parent);
        if let Some(groups) = json.get("groups") {
            if let Some(obj) = groups.as_object() {
                let keys = member_key_vec(obj);
                let order = sort_indices(&keys);
                let ghost ord = sort_order(member_keys(obj@));
                assert(ord.len() == order@.len());
                let mut k: usize = 0;
                while k < order.len()
                    invariant
                        k <= order@.len(),
                        order@.map_values(|x: usize| x as int) == ord,
                        forall|q: int| 0 <= q < order@.len() ==> (#[trigger] order@[q]) < keys@.len(),
                        keys@.len() == obj@.len(),
                        json_get(*json, "groups"@) == Some(Json::Object(*obj)),
                        groups_of(*json, path@) == object_groups(obj@, ord, path@, ord.len() as int),
                        node_view(*parent) == with_children(
                            start,
                            start.children + object_groups(obj@, ord, path@, k as int),
                        ),
                    decreases order@.len() - k,
                {
                    let idx = order[k];
                    assert(ord[k as int] == idx as int);
                    let mut node = BLNode {
                        kind: BLNodeKind::Group,
                        name: obj[idx].0.clone(),
                        friendly_name: get_string(&obj[idx].1, "friendly_name"),
                        disabled: get_flag(&obj[idx].1, "disabled"),
                        children: Vec::new(),
                        command_path: None,
                    };
                    let new_path = join_path(path, obj[idx].0.as_str());
                    Self::build_nodes(&mut node, &obj[idx].1, new_path.as_str());
                    proof {
                        lemma_nodes_view_push(parent.children@, node);
                    }
                    parent.children.push(node);
                    k = k + 1;
                }
            } else if let Some(arr) = groups.as_array() {
                let mut i: usize = 0;
                while i < arr.len()
                    invariant
                        i <= arr@.len(),
                        json_get(*json, "groups"@) == Some(Json::Array(*arr)),
                        groups_of(*json, path@) == array_groups(arr@, path@, arr@.len() as int),
                        node_view(*parent) == with_children(
                            start,
                            start.children + array_groups(arr@, path@, i as int),
                        ),
                    decreases arr@.len() - i,
                {
                    if let Some(name) = get_string(&arr[i], "name") {
                        let mut node = BLNode {
                            kind: BLNodeKind::Group,
                            name: name.clone(),
                            friendly_name: get_string(&arr[i], "friendly_name"),
                            disabled: get_flag(&arr[i], "disabled"),
                            children: Vec::new(),
                            command_path: None,
                        };
                        let new_path = join_path(path, name.as_str());
                        Self::build_nodes(&mut node, &arr[i], new_path.as_str());
                        proof {
                            lemma_nodes_view_push(parent.children@, node);
                        }
                        parent.children.push(node);
                    }
                    i = i + 1;
                }
            } else {
                assert(start.children + groups_of(*json, path@) =~= start.children);
            }
        } else {
            assert(start.children + groups_of(*json, path@) =~= start.children);
        }
    }
}

} // verus!
