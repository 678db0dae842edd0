//! Assembling the caches from what a refresh fetched: per controller its
//! scripts, its devices and the command trees that could be fetched.
use vstd::prelude::*;
use crate::api_client::{BLControllerInfo, BLDeviceInfo, BLScript, BLNode};
use crate::str_map::{StrMap, assoc_map};

verus! {

/// What a refresh fetched for one controller. A failed fetch of the scripts
/// or of the devices gives an empty list; `trees` holds, in device order,
/// the devices whose command tree could be fetched, with their trees.
#[derive(Debug)]
pub struct ControllerData {
    pub controller: BLControllerInfo,
    pub scripts: Vec<BLScript>,
    pub devices: Vec<BLDeviceInfo>,
    pub trees: Vec<(String, BLNode)>,
}

/// The controllers and caches that a refresh leaves.
#[derive(Debug)]
pub struct Caches {
    pub controllers: Vec<BLControllerInfo>,
    pub scripts: StrMap<Vec<BLScript>>,
    pub devices: StrMap<Vec<BLDeviceInfo>>,
    pub trees: StrMap<StrMap<BLNode>>,
}

/// The scripts of the first `n` controllers by name; a later controller
/// with the same name wins.
pub open spec fn scripts_map(data: Seq<ControllerData>, n: int) -> Map<
    Seq<char>,
    Vec<BLScript>,
>
    decreases n,
{
    if n <= 0 {
        Map::empty()
    } else {
        scripts_map(data, n - 1).insert(data[n - 1].controller.name@, data[n - 1].scripts)
    }
}

/// The devices of the first `n` controllers by name.
pub open spec fn devices_map(data: Seq<ControllerData>, n: int) -> Map<
    Seq<char>,
    Vec<BLDeviceInfo>,
>
    decreases n,
{
    if n <= 0 {
        Map::empty()
    } else {
        devices_map(data, n - 1).insert(data[n - 1].controller.name@, data[n - 1].devices)
    }
}

/// The command trees of the first `n` controllers by name, each a map from
/// device name to tree.
pub open spec fn trees_map(data: Seq<ControllerData>, n: int) -> Map<
    Seq<char>,
    Map<Seq<char>, BLNode>,
>
    decreases n,
{
    if n <= 0 {
        Map::empty()
    } else {
        trees_map(data, n - 1).insert(data[n - 1].controller.name@, assoc_map(data[n - 1].trees@))
    }
}

/// The views of a map of maps.
pub open spec fn nested_view(m: Map<Seq<char>, StrMap<BLNode>>) -> Map<Seq<char>, Map<Seq<char>, BLNode>> {
    m.map_values(|t: StrMap<BLNode>| t@)
}

/// The map of device names to trees, in the order given; a later tree for
/// the same device wins.
pub fn tree_map_of(trees: Vec<(String, BLNode)>) -> (r: StrMap<BLNode>)
    ensures
        r@ == assoc_map(trees@),
{
    let ghost all = trees@;
    let total = trees.len();
    let mut rest = trees;
    let mut m: StrMap<BLNode> = StrMap::new();
    let mut i: usize = 0;
    while rest.len() > 0
        invariant
            i <= all.len(),
            all.len() == total,
            rest@ == all.skip(i as int),
            m@ == assoc_map(all.take(i as int)),
        decreases rest@.len(),
    {
        let (k, v) = rest.remove(0);
        proof {
            assert(all.take(i + 1) =~= all.take(i as int).push(all[i as int]));
            assert(all.take(i + 1).drop_last() =~= all.take(i as int));
        }
        m.insert(k, v);
        assert(rest@ =~= all.skip(i + 1));
        i = i + 1;
    }
    assert(all.take(i as int) =~= all);
    m
}

/// The controllers of what was fetched, in order.
pub open spec fn controllers_of(data: Seq<ControllerData>) -> Seq<BLControllerInfo> {
    data.map_values(|d: ControllerData| d.controller)
}

/// The controllers and caches for what a refresh fetched, one entry per
/// controller in the order the API listed them.
pub fn assemble_caches(data: Vec<ControllerData>) -> (r: Caches)
    ensures
        r.controllers@ == controllers_of(data@),
        r.scripts@ == scripts_map(data@, data@.len() as int),
        r.devices@ == devices_map(data@, data@.len() as int),
        nested_view(r.trees@) == trees_map(data@, data@.len() as int),
{
    let ghost all = data@;
    let n = data.len();
    let mut rest = data;
    let mut controllers: Vec<BLControllerInfo> = Vec::new();
    let mut scripts: StrMap<Vec<BLScript>> = StrMap::new();
    let mut devices: StrMap<Vec<BLDeviceInfo>> = StrMap::new();
    let mut trees: StrMap<StrMap<BLNode>> = StrMap::new();
    let mut i: usize = 0;
    assert(nested_view(trees@) =~= trees_map(all, 0));
    while i < n
        invariant
            n == all.len(),
            i <= n,
            rest@ == all.skip(i as int),
            controllers@ == controllers_of(all.take(i as int)),
            scripts@ == scripts_map(all, i as int),
            devices@ == devices_map(all, i as int),
            nested_view(trees@) == trees_map(all, i as int),
        decreases n - i,
    {
        let d = rest.remove(0);
        assert(d == all[i as int]);
        let name = d.controller.name.clone();
        scripts.insert(name.clone(), d.scripts);
        devices.insert(name.clone(), d.devices);
        let t = tree_map_of(d.trees);
        let ghost before = trees@;
        trees.insert(name, t);
        assert(nested_view(trees@) =~= nested_view(before).insert(all[i as int].controller.name@, t@));
        let ghost prev = controllers@;
        controllers.push(d.controller);
        assert(all.take(i + 1) =~= all.take(i as int).push(all[i as int]));
        assert(controllers@ =~= controllers_of(all.take(i + 1)));
        assert(rest@ =~= all.skip(i + 1));
        i = i + 1;
    }
    assert(all.take(n as int) =~= all);
    Caches { controllers, scripts, devices, trees }
}

} // verus!
