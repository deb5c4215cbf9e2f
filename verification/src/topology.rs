//! The display topology (paths from sources to targets, and their modes) as
//! plain values, and the transformations that display operations make of it:
//! keeping a primary display, moving the primary, rotating, positioning,
//! enabling and disabling a monitor, and the layout kept for rollback.

use vstd::prelude::*;
use crate::text::{
    chars_of, chars_eq, string_of, string_from_chars, push_all, push_str, push_signed_decimal, signed_decimal,
};
use crate::types::{
    DisplayOrientation, rotation_code, rotation_for_orientation, ManagerError, ApplyResult, orientation_name,
    orientation_debug_name,
};

verus! {

/// The flag of a path that is in use.
pub const PATH_ACTIVE_FLAG: u32 = 1;

/// The mode index that marks a path without a source mode.
pub const MODE_IDX_INVALID: u32 = 0xffff_ffff;

/// The mode type of a source mode.
pub const MODE_TYPE_SOURCE: u32 = 1;

/// Where a mode came from: the topology that was queried (by index), the
/// topology saved when a monitor was disconnected (by index), or made anew.
#[derive(Debug, Clone, Copy, PartialEq, Eq, Structural)]
pub enum ModeOrigin {
    Queried(usize),
    Saved(usize),
    Created,
}

/// A display path: its source (adapter, id and source mode index), its target
/// (adapter, id, rotation and refresh rate), its flags, and the index it had
/// in the queried topology.
#[derive(Debug, Clone, Copy, PartialEq, Eq, Structural)]
pub struct PathInfo {
    pub source_adapter_high: i32,
    pub source_adapter_low: u32,
    pub source_id: u32,
    pub source_mode_idx: u32,
    pub target_adapter_high: i32,
    pub target_adapter_low: u32,
    pub target_id: u32,
    pub rotation: u32,
    pub refresh_numerator: u32,
    pub refresh_denominator: u32,
    pub flags: u32,
    pub raw_index: usize,
}

/// A display mode: its type, adapter and id, and, read as a source mode, its
/// size and desktop position.
#[derive(Debug, Clone, Copy, PartialEq, Eq, Structural)]
pub struct ModeInfo {
    pub info_type: u32,
    pub adapter_high: i32,
    pub adapter_low: u32,
    pub id: u32,
    pub width: u32,
    pub height: u32,
    pub x: i32,
    pub y: i32,
    pub origin: ModeOrigin,
}

/// The display topology: paths and modes.
#[derive(Debug)]
pub struct Topology {
    pub paths: Vec<PathInfo>,
    pub modes: Vec<ModeInfo>,
}

/// A copy of a list of paths.
pub fn copy_paths(v: &Vec<PathInfo>) -> (r: Vec<PathInfo>)
    ensures
        r@ == v@,
{
    let mut r: Vec<PathInfo> = Vec::new();
    let mut i: usize = 0;
    while i < v.len()
        invariant
            i <= v.len(),
            r@ == v@.subrange(0, i as int),
        decreases v.len() - i,
    {
        r.push(v[i]);
        i = i + 1;
        assert(r@ == v@.subrange(0, i as int));
    }
    assert(v@.subrange(0, v.len() as int) == v@);
    r
}

/// A copy of a list of modes.
pub fn copy_mode_infos(v: &Vec<ModeInfo>) -> (r: Vec<ModeInfo>)
    ensures
        r@ == v@,
{
    let mut r: Vec<ModeInfo> = Vec::new();
    let mut i: usize = 0;
    while i < v.len()
        invariant
            i <= v.len(),
            r@ == v@.subrange(0, i as int),
        decreases v.len() - i,
    {
        r.push(v[i]);
        i = i + 1;
        assert(r@ == v@.subrange(0, i as int));
    }
    assert(v@.subrange(0, v.len() as int) == v@);
    r
}

impl Topology {
    /// A copy of this topology.
    pub fn copy(&self) -> (r: Self)
        ensures
            r.paths@ == self.paths@,
            r.modes@ == self.modes@,
    {
        Topology { paths: copy_paths(&self.paths), modes: copy_mode_infos(&self.modes) }
    }
}

/// Whether a path is in use.
pub open spec fn is_active(p: PathInfo) -> bool {
    p.flags & PATH_ACTIVE_FLAG != 0
}

/// Whether path `k` is in use and has a valid source mode.
pub open spec fn has_source_mode(paths: Seq<PathInfo>, modes: Seq<ModeInfo>, k: int) -> bool {
    &&& is_active(paths[k])
    &&& (paths[k].source_mode_idx as int) < modes.len()
    &&& modes[paths[k].source_mode_idx as int].info_type == MODE_TYPE_SOURCE
}

/// Whether some path in use has its source mode at the desktop origin.
pub open spec fn primary_exists(paths: Seq<PathInfo>, modes: Seq<ModeInfo>) -> bool {
    exists|k: int|
        0 <= k < paths.len() && #[trigger] has_source_mode(paths, modes, k)
            && modes[paths[k].source_mode_idx as int].x == 0
            && modes[paths[k].source_mode_idx as int].y == 0
}

/// The first path at or after `k` that is in use and has a valid source mode.
pub open spec fn first_source_path_from(paths: Seq<PathInfo>, modes: Seq<ModeInfo>, k: int) -> Option<int>
    decreases paths.len() - k,
{
    if k < 0 || k >= paths.len() {
        None
    } else if has_source_mode(paths, modes, k) {
        Some(k)
    } else {
        first_source_path_from(paths, modes, k + 1)
    }
}

/// A mode moved to the desktop origin.
pub open spec fn at_origin(m: ModeInfo) -> ModeInfo {
    ModeInfo { x: 0, y: 0, ..m }
}

/// The modes after making sure a primary exists: where no path in use has its
/// source mode at the origin, the source mode of the first such path is moved there.
pub open spec fn normalized_modes(paths: Seq<PathInfo>, modes: Seq<ModeInfo>) -> Seq<ModeInfo> {
    if primary_exists(paths, modes) {
        modes
    } else {
        match first_source_path_from(paths, modes, 0) {
            Some(k) => {
                let idx = paths[k].source_mode_idx as int;
                modes.update(idx, at_origin(modes[idx]))
            },
            None => modes,
        }
    }
}

/// Whether a path is in use.
pub fn path_is_active(p: &PathInfo) -> (b: bool)
    ensures
        b == is_active(*p),
{
    p.flags & PATH_ACTIVE_FLAG != 0
}

/// Whether path `k` is in use and has a valid source mode.
fn has_source_mode_exec(paths: &Vec<PathInfo>, modes: &Vec<ModeInfo>, k: usize) -> (b: bool)
    requires
        k < paths.len(),
    ensures
        b == has_source_mode(paths@, modes@, k as int),
{
    let idx = paths[k].source_mode_idx as usize;
    path_is_active(&paths[k]) && idx < modes.len() && modes[idx].info_type == MODE_TYPE_SOURCE
}

/// Makes sure a primary display exists: where no path in use has its source
/// mode at the desktop origin, moves the source mode of the first such path there.
pub fn normalize_primary_and_positions(paths: &Vec<PathInfo>, modes: &mut Vec<ModeInfo>)
    ensures
        final(modes)@ == normalized_modes(paths@, old(modes)@),
{
    let mut k: usize = 0;
    while k < paths.len()
        invariant
            k <= paths.len(),
            modes@ == old(modes)@,
            forall|j: int|
                0 <= j < k ==> !(#[trigger] has_source_mode(paths@, modes@, j)
                    && modes@[paths@[j].source_mode_idx as int].x == 0
                    && modes@[paths@[j].source_mode_idx as int].y == 0),
        decreases paths.len() - k,
    {
        if has_source_mode_exec(paths, modes, k) {
            let idx = paths[k].source_mode_idx as usize;
            if modes[idx].x == 0 && modes[idx].y == 0 {
                assert(primary_exists(paths@, modes@));
                return;
            }
        }
        k = k + 1;
    }
    assert(!primary_exists(paths@, modes@));
    let mut k: usize = 0;
    while k < paths.len()
        invariant
            k <= paths.len(),
            modes@ == old(modes)@,
            first_source_path_from(paths@, modes@, 0) == first_source_path_from(paths@, modes@, k as int),
            !primary_exists(paths@, old(modes)@),
        decreases paths.len() - k,
    {
        if has_source_mode_exec(paths, modes, k) {
            let idx = paths[k].source_mode_idx as usize;
            let m = modes[idx];
            modes.set(idx, ModeInfo { x: 0, y: 0, ..m });
            return;
        }
        k = k + 1;
    }
}


/// The first path before `n` (and among the names given) whose GDI device name is `name`.
pub open spec fn first_named_path(names: Seq<Option<String>>, n: int, name: Seq<char>) -> Option<int> {
    first_named_path_from(names, n, name, 0)
}

/// The first path at or after `k`, before `n`, whose GDI device name is `name`.
pub open spec fn first_named_path_from(names: Seq<Option<String>>, n: int, name: Seq<char>, k: int) -> Option<int>
    decreases n - k,
{
    if k < 0 || k >= n || k >= names.len() {
        None
    } else if names[k] is Some && names[k]->0@ == name {
        Some(k)
    } else {
        first_named_path_from(names, n, name, k + 1)
    }
}

/// The first of the first `n` paths whose GDI device name is `name`.
pub fn find_named_path(names: &Vec<Option<String>>, n: usize, name: &Vec<char>) -> (r: Option<usize>)
    ensures
        match r {
            Some(k) => first_named_path(names@, n as int, name@) == Some(k as int) && k < n,
            None => first_named_path(names@, n as int, name@) is None,
        },
{
    let mut k: usize = 0;
    while k < n && k < names.len()
        invariant
            first_named_path(names@, n as int, name@) == first_named_path_from(names@, n as int, name@, k as int),
        decreases n - k,
    {
        match &names[k] {
            Some(s) => {
                let c = chars_of(s.as_str());
                if chars_eq(&c, name) {
                    return Some(k);
                }
            },
            None => {},
        }
        k = k + 1;
    }
    None
}

/// The view of a planned topology, or of the message that refuses the plan.
pub open spec fn plan_view(r: Result<Topology, String>) -> Result<(Seq<PathInfo>, Seq<ModeInfo>), Seq<char>> {
    match r {
        Ok(t) => Ok((t.paths@, t.modes@)),
        Err(m) => Err(m@),
    }
}

/// The desktop position of the source mode of path `k`, or the origin where it has none.
pub open spec fn source_position(paths: Seq<PathInfo>, modes: Seq<ModeInfo>, k: int) -> (i32, i32) {
    let idx = paths[k].source_mode_idx as int;
    if idx < modes.len() && modes[idx].info_type == MODE_TYPE_SOURCE {
        (modes[idx].x, modes[idx].y)
    } else {
        (0, 0)
    }
}

/// The modes with every source mode moved by `(dx, dy)`.
pub open spec fn shifted_modes(modes: Seq<ModeInfo>, dx: int, dy: int) -> Seq<ModeInfo> {
    modes.map_values(|m: ModeInfo|
        if m.info_type == MODE_TYPE_SOURCE {
            ModeInfo { x: (m.x + dx) as i32, y: (m.y + dy) as i32, ..m }
        } else {
            m
        })
}

/// Whether moving every source mode so that `(tx, ty)` becomes the origin
/// stays within 32-bit coordinates.
pub open spec fn shift_fits(modes: Seq<ModeInfo>, tx: i32, ty: i32) -> bool {
    &&& tx != i32::MIN
    &&& ty != i32::MIN
    &&& forall|i: int|
        0 <= i < modes.len() && (#[trigger] modes[i]).info_type == MODE_TYPE_SOURCE ==> i32::MIN
            <= modes[i].x - tx <= i32::MAX && i32::MIN <= modes[i].y - ty <= i32::MAX
}

/// The paths with path `k` moved to the front.
pub open spec fn moved_to_front(paths: Seq<PathInfo>, k: int) -> Seq<PathInfo> {
    seq![paths[k]] + paths.remove(k)
}

/// What making the display named `target` primary does to a topology: it must
/// be found and in use; every source mode is moved so that its source mode
/// becomes the origin, its path is moved to the front, and a primary is kept.
pub open spec fn primary_plan(paths: Seq<PathInfo>, modes: Seq<ModeInfo>, names: Seq<Option<String>>, target: Seq<char>) -> Result<(Seq<PathInfo>, Seq<ModeInfo>), Seq<char>> {
    match first_named_path(names, paths.len() as int, target) {
        None => Err("Target display not found."@),
        Some(k) => if !is_active(paths[k]) {
            Err("Cannot set inactive display as primary."@)
        } else {
            let (tx, ty) = source_position(paths, modes, k);
            let np = moved_to_front(paths, k);
            Ok((np, normalized_modes(np, shifted_modes(modes, -tx, -ty))))
        },
    }
}

/// Whether the moves that making `target` primary makes stay within 32-bit coordinates.
pub open spec fn primary_fits(paths: Seq<PathInfo>, modes: Seq<ModeInfo>, names: Seq<Option<String>>, target: Seq<char>) -> bool {
    match first_named_path(names, paths.len() as int, target) {
        Some(k) => is_active(paths[k]) ==> {
            let (tx, ty) = source_position(paths, modes, k);
            shift_fits(modes, tx, ty)
        },
        None => true,
    }
}

/// The desktop position of the source mode of path `k`, or the origin.
fn source_position_exec(paths: &Vec<PathInfo>, modes: &Vec<ModeInfo>, k: usize) -> (r: (i32, i32))
    requires
        k < paths.len(),
    ensures
        r == source_position(paths@, modes@, k as int),
{
    let idx = paths[k].source_mode_idx as usize;
    if idx < modes.len() && modes[idx].info_type == MODE_TYPE_SOURCE {
        (modes[idx].x, modes[idx].y)
    } else {
        (0, 0)
    }
}

/// Whether making the display named `target` primary keeps all positions
/// within 32-bit coordinates.
pub fn primary_shift_fits(topology: &Topology, gdi_names: &Vec<Option<String>>, target: &str) -> (b: bool)
    ensures
        b == primary_fits(topology.paths@, topology.modes@, gdi_names@, target@),
{
    let name = chars_of(target);
    let paths = &topology.paths;
    let modes = &topology.modes;
    match find_named_path(gdi_names, paths.len(), &name) {
        None => true,
        Some(k) => {
            if !path_is_active(&paths[k]) {
                return true;
            }
            let (tx, ty) = source_position_exec(paths, modes, k);
            if tx == i32::MIN || ty == i32::MIN {
                return false;
            }
            let mut i: usize = 0;
            while i < modes.len()
                invariant
                    i <= modes.len(),
                    k < paths.len(),
                    first_named_path(gdi_names@, paths@.len() as int, name@) == Some(k as int),
                    is_active(paths@[k as int]),
                    (tx, ty) == source_position(paths@, modes@, k as int),
                    name@ == target@,
                    paths@ == topology.paths@,
                    modes@ == topology.modes@,
                    tx != i32::MIN,
                    ty != i32::MIN,
                    forall|j: int|
                        0 <= j < i && (#[trigger] modes@[j]).info_type == MODE_TYPE_SOURCE ==> i32::MIN
                            <= modes@[j].x - tx <= i32::MAX && i32::MIN <= modes@[j].y - ty <= i32::MAX,
                decreases modes.len() - i,
            {
                let m = modes[i];
                if m.info_type == MODE_TYPE_SOURCE {
                    let dx: i64 = m.x as i64 - tx as i64;
                    let dy: i64 = m.y as i64 - ty as i64;
                    if dx < i32::MIN as i64 || dx > i32::MAX as i64 || dy < i32::MIN as i64 || dy > i32::MAX as i64 {
                        assert(modes@[i as int] == m);
                        assert(!shift_fits(modes@, tx, ty));
                        return false;
                    }
                }
                i = i + 1;
            }
            true
        },
    }
}

/// Makes the display named `target_device_name` primary: its source mode
/// becomes the desktop origin (every source mode moves with it), its path goes
/// to the front, and a primary is kept. `gdi_names` holds the GDI device name of
/// each path, where it has one.
pub fn set_primary_display(topology: &Topology, gdi_names: &Vec<Option<String>>, target_device_name: &str) -> (r: Result<Topology, String>)
    requires
        primary_fits(topology.paths@, topology.modes@, gdi_names@, target_device_name@),
    ensures
        plan_view(r) == primary_plan(topology.paths@, topology.modes@, gdi_names@, target_device_name@),
{
    let name = chars_of(target_device_name);
    let paths = &topology.paths;
    let modes = &topology.modes;
    let k = match find_named_path(gdi_names, paths.len(), &name) {
        Some(k) => k,
        None => {
            let m = string_of("Target display not found.");
            return Err(m);
        },
    };
    if !path_is_active(&paths[k]) {
        let m = string_of("Cannot set inactive display as primary.");
        return Err(m);
    }
    let (tx, ty) = source_position_exec(paths, modes, k);
    let ghost old_modes = modes@;
    let mut new_modes: Vec<ModeInfo> = Vec::new();
    let mut i: usize = 0;
    while i < modes.len()
        invariant
            i <= modes.len(),
            modes@ == old_modes,
            shift_fits(old_modes, tx, ty),
            new_modes@ == shifted_modes(old_modes, -tx, -ty).subrange(0, i as int),
        decreases modes.len() - i,
    {
        let m = modes[i];
        if m.info_type == MODE_TYPE_SOURCE {
            assert(old_modes[i as int] == m);
            new_modes.push(ModeInfo { x: m.x - tx, y: m.y - ty, ..m });
        } else {
            new_modes.push(m);
        }
        i = i + 1;
        assert(new_modes@ =~= shifted_modes(old_modes, -tx, -ty).subrange(0, i as int));
    }
    let mut new_paths: Vec<PathInfo> = Vec::new();
    new_paths.push(paths[k]);
    let mut j: usize = 0;
    while j < paths.len()
        invariant
            k < paths.len(),
            j <= paths.len(),
            new_paths@ == seq![paths@[k as int]] + (if j <= k {
                paths@.subrange(0, j as int)
            } else {
                paths@.subrange(0, k as int) + paths@.subrange(k + 1, j as int)
            }),
        decreases paths.len() - j,
    {
        if j != k {
            new_paths.push(paths[j]);
        }
        j = j + 1;
        assert(new_paths@ =~= seq![paths@[k as int]] + (if j <= k {
            paths@.subrange(0, j as int)
        } else {
            paths@.subrange(0, k as int) + paths@.subrange(k + 1, j as int)
        }));
    }
    assert(new_paths@ =~= moved_to_front(paths@, k as int));
    assert(new_modes@ =~= shifted_modes(old_modes, -tx, -ty));
    normalize_primary_and_positions(&new_paths, &mut new_modes);
    Ok(Topology { paths: new_paths, modes: new_modes })
}


/// What rotating the display named `device` does to a topology.
pub open spec fn orientation_plan(paths: Seq<PathInfo>, modes: Seq<ModeInfo>, names: Seq<Option<String>>, device: Seq<char>, o: DisplayOrientation) -> Result<(Seq<PathInfo>, Seq<ModeInfo>), Seq<char>> {
    match first_named_path(names, paths.len() as int, device) {
        None => Err("Display not found."@),
        Some(k) => Ok((paths.update(k, PathInfo { rotation: rotation_code(o), ..paths[k] }), modes)),
    }
}

/// Rotates the display named `device_name`: its path takes the rotation code
/// of the orientation.
pub fn set_display_orientation(topology: &Topology, gdi_names: &Vec<Option<String>>, device_name: &str, orientation: DisplayOrientation) -> (r: Result<Topology, String>)
    ensures
        plan_view(r) == orientation_plan(topology.paths@, topology.modes@, gdi_names@, device_name@, orientation),
{
    let name = chars_of(device_name);
    match find_named_path(gdi_names, topology.paths.len(), &name) {
        None => Err(string_of("Display not found.")),
        Some(k) => {
            let mut paths = copy_paths(&topology.paths);
            let p = paths[k];
            paths.set(k, PathInfo { rotation: rotation_for_orientation(orientation), ..p });
            Ok(Topology { paths, modes: copy_mode_infos(&topology.modes) })
        },
    }
}

/// What moving the display named `device` to `(x, y)` does to a topology.
pub open spec fn position_plan(paths: Seq<PathInfo>, modes: Seq<ModeInfo>, names: Seq<Option<String>>, device: Seq<char>, x: i32, y: i32) -> Result<(Seq<PathInfo>, Seq<ModeInfo>), Seq<char>> {
    match first_named_path(names, paths.len() as int, device) {
        None => Err("Display not found."@),
        Some(k) => {
            let idx = paths[k].source_mode_idx as int;
            if idx >= modes.len() {
                Err("Invalid mode index."@)
            } else {
                Ok((paths, modes.update(idx, ModeInfo { x, y, ..modes[idx] })))
            }
        },
    }
}

/// Moves the display named `device_name`: the mode its path points at takes
/// the position `(x, y)`.
pub fn set_display_position(topology: &Topology, gdi_names: &Vec<Option<String>>, device_name: &str, x: i32, y: i32) -> (r: Result<Topology, String>)
    ensures
        plan_view(r) == position_plan(topology.paths@, topology.modes@, gdi_names@, device_name@, x, y),
{
    let name = chars_of(device_name);
    match find_named_path(gdi_names, topology.paths.len(), &name) {
        None => Err(string_of("Display not found.")),
        Some(k) => {
            let idx = topology.paths[k].source_mode_idx as usize;
            if idx >= topology.modes.len() {
                return Err(string_of("Invalid mode index."));
            }
            let mut modes = copy_mode_infos(&topology.modes);
            let m = modes[idx];
            modes.set(idx, ModeInfo { x, y, ..m });
            Ok(Topology { paths: copy_paths(&topology.paths), modes })
        },
    }
}

/// The resolution a newly enabled display without a mode takes: that of the
/// source mode of the first path in use, else 1920 by 1080.
pub open spec fn reference_resolution(paths: Seq<PathInfo>, modes: Seq<ModeInfo>) -> (u32, u32) {
    match first_source_path_from(paths, modes, 0) {
        Some(k) => (modes[paths[k].source_mode_idx as int].width, modes[paths[k].source_mode_idx as int].height),
        None => (1920, 1080),
    }
}

/// Whether mode `m` is a source mode of the given adapter and source id.
pub open spec fn is_source_mode_of(m: ModeInfo, high: i32, low: u32, id: u32) -> bool {
    m.info_type == MODE_TYPE_SOURCE && m.adapter_high == high && m.adapter_low == low && m.id == id
}

/// The first mode at or after `i` that is a source mode of the given adapter and source id.
pub open spec fn source_mode_from(modes: Seq<ModeInfo>, high: i32, low: u32, id: u32, i: int) -> Option<int>
    decreases modes.len() - i,
{
    if i < 0 || i >= modes.len() {
        None
    } else if is_source_mode_of(modes[i], high, low, id) {
        Some(i)
    } else {
        source_mode_from(modes, high, low, id, i + 1)
    }
}

/// The first path at or after `i` with the given source adapter and id.
pub open spec fn source_path_from(paths: Seq<PathInfo>, high: i32, low: u32, id: u32, i: int) -> Option<int>
    decreases paths.len() - i,
{
    if i < 0 || i >= paths.len() {
        None
    } else if paths[i].source_adapter_low == low && paths[i].source_adapter_high == high && paths[i].source_id == id {
        Some(i)
    } else {
        source_path_from(paths, high, low, id, i + 1)
    }
}

/// The source mode that the topology saved at disconnection held for path `p`:
/// the source mode of the first saved path with the same source, where valid.
pub open spec fn saved_source_mode(saved: Option<(Seq<PathInfo>, Seq<ModeInfo>)>, p: PathInfo) -> Option<ModeInfo> {
    match saved {
        Some((sp, sm)) => match source_path_from(sp, p.source_adapter_high, p.source_adapter_low, p.source_id, 0) {
            Some(j) => {
                let idx = sp[j].source_mode_idx as int;
                if idx < sm.len() && sm[idx].info_type == MODE_TYPE_SOURCE {
                    Some(ModeInfo { origin: ModeOrigin::Saved(idx as usize), ..sm[idx] })
                } else {
                    None
                }
            },
            None => None,
        },
        None => None,
    }
}

/// A new source mode for path `p` at the origin, with the given resolution.
pub open spec fn created_mode(p: PathInfo, res: (u32, u32)) -> ModeInfo {
    ModeInfo {
        info_type: MODE_TYPE_SOURCE,
        adapter_high: p.source_adapter_high,
        adapter_low: p.source_adapter_low,
        id: p.source_id,
        width: res.0,
        height: res.1,
        x: 0,
        y: 0,
        origin: ModeOrigin::Created,
    }
}

/// What enabling the display named `device` does to a topology: its path is
/// put in use; where it has no valid source mode it takes a matching source
/// mode of the topology, else the one saved at disconnection, else a new one
/// at the origin with the reference resolution; a primary is kept.
pub open spec fn enable_plan(paths: Seq<PathInfo>, modes: Seq<ModeInfo>, names: Seq<Option<String>>, device: Seq<char>, saved: Option<(Seq<PathInfo>, Seq<ModeInfo>)>) -> Result<(Seq<PathInfo>, Seq<ModeInfo>), Seq<char>> {
    match first_named_path(names, paths.len() as int, device) {
        None => Err("Display not found in display topology."@),
        Some(k) => {
            let p = paths[k];
            let on = PathInfo { flags: p.flags | PATH_ACTIVE_FLAG, ..p };
            let (np, nm) = if p.source_mode_idx == MODE_IDX_INVALID || p.source_mode_idx as int >= modes.len() {
                match source_mode_from(modes, p.source_adapter_high, p.source_adapter_low, p.source_id, 0) {
                    Some(m) => (paths.update(k, PathInfo { source_mode_idx: m as u32, ..on }), modes),
                    None => match saved_source_mode(saved, p) {
                        Some(sm) => (paths.update(k, PathInfo { source_mode_idx: modes.len() as u32, ..on }), modes.push(sm)),
                        None => (
                            paths.update(k, PathInfo { source_mode_idx: modes.len() as u32, ..on }),
                            modes.push(created_mode(p, reference_resolution(paths, modes))),
                        ),
                    },
                }
            } else {
                (paths.update(k, on), modes)
            };
            Ok((np, normalized_modes(np, nm)))
        },
    }
}

/// The number of paths in use among the first `n`.
pub open spec fn active_count(paths: Seq<PathInfo>, n: int) -> nat
    decreases n,
{
    if n <= 0 || n > paths.len() {
        0
    } else {
        active_count(paths, n - 1) + if is_active(paths[n - 1]) { 1nat } else { 0nat }
    }
}

/// What disabling the display named `device` does to a topology: it must be
/// found and not the last path in use; its path is taken out of use and a
/// primary is kept.
pub open spec fn disable_plan(paths: Seq<PathInfo>, modes: Seq<ModeInfo>, names: Seq<Option<String>>, device: Seq<char>) -> Result<(Seq<PathInfo>, Seq<ModeInfo>), Seq<char>> {
    match first_named_path(names, paths.len() as int, device) {
        None => Err("Display not found."@),
        Some(k) => if active_count(paths, paths.len() as int) <= 1 {
            Err("Cannot disable the last active display."@)
        } else {
            let np = paths.update(k, PathInfo { flags: paths[k].flags & !PATH_ACTIVE_FLAG, ..paths[k] });
            Ok((np, normalized_modes(np, modes)))
        },
    }
}

/// The view of an optional topology.
pub open spec fn topo_view(t: Option<Topology>) -> Option<(Seq<PathInfo>, Seq<ModeInfo>)> {
    match t {
        Some(t) => Some((t.paths@, t.modes@)),
        None => None,
    }
}

/// A copy of an optional topology.
pub fn copy_opt_topology(t: &Option<Topology>) -> (r: Option<Topology>)
    ensures
        topo_view(r) == topo_view(*t),
{
    match t {
        Some(t) => Some(t.copy()),
        None => None,
    }
}

/// The topologies the display manager keeps between operations: the one last
/// queried for enabling monitors, the one saved when a monitor was disconnected,
/// and the one to roll back to while a layout change awaits confirmation.
#[derive(Debug)]
pub struct LayoutState {
    pub topology_cache: Option<Topology>,
    pub disconnected_topology: Option<Topology>,
    pub pending_confirmation: Option<Topology>,
}

/// A topology as a value: its paths and modes.
pub type TopologyView = (Seq<PathInfo>, Seq<ModeInfo>);

/// The mathematical value of a [`LayoutState`].
pub struct LayoutStateView {
    pub topology_cache: Option<TopologyView>,
    pub disconnected_topology: Option<TopologyView>,
    pub pending_confirmation: Option<TopologyView>,
}

impl View for LayoutState {
    type V = LayoutStateView;

    open spec fn view(&self) -> LayoutStateView {
        LayoutStateView {
            topology_cache: topo_view(self.topology_cache),
            disconnected_topology: topo_view(self.disconnected_topology),
            pending_confirmation: topo_view(self.pending_confirmation),
        }
    }
}

/// The state after `t` is kept as the layout to roll back to.
pub open spec fn state_after_save(s: LayoutStateView, t: TopologyView) -> LayoutStateView {
    LayoutStateView { pending_confirmation: Some(t), ..s }
}

/// The state after the layout change is confirmed.
pub open spec fn state_after_confirm(s: LayoutStateView) -> LayoutStateView {
    LayoutStateView { pending_confirmation: None, ..s }
}

/// What a rollback takes (the layout to roll back to, if any) and the state it leaves.
pub open spec fn rollback_outcome(s: LayoutStateView) -> (Option<TopologyView>, LayoutStateView) {
    (s.pending_confirmation, LayoutStateView { pending_confirmation: None, ..s })
}

/// The state after enabling a monitor in `current`, given whether the monitor was found.
pub open spec fn state_after_enable(s: LayoutStateView, current: TopologyView, found: bool) -> LayoutStateView {
    if found {
        LayoutStateView { pending_confirmation: Some(current), ..s }
    } else {
        LayoutStateView { pending_confirmation: None, topology_cache: None, ..s }
    }
}

/// The state after disabling a monitor in `current`.
pub open spec fn state_after_disable(s: LayoutStateView, current: TopologyView) -> LayoutStateView {
    LayoutStateView {
        topology_cache: Some(current),
        disconnected_topology: Some(current),
        pending_confirmation: Some(current),
    }
}

impl LayoutState {
    /// A state that keeps nothing.
    pub fn new() -> (r: Self)
        ensures
            r@.topology_cache is None,
            r@.disconnected_topology is None,
            r@.pending_confirmation is None,
    {
        LayoutState { topology_cache: None, disconnected_topology: None, pending_confirmation: None }
    }

    /// A copy of the topology kept for enabling monitors, if any.
    pub fn cached_topology(&self) -> (r: Option<Topology>)
        ensures
            topo_view(r) == self@.topology_cache,
    {
        copy_opt_topology(&self.topology_cache)
    }

    /// Forgets the topology kept for enabling monitors, once a change was applied.
    pub fn forget_cached_topology(&mut self)
        ensures
            final(self)@ == (LayoutStateView { topology_cache: None, ..old(self)@ }),
    {
        self.topology_cache = None;
    }
}

/// The source mode of the topology saved at disconnection for path `p`.
fn saved_source_mode_exec(saved: &Option<Topology>, p: &PathInfo) -> (r: Option<ModeInfo>)
    ensures
        r == saved_source_mode(topo_view(*saved), *p),
{
    match saved {
        Some(t) => {
            let mut j: usize = 0;
            while j < t.paths.len()
                invariant
                    topo_view(*saved) == Some((t.paths@, t.modes@)),
                    source_path_from(t.paths@, p.source_adapter_high, p.source_adapter_low, p.source_id, 0)
                        == source_path_from(t.paths@, p.source_adapter_high, p.source_adapter_low, p.source_id, j as int),
                decreases t.paths.len() - j,
            {
                let sp = t.paths[j];
                if sp.source_adapter_low == p.source_adapter_low && sp.source_adapter_high == p.source_adapter_high
                    && sp.source_id == p.source_id {
                    let idx = sp.source_mode_idx as usize;
                    if idx < t.modes.len() && t.modes[idx].info_type == MODE_TYPE_SOURCE {
                        let m = t.modes[idx];
                        return Some(ModeInfo { origin: ModeOrigin::Saved(idx), ..m });
                    } else {
                        return None;
                    }
                }
                j = j + 1;
            }
            None
        },
        None => None,
    }
}

/// The resolution a newly enabled display without a mode takes.
fn reference_resolution_exec(paths: &Vec<PathInfo>, modes: &Vec<ModeInfo>) -> (r: (u32, u32))
    ensures
        r == reference_resolution(paths@, modes@),
{
    let mut k: usize = 0;
    while k < paths.len()
        invariant
            first_source_path_from(paths@, modes@, 0) == first_source_path_from(paths@, modes@, k as int),
        decreases paths.len() - k,
    {
        if has_source_mode_exec(paths, modes, k) {
            let idx = paths[k].source_mode_idx as usize;
            return (modes[idx].width, modes[idx].height);
        }
        k = k + 1;
    }
    (1920, 1080)
}

/// The first source mode of the given adapter and source id.
fn source_mode_exec(modes: &Vec<ModeInfo>, high: i32, low: u32, id: u32) -> (r: Option<usize>)
    ensures
        match r {
            Some(i) => source_mode_from(modes@, high, low, id, 0) == Some(i as int) && i < modes.len(),
            None => source_mode_from(modes@, high, low, id, 0) is None,
        },
{
    let mut i: usize = 0;
    while i < modes.len()
        invariant
            source_mode_from(modes@, high, low, id, 0) == source_mode_from(modes@, high, low, id, i as int),
        decreases modes.len() - i,
    {
        let m = modes[i];
        if m.info_type == MODE_TYPE_SOURCE && m.adapter_high == high && m.adapter_low == low && m.id == id {
            return Some(i);
        }
        i = i + 1;
    }
    None
}

/// The number of paths in use.
fn count_active(paths: &Vec<PathInfo>) -> (r: usize)
    ensures
        r as nat == active_count(paths@, paths@.len() as int),
{
    let mut n: usize = 0;
    let mut c: usize = 0;
    while n < paths.len()
        invariant
            n <= paths.len(),
            c as nat == active_count(paths@, n as int),
            c <= n,
        decreases paths.len() - n,
    {
        if path_is_active(&paths[n]) {
            c = c + 1;
        }
        n = n + 1;
    }
    c
}

/// Plans enabling or disabling the monitor named `device_name` in `current`
/// (`gdi_names` holds the GDI device name of each path, where it has one), and
/// keeps in `state` what the operation keeps. Enabling records `current` as the
/// layout to roll back to, and forgets it and the kept topology where the
/// monitor is not found. Disabling keeps `current` as the topology saved at
/// disconnection, as the layout to roll back to, and as the kept topology.
pub fn toggle_monitor_state(state: &mut LayoutState, current: &Topology, gdi_names: &Vec<Option<String>>, device_name: &str, enabled: bool) -> (r: Result<Topology, String>)
    ensures
        enabled ==> plan_view(r) == enable_plan(current.paths@, current.modes@, gdi_names@, device_name@, old(state)@.disconnected_topology),
        enabled ==> final(state)@ == state_after_enable(old(state)@, (current.paths@, current.modes@), r is Ok),
        !enabled ==> plan_view(r) == disable_plan(current.paths@, current.modes@, gdi_names@, device_name@),
        !enabled ==> final(state)@ == state_after_disable(old(state)@, (current.paths@, current.modes@)),
{
    let name = chars_of(device_name);
    let paths = &current.paths;
    let modes = &current.modes;
    if enabled {
        state.pending_confirmation = Some(current.copy());
        let reference = reference_resolution_exec(paths, modes);
        match find_named_path(gdi_names, paths.len(), &name) {
            None => {
                state.topology_cache = None;
                state.pending_confirmation = None;
                Err(string_of("Display not found in display topology."))
            },
            Some(k) => {
                let p = paths[k];
                let on = PathInfo { flags: p.flags | PATH_ACTIVE_FLAG, ..p };
                let mut new_paths = copy_paths(paths);
                let mut new_modes = copy_mode_infos(modes);
                if p.source_mode_idx == MODE_IDX_INVALID || p.source_mode_idx as usize >= modes.len() {
                    match source_mode_exec(modes, p.source_adapter_high, p.source_adapter_low, p.source_id) {
                        Some(m) => {
                            new_paths.set(k, PathInfo { source_mode_idx: m as u32, ..on });
                        },
                        None => {
                            let len = new_modes.len();
                            match saved_source_mode_exec(&state.disconnected_topology, &p) {
                                Some(sm) => {
                                    new_modes.push(sm);
                                },
                                None => {
                                    new_modes.push(ModeInfo {
                                        info_type: MODE_TYPE_SOURCE,
                                        adapter_high: p.source_adapter_high,
                                        adapter_low: p.source_adapter_low,
                                        id: p.source_id,
                                        width: reference.0,
                                        height: reference.1,
                                        x: 0,
                                        y: 0,
                                        origin: ModeOrigin::Created,
                                    });
                                },
                            }
                            new_paths.set(k, PathInfo { source_mode_idx: len as u32, ..on });
                        },
                    }
                } else {
                    new_paths.set(k, on);
                }
                normalize_primary_and_positions(&new_paths, &mut new_modes);
                Ok(Topology { paths: new_paths, modes: new_modes })
            },
        }
    } else {
        state.disconnected_topology = Some(current.copy());
        state.pending_confirmation = Some(current.copy());
        state.topology_cache = Some(current.copy());
        let total_active = count_active(paths);
        match find_named_path(gdi_names, paths.len(), &name) {
            None => Err(string_of("Display not found.")),
            Some(k) => {
                if total_active <= 1 {
                    return Err(string_of("Cannot disable the last active display."));
                }
                let p = paths[k];
                let mut new_paths = copy_paths(paths);
                new_paths.set(k, PathInfo { flags: p.flags & !PATH_ACTIVE_FLAG, ..p });
                let mut new_modes = copy_mode_infos(modes);
                normalize_primary_and_positions(&new_paths, &mut new_modes);
                Ok(Topology { paths: new_paths, modes: new_modes })
            },
        }
    }
}

/// Whether a layout change awaits confirmation.
pub fn has_pending_confirmation(state: &LayoutState) -> (r: bool)
    ensures
        r == (state@.pending_confirmation is Some),
{
    state.pending_confirmation.is_some()
}

/// Confirms the layout change: there is no longer a layout to roll back to.
pub fn confirm_layout(state: &mut LayoutState) -> (r: Result<(), ManagerError>)
    ensures
        r is Ok,
        final(state)@ == state_after_confirm(old(state)@),
{
    state.pending_confirmation = None;
    Ok(())
}

/// Takes the layout to roll back to, which is then no longer kept; fails with
/// `NoPendingConfirmation` where there is none.
pub fn rollback_layout(state: &mut LayoutState) -> (r: Result<Topology, ManagerError>)
    ensures
        match r {
            Ok(t) => rollback_outcome(old(state)@).0 == Some((t.paths@, t.modes@)),
            Err(e) => rollback_outcome(old(state)@).0 is None && e is NoPendingConfirmation,
        },
        final(state)@ == rollback_outcome(old(state)@).1,
{
    match state.pending_confirmation.take() {
        Some(t) => Ok(t),
        None => Err(ManagerError::NoPendingConfirmation),
    }
}

/// Keeps `topology` as the layout to roll back to.
pub fn save_rollback_point(state: &mut LayoutState, topology: Topology)
    ensures
        final(state)@ == state_after_save(old(state)@, (topology.paths@, topology.modes@)),
{
    state.pending_confirmation = Some(topology);
}

/// The message that reports a display rotated.
pub open spec fn orientation_message(o: DisplayOrientation, device: Seq<char>) -> Seq<char> {
    "Orientation set to "@ + orientation_name(o) + " for "@ + device + "."@
}

/// The message that reports the display named `device_name` rotated to `orientation`.
pub fn orientation_set_message(orientation: DisplayOrientation, device_name: &str) -> (r: String)
    ensures
        r@ == orientation_message(orientation, device_name@),
{
    let mut v = chars_of("Orientation set to ");
    let name = orientation_debug_name(orientation);
    push_all(&mut v, &name);
    push_str(&mut v, " for ");
    push_str(&mut v, device_name);
    push_str(&mut v, ".");
    string_from_chars(&v)
}

/// The message that reports a display moved.
pub open spec fn position_message(device: Seq<char>, x: i32, y: i32) -> Seq<char> {
    "Position set to ("@ + signed_decimal(x as int) + ", "@ + signed_decimal(y as int) + ") for "@ + device + "."@
}

/// The message that reports the display named `device_name` moved to (`x`, `y`).
pub fn position_set_message(device_name: &str, x: i32, y: i32) -> (r: String)
    ensures
        r@ == position_message(device_name@, x, y),
{
    let mut v = chars_of("Position set to (");
    push_signed_decimal(&mut v, x as i64);
    push_str(&mut v, ", ");
    push_signed_decimal(&mut v, y as i64);
    push_str(&mut v, ") for ");
    push_str(&mut v, device_name);
    push_str(&mut v, ".");
    string_from_chars(&v)
}

/// The message that reports a display made primary.
pub open spec fn primary_message(device: Seq<char>) -> Seq<char> {
    "'"@ + device + "' is now primary."@
}

/// The message that reports the display named `device_name` made primary.
pub fn primary_set_message(device_name: &str) -> (r: String)
    ensures
        r@ == primary_message(device_name@),
{
    let mut v = chars_of("'");
    push_str(&mut v, device_name);
    push_str(&mut v, "' is now primary.");
    string_from_chars(&v)
}

/// The outcome of applying the topology that connects (`enabled`) or
/// disconnects a monitor, by the status the system returned: 0 succeeds.
pub open spec fn toggle_result(device: Seq<char>, enabled: bool, status: i32) -> (bool, Seq<char>) {
    if status == 0 {
        (true, "Monitor "@ + device + (if enabled { " connected."@ } else { " disconnected."@ }))
    } else if enabled {
        (false, "Failed to connect monitor: "@ + signed_decimal(status as int))
    } else {
        (false, "Failed to disconnect monitor: "@ + signed_decimal(status as int))
    }
}

/// The outcome of applying the topology that connects (`enabled`) or
/// disconnects the monitor named `device_name`, by the status returned.
pub fn toggle_outcome(device_name: &str, enabled: bool, status: i32) -> (r: ApplyResult)
    ensures
        (r.success, r.message@) == toggle_result(device_name@, enabled, status),
{
    if status == 0 {
        let mut v = chars_of("Monitor ");
        push_str(&mut v, device_name);
        if enabled {
            push_str(&mut v, " connected.");
        } else {
            push_str(&mut v, " disconnected.");
        }
        ApplyResult::ok(string_from_chars(&v))
    } else {
        let mut v = if enabled {
            chars_of("Failed to connect monitor: ")
        } else {
            chars_of("Failed to disconnect monitor: ")
        };
        push_signed_decimal(&mut v, status as i64);
        ApplyResult::err(string_from_chars(&v))
    }
}

/// The state after the topology that connects a monitor was applied with
/// `status`: on success (0) the kept topology is forgotten, else nothing changes.
pub open spec fn state_after_enable_applied(s: LayoutStateView, status: i32) -> LayoutStateView {
    if status == 0 {
        LayoutStateView { topology_cache: None, ..s }
    } else {
        s
    }
}

/// Records the status with which the topology that connects the monitor named
/// `device_name` was applied, and gives the outcome: on success the topology
/// kept for enabling monitors is forgotten.
pub fn finish_enable(state: &mut LayoutState, device_name: &str, status: i32) -> (r: ApplyResult)
    ensures
        (r.success, r.message@) == toggle_result(device_name@, true, status),
        final(state)@ == state_after_enable_applied(old(state)@, status),
{
    if status == 0 {
        state.forget_cached_topology();
    }
    toggle_outcome(device_name, true, status)
}

/// The outcome of applying the layout rolled back to, by the status the
/// system returned: 0 succeeds, any other is a backend error.
pub fn rollback_outcome_of(status: i32) -> (r: Result<(), ManagerError>)
    ensures
        status == 0 ==> r is Ok,
        status != 0 ==> (r matches Err(ManagerError::Backend(m)) && m@ == "rollback failed: "@ + signed_decimal(status as int)),
{
    if status == 0 {
        Ok(())
    } else {
        let mut v = chars_of("rollback failed: ");
        push_signed_decimal(&mut v, status as i64);
        Err(ManagerError::Backend(string_from_chars(&v)))
    }
}

} // verus!
