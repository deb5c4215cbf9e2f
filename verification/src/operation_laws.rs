//! What each display operation's result must satisfy, stated directly in terms
//! of its inputs: the setting a mode request takes, the display a name finds,
//! where a move puts a display, how making a display primary reorders the
//! paths, what a detected display reports, and what applying a profile asks for.

use vstd::prelude::*;
use crate::types::{DisplayMode, DisplayDevice, DisplayDeviceView, DisplayIdView, same_display_by_assignment};
use crate::topology::{
    PathInfo, ModeInfo, first_named_path, first_named_path_from, position_plan, primary_plan, is_active,
    normalized_modes, shifted_modes, moved_to_front, source_position, first_source_path_from, has_source_mode,
    MODE_TYPE_SOURCE,
};
use crate::settings::{mode_choice, serving_from, ModeChoice, scale_dpi, refresh_steps, alternate_from};
use crate::topology::orientation_plan;
use crate::types::DisplayOrientation;
use crate::enumeration::{adapter_device, DisplayScan, opt_at};
use crate::session::{
    ProfileActionView, profile_actions, user_index, remapped_actions, assignment_actions, assigned_display_from,
    current_user_actions, login_actions, target_display_from,
};
use crate::profiles::{DisplayAssignmentView, UserDisplayProfile, remap_prefix};
use crate::laws::{law_remap_well_formed, remapped_from_some, remapped_from, law_assignment_match_symmetric};

verus! {

/// Whether listed setting `m` has the requested resolution and refresh rate
/// and a colour depth that is unreported or `depth`.
pub open spec fn setting_fits(m: DisplayMode, width: u32, height: u32, refresh_rate: u32, depth: u32) -> bool {
    &&& m.width == width
    &&& m.height == height
    &&& m.refresh_rate == refresh_rate
    &&& (m.bits_per_pixel == 0 || m.bits_per_pixel == depth)
}

proof fn lemma_serving_from(listed: Seq<DisplayMode>, width: u32, height: u32, refresh_rate: u32, depth: u32, i: int)
    requires
        0 <= i,
    ensures
        serving_from(listed, width, height, refresh_rate, depth, i) matches Some(p) ==> {
            &&& i <= p < listed.len()
            &&& p < 301
            &&& setting_fits(listed[p], width, height, refresh_rate, depth)
            &&& forall|j: int| i <= j < p ==> !setting_fits(#[trigger] listed[j], width, height, refresh_rate, depth)
        },
        serving_from(listed, width, height, refresh_rate, depth, i) is None ==> forall|j: int|
            i <= j < listed.len() && j < 301 ==> !setting_fits(#[trigger] listed[j], width, height, refresh_rate, depth),
    decreases 301 - i,
{
    if i < listed.len() && i < 301 && !setting_fits(listed[i], width, height, refresh_rate, depth) {
        lemma_serving_from(listed, width, height, refresh_rate, depth, i + 1);
    }
}

/// A mode request takes the first of the first 301 listed settings with the
/// requested width, height and refresh rate and a depth that is unreported or
/// the current one (that of the first listed setting, or 32 where it reports
/// none); where none fits, the first setting adjusted to the request at the
/// current depth; and it fails exactly where nothing is listed.
pub proof fn law_mode_choice(listed: Seq<DisplayMode>, width: u32, height: u32, refresh_rate: u32)
    ensures
        ({
            let depth: u32 = if listed.len() > 0 && listed[0].bits_per_pixel > 0 {
                listed[0].bits_per_pixel
            } else {
                32
            };
            let r = mode_choice(listed, width, height, refresh_rate);
            &&& (r is Err <==> listed.len() == 0)
            &&& (r matches Ok(ModeChoice::Listed(i)) ==> {
                &&& (i as int) < listed.len()
                &&& i < 301
                &&& listed[i as int].width == width
                &&& listed[i as int].height == height
                &&& listed[i as int].refresh_rate == refresh_rate
                &&& (listed[i as int].bits_per_pixel == 0 || listed[i as int].bits_per_pixel == depth)
                &&& forall|j: int| 0 <= j < i ==> !setting_fits(#[trigger] listed[j], width, height, refresh_rate, depth)
            })
            &&& (r matches Ok(ModeChoice::Adjusted { width: w, height: h, refresh_rate: f, bits_per_pixel: b, fields: _ }) ==> {
                &&& w == width
                &&& h == height
                &&& f == refresh_rate
                &&& b == depth
                &&& forall|j: int| 0 <= j < listed.len() && j < 301 ==> !setting_fits(#[trigger] listed[j], width, height, refresh_rate, depth)
            })
        }),
{
    let depth: u32 = if listed.len() > 0 && listed[0].bits_per_pixel > 0 {
        listed[0].bits_per_pixel
    } else {
        32
    };
    lemma_serving_from(listed, width, height, refresh_rate, depth, 0);
}

proof fn lemma_named_from(names: Seq<Option<String>>, n: int, name: Seq<char>, k: int)
    requires
        0 <= k,
    ensures
        first_named_path_from(names, n, name, k) matches Some(p) ==> {
            &&& k <= p < n
            &&& p < names.len()
            &&& names[p] matches Some(s) && s@ == name
            &&& forall|j: int| k <= j < p ==> !(#[trigger] names[j] matches Some(s) && s@ == name)
        },
        first_named_path_from(names, n, name, k) is None ==> forall|j: int|
            k <= j < n && j < names.len() ==> !(#[trigger] names[j] matches Some(s) && s@ == name),
    decreases n - k,
{
    if k < n && k < names.len() && !(names[k] matches Some(s) && s@ == name) {
        lemma_named_from(names, n, name, k + 1);
    }
}

/// A display is found by name at the first of the first `n` paths whose GDI
/// device name is that name, and not found where none is.
pub proof fn law_first_named_path(names: Seq<Option<String>>, n: int, name: Seq<char>)
    ensures
        first_named_path(names, n, name) matches Some(k) ==> {
            &&& 0 <= k < n
            &&& k < names.len()
            &&& names[k] matches Some(s) && s@ == name
            &&& forall|j: int| 0 <= j < k ==> !(#[trigger] names[j] matches Some(s) && s@ == name)
        },
        first_named_path(names, n, name) is None ==> forall|j: int|
            0 <= j < n && j < names.len() ==> !(#[trigger] names[j] matches Some(s) && s@ == name),
{
    lemma_named_from(names, n, name, 0);
}

/// Moving a display changes only the source mode its path points at, which
/// takes the requested position; the paths and every other mode stay as they
/// were. It fails where the display is not found or its path points past the modes.
pub proof fn law_position_moves_named_source(paths: Seq<PathInfo>, modes: Seq<ModeInfo>, names: Seq<Option<String>>, device: Seq<char>, x: i32, y: i32)
    ensures
        match first_named_path(names, paths.len() as int, device) {
            None => position_plan(paths, modes, names, device, x, y) == Err::<(Seq<PathInfo>, Seq<ModeInfo>), Seq<char>>("Display not found."@),
            Some(k) => {
                let idx = paths[k].source_mode_idx as int;
                if idx >= modes.len() {
                    position_plan(paths, modes, names, device, x, y) == Err::<(Seq<PathInfo>, Seq<ModeInfo>), Seq<char>>("Invalid mode index."@)
                } else {
                    position_plan(paths, modes, names, device, x, y) matches Ok((np, nm)) && {
                        &&& np == paths
                        &&& nm.len() == modes.len()
                        &&& nm[idx].x == x
                        &&& nm[idx].y == y
                        &&& (ModeInfo { x: modes[idx].x, y: modes[idx].y, ..nm[idx] }) == modes[idx]
                        &&& forall|j: int| 0 <= j < modes.len() && j != idx ==> #[trigger] nm[j] == modes[j]
                    }
                }
            },
        },
{
}

/// Making a display primary reorders the paths only: its path comes first and
/// the others follow in their order; the modes keep their number, and every
/// mode that is not a source mode stays as it was.
pub proof fn law_primary_reorders_paths(paths: Seq<PathInfo>, modes: Seq<ModeInfo>, names: Seq<Option<String>>, target: Seq<char>)
    ensures
        primary_plan(paths, modes, names, target) matches Ok((np, nm)) ==> first_named_path(
            names,
            paths.len() as int,
            target,
        ) matches Some(k) && {
            &&& 0 <= k < paths.len()
            &&& np.len() == paths.len()
            &&& np[0] == paths[k]
            &&& forall|j: int| 0 <= j < k ==> #[trigger] np[j + 1] == paths[j]
            &&& forall|j: int| k < j < paths.len() ==> #[trigger] np[j] == paths[j]
            &&& nm.len() == modes.len()
            &&& forall|j: int| 0 <= j < modes.len() && modes[j].info_type != MODE_TYPE_SOURCE ==> #[trigger] nm[j] == modes[j]
        },
{
    law_first_named_path(names, paths.len() as int, target);
    if let Some(k) = first_named_path(names, paths.len() as int, target) {
        if is_active(paths[k]) {
            let (tx, ty) = source_position(paths, modes, k);
            let np = moved_to_front(paths, k);
            let sm = shifted_modes(modes, -tx, -ty);
            assert forall|j: int| 0 <= j < k implies #[trigger] np[j + 1] == paths[j] by {
                assert(np[j + 1] == paths.remove(k)[j]);
            }
            assert forall|j: int| k < j < paths.len() implies #[trigger] np[j] == paths[j] by {
                assert(np[j] == paths.remove(k)[j - 1]);
            }
            lemma_first_source_found(np, sm, 0);
            let nm = normalized_modes(np, sm);
            assert forall|j: int| 0 <= j < modes.len() && modes[j].info_type != MODE_TYPE_SOURCE implies #[trigger] nm[j] == modes[j] by {
                assert(sm[j] == modes[j]);
            }
        }
    }
}

proof fn lemma_first_source_found(paths: Seq<PathInfo>, modes: Seq<ModeInfo>, i: int)
    ensures
        first_source_path_from(paths, modes, i) matches Some(j) ==> 0 <= j < paths.len() && has_source_mode(paths, modes, j),
    decreases paths.len() - i,
{
    if 0 <= i < paths.len() && !has_source_mode(paths, modes, i) {
        lemma_first_source_found(paths, modes, i + 1);
    }
}

/// A detected display reports the adapter it was found on and, from the first
/// path of that adapter's name: the target's identity, whether the path is in
/// use, its position (that of its source mode where the path is in use and
/// points at a mode, else the origin), whether it is primary (at the origin),
/// and the size of that mode. A display is detected exactly where its adapter
/// is no mirror, a path has its name, and that path reports a non-empty EDID hash.
pub proof fn law_detected_device(scan: DisplayScan, a: int)
    requires
        0 <= a < scan.adapters@.len(),
    ensures
        ({
            let ad = scan.adapters@[a];
            let paths = scan.topology.paths@;
            let modes = scan.topology.modes@;
            let found = first_named_path(scan.gdi_names@, paths.len() as int, ad.device_name@);
            &&& (adapter_device(scan, a) is Some <==> (ad.state_flags & 8 == 0 && match found {
                Some(k) => match opt_at(scan.edid_hashes@, k) {
                    Some(e) => e.len() > 0,
                    None => false,
                },
                None => false,
            }))
            &&& (adapter_device(scan, a) matches Some(d) ==> found matches Some(k) && {
                let p = paths[k];
                let idx = p.source_mode_idx as int;
                let placed = is_active(p) && idx < modes.len();
                &&& d.device_name == ad.device_name@
                &&& d.adapter_name == ad.device_string@
                &&& d.display_id.target_id == p.target_id
                &&& d.display_id.edid_hash == opt_at(scan.edid_hashes@, k)
                &&& d.is_active == is_active(p)
                &&& !d.not_detected
                &&& (placed ==> d.position_x == modes[idx].x && d.position_y == modes[idx].y)
                &&& (!placed ==> d.position_x == 0 && d.position_y == 0)
                &&& d.is_primary == (placed && modes[idx].x == 0 && modes[idx].y == 0)
                &&& (idx < modes.len() ==> (d.current_mode matches Some(m) && m.width == modes[idx].width
                    && m.height == modes[idx].height))
            })
        }),
{

}

/// The mode settings a list of actions asks for, in order: the device, and
/// the width, height and refresh rate it is set to.
pub open spec fn applied_settings(s: Seq<ProfileActionView>) -> Seq<(Seq<char>, u32, u32, u32)>
    decreases s.len(),
{
    if s.len() == 0 {
        seq![]
    } else {
        let prev = applied_settings(s.drop_last());
        match s.last() {
            ProfileActionView::ApplySettings { device_name, width, height, refresh_rate, persist: _ } => prev.push(
                (device_name, width, height, refresh_rate),
            ),
            _ => prev,
        }
    }
}

/// Whether display `i` is the first connected display that a saved identity names.
pub open spec fn first_matching_display(ds: Seq<DisplayDevice>, id: DisplayIdView, i: int) -> bool {
    &&& 0 <= i < ds.len()
    &&& same_display_by_assignment(ds[i].display_id@, id)
    &&& forall|j: int| 0 <= j < i ==> !same_display_by_assignment(#[trigger] ds[j].display_id@, id)
}

proof fn lemma_applied_concat(a: Seq<ProfileActionView>, b: Seq<ProfileActionView>)
    ensures
        applied_settings(a + b) == applied_settings(a) + applied_settings(b),
    decreases b.len(),
{
    if b.len() == 0 {
        assert(a + b =~= a);
        assert(applied_settings(b) =~= seq![]);
        assert(applied_settings(a) + applied_settings(b) =~= applied_settings(a));
    } else {
        lemma_applied_concat(a, b.drop_last());
        assert((a + b).drop_last() =~= a + b.drop_last());
        assert((a + b).last() == b.last());
        match b.last() {
            ProfileActionView::ApplySettings { .. } => {
                assert(applied_settings(a + b) =~= applied_settings(a) + applied_settings(b));
            },
            _ => {},
        }
    }
}

proof fn lemma_applied_other(x: ProfileActionView)
    requires
        !(x is ApplySettings),
    ensures
        applied_settings(seq![x]) == Seq::<(Seq<char>, u32, u32, u32)>::empty(),
{
    assert(seq![x].drop_last() =~= Seq::<ProfileActionView>::empty());
    assert(applied_settings(Seq::<ProfileActionView>::empty()) =~= Seq::<(Seq<char>, u32, u32, u32)>::empty());
    assert(seq![x].last() == x);
}

proof fn lemma_assigned_first(ds: Seq<DisplayDevice>, id: DisplayIdView, k: int, i0: int)
    requires
        0 <= k <= i0 < ds.len(),
        same_display_by_assignment(ds[i0].display_id@, id),
        forall|j: int| 0 <= j < k ==> !same_display_by_assignment(#[trigger] ds[j].display_id@, id),
    ensures
        assigned_display_from(ds, id, k) matches Some(i) && first_matching_display(ds, id, i),
    decreases i0 - k,
{
    if !same_display_by_assignment(ds[k].display_id@, id) {
        assert forall|j: int| 0 <= j < k + 1 implies !same_display_by_assignment(#[trigger] ds[j].display_id@, id) by {
            if j == k {
            }
        }
        lemma_assigned_first(ds, id, k + 1, i0);
    }
}

proof fn lemma_assignment_applies(ds: Seq<DisplayDevice>, a: DisplayAssignmentView, i0: int)
    requires
        0 <= i0 < ds.len(),
        ds[i0].display_id@ == a.display_id,
    ensures
        applied_settings(assignment_actions(ds, a)).len() == 1,
        applied_settings(assignment_actions(ds, a))[0].1 == a.mode.width,
        applied_settings(assignment_actions(ds, a))[0].2 == a.mode.height,
        applied_settings(assignment_actions(ds, a))[0].3 == a.mode.refresh_rate,
        exists|i: int| first_matching_display(ds, a.display_id, i) && ds[i].device_name@ == applied_settings(
            assignment_actions(ds, a),
        )[0].0,
{
    law_assignment_match_symmetric(a.display_id, a.display_id);
    lemma_assigned_first(ds, a.display_id, 0, i0);
    let i = assigned_display_from(ds, a.display_id, 0)->0;
    let d = ds[i];
    let o = crate::session::parse_orientation(a.orientation);
    let rotate = if d.orientation != o {
        seq![ProfileActionView::SetOrientation { device_name: d.device_name@, orientation: o }]
    } else {
        seq![]
    };
    let apply = seq![ProfileActionView::ApplySettings {
        device_name: d.device_name@,
        width: a.mode.width,
        height: a.mode.height,
        refresh_rate: a.mode.refresh_rate,
        persist: true,
    }];
    let moved = if a.position_x != d.position_x || a.position_y != d.position_y {
        seq![ProfileActionView::SetPosition { device_name: d.device_name@, x: a.position_x, y: a.position_y }]
    } else {
        seq![]
    };
    assert(assignment_actions(ds, a) == rotate + apply + moved);
    lemma_applied_concat(rotate + apply, moved);
    lemma_applied_concat(rotate, apply);
    if d.orientation != o {
        lemma_applied_other(ProfileActionView::SetOrientation { device_name: d.device_name@, orientation: o });
    } else {
        assert(applied_settings(rotate) =~= seq![]);
    }
    if a.position_x != d.position_x || a.position_y != d.position_y {
        lemma_applied_other(ProfileActionView::SetPosition { device_name: d.device_name@, x: a.position_x, y: a.position_y });
    } else {
        assert(applied_settings(moved) =~= seq![]);
    }
    assert(apply.drop_last() =~= Seq::<ProfileActionView>::empty());
    assert(applied_settings(Seq::<ProfileActionView>::empty()) =~= Seq::<(Seq<char>, u32, u32, u32)>::empty());
    assert(apply.last() == apply[0]);
    assert(applied_settings(apply) =~= seq![(d.device_name@, a.mode.width, a.mode.height, a.mode.refresh_rate)]);
    assert(first_matching_display(ds, a.display_id, i));
}

/// Whether every remapped assignment names a connected display.
pub open spec fn names_connected(ds: Seq<DisplayDevice>, r: Seq<(Seq<char>, DisplayAssignmentView)>) -> bool {
    forall|m: int| 0 <= m < r.len() ==> exists|i: int| 0 <= i < ds.len() && ds[i].display_id@ == (#[trigger] r[m]).1.display_id
}

/// Whether setting `s` is the one asked for assignment `a`: its mode, on the
/// first connected display that the assignment names.
pub open spec fn applies_assignment(ds: Seq<DisplayDevice>, s: (Seq<char>, u32, u32, u32), a: DisplayAssignmentView) -> bool {
    &&& s.1 == a.mode.width
    &&& s.2 == a.mode.height
    &&& s.3 == a.mode.refresh_rate
    &&& exists|i: int| first_matching_display(ds, a.display_id, i) && ds[i].device_name@ == s.0
}

proof fn lemma_remapped_applies(ds: Seq<DisplayDevice>, r: Seq<(Seq<char>, DisplayAssignmentView)>, n: int)
    requires
        0 <= n <= r.len(),
        names_connected(ds, r),
    ensures
        applied_settings(remapped_actions(ds, r, n)).len() == n,
        forall|m: int| 0 <= m < n ==> applies_assignment(ds, #[trigger] applied_settings(remapped_actions(ds, r, n))[m], r[m].1),
    decreases n,
{
    if n > 0 {
        lemma_remapped_applies(ds, r, n - 1);
        let prev = remapped_actions(ds, r, n - 1);
        let a = r[n - 1].1;
        assert(exists|i: int| 0 <= i < ds.len() && ds[i].display_id@ == r[n - 1].1.display_id);
        let i0 = choose|i: int| 0 <= i < ds.len() && ds[i].display_id@ == r[n - 1].1.display_id;
        lemma_assignment_applies(ds, a, i0);
        lemma_applied_concat(prev, assignment_actions(ds, a));
        let ap = applied_settings(remapped_actions(ds, r, n));
        assert(ap == applied_settings(prev) + applied_settings(assignment_actions(ds, a)));
        assert forall|m: int| 0 <= m < n implies applies_assignment(ds, #[trigger] ap[m], r[m].1) by {
            if m < n - 1 {
                assert(ap[m] == applied_settings(prev)[m]);
            } else {
                assert(ap[m] == applied_settings(assignment_actions(ds, a))[0]);
            }
        }
    }
}

/// Applying a user's profile asks for exactly one mode setting per assignment
/// of the profile remapped onto the connected displays, in order: each sets
/// that assignment's width, height and refresh rate on the first connected
/// display the assignment names. A user without a profile gets no setting.
pub proof fn law_profile_applies_every_assignment(users: Seq<(String, UserDisplayProfile)>, name: Seq<char>, ds: Seq<DisplayDevice>)
    ensures
        match user_index(users, name) {
            None => applied_settings(profile_actions(users, name, ds)).len() == 0,
            Some(u) => {
                let entries = users[u].1.assignments@;
                let r = remap_prefix(entries, ds, entries.len() as int);
                let ap = applied_settings(profile_actions(users, name, ds));
                &&& ap.len() == r.len()
                &&& forall|n: int| 0 <= n < r.len() ==> applies_assignment(ds, #[trigger] ap[n], r[n].1)
            },
        },
{
    match user_index(users, name) {
        None => {
            lemma_applied_other(ProfileActionView::Report { success: false, message: "No profile found for user '"@ + name + "'"@ });
        },
        Some(u) => {
            let entries = users[u].1.assignments@;
            let r = remap_prefix(entries, ds, entries.len() as int);
            if r.len() == 0 {
                lemma_applied_other(ProfileActionView::Report { success: false, message: "No matching displays found for profile"@ });
            } else {
                law_remap_well_formed(entries, ds);
                assert forall|m: int| 0 <= m < r.len() implies exists|i: int| 0 <= i < ds.len() && ds[i].display_id@ == (#[trigger] r[m]).1.display_id by {
                    assert(remapped_from_some(r[m], entries, entries.len() as int, ds));
                    let (q, i) = choose|q: int, i: int| 0 <= q < entries.len() && 0 <= i < ds.len() && #[trigger] remapped_from(r[m], entries[q], ds[i]);
                    assert(ds[i].display_id@ == r[m].1.display_id);
                }
                lemma_remapped_applies(ds, r, r.len() as int);
            }
        },
    }
}

/// Whether setting `s` is the one asked at login for assignment `a`: its mode,
/// on the first connected display with the assignment's target id.
pub open spec fn login_applies(ds: Seq<DisplayDevice>, s: (Seq<char>, u32, u32, u32), a: DisplayAssignmentView) -> bool {
    &&& s.1 == a.mode.width
    &&& s.2 == a.mode.height
    &&& s.3 == a.mode.refresh_rate
    &&& exists|i: int|
        0 <= i < ds.len() && ds[i].display_id.target_id == a.display_id.target_id && ds[i].device_name@ == s.0
            && forall|j: int| 0 <= j < i ==> (#[trigger] ds[j]).display_id.target_id != a.display_id.target_id
}

proof fn lemma_target_first(ds: Seq<DisplayDevice>, tid: u32, k: int, i0: int)
    requires
        0 <= k <= i0 < ds.len(),
        ds[i0].display_id.target_id == tid,
        forall|j: int| 0 <= j < k ==> (#[trigger] ds[j]).display_id.target_id != tid,
    ensures
        target_display_from(ds, tid, k) matches Some(i) && 0 <= i < ds.len() && ds[i].display_id.target_id == tid
            && forall|j: int| 0 <= j < i ==> (#[trigger] ds[j]).display_id.target_id != tid,
    decreases i0 - k,
{
    if ds[k].display_id.target_id != tid {
        assert forall|j: int| 0 <= j < k + 1 implies (#[trigger] ds[j]).display_id.target_id != tid by {
            if j == k {
            }
        }
        lemma_target_first(ds, tid, k + 1, i0);
    }
}

proof fn lemma_login_applies(ds: Seq<DisplayDevice>, r: Seq<(Seq<char>, DisplayAssignmentView)>, n: int)
    requires
        0 <= n <= r.len(),
        names_connected(ds, r),
    ensures
        applied_settings(login_actions(ds, r, n)).len() == n,
        forall|m: int| 0 <= m < n ==> login_applies(ds, #[trigger] applied_settings(login_actions(ds, r, n))[m], r[m].1),
    decreases n,
{
    if n <= 0 {
        assert(applied_settings(Seq::<ProfileActionView>::empty()) =~= Seq::<(Seq<char>, u32, u32, u32)>::empty());
    } else {
        lemma_login_applies(ds, r, n - 1);
        let prev = login_actions(ds, r, n - 1);
        let a = r[n - 1].1;
        assert(exists|i: int| 0 <= i < ds.len() && ds[i].display_id@ == r[n - 1].1.display_id);
        let i0 = choose|i: int| 0 <= i < ds.len() && ds[i].display_id@ == r[n - 1].1.display_id;
        lemma_target_first(ds, a.display_id.target_id, 0, i0);
        let i = target_display_from(ds, a.display_id.target_id, 0)->0;
        let x = ProfileActionView::ApplySettings {
            device_name: ds[i].device_name@,
            width: a.mode.width,
            height: a.mode.height,
            refresh_rate: a.mode.refresh_rate,
            persist: true,
        };
        let cur = login_actions(ds, r, n);
        assert(cur == prev.push(x));
        assert(cur.drop_last() =~= prev);
        let ap = applied_settings(cur);
        assert(ap == applied_settings(prev).push((ds[i].device_name@, a.mode.width, a.mode.height, a.mode.refresh_rate)));
        assert forall|m: int| 0 <= m < n implies login_applies(ds, #[trigger] ap[m], r[m].1) by {
            if m < n - 1 {
                assert(ap[m] == applied_settings(prev)[m]);
            }
        }
    }
}

/// Applying a user's profile at login asks for exactly one mode setting per
/// assignment of the profile remapped onto the connected displays, in order:
/// each sets that assignment's width, height and refresh rate on the first
/// connected display with its target id. A user without a profile gets none.
pub proof fn law_login_applies_every_assignment(users: Seq<(String, UserDisplayProfile)>, name: Seq<char>, ds: Seq<DisplayDevice>)
    ensures
        match user_index(users, name) {
            None => current_user_actions(users, name, ds).len() == 0,
            Some(u) => {
                let entries = users[u].1.assignments@;
                let r = remap_prefix(entries, ds, entries.len() as int);
                let ap = applied_settings(current_user_actions(users, name, ds));
                &&& ap.len() == r.len()
                &&& current_user_actions(users, name, ds).len() == r.len()
                &&& forall|n: int| 0 <= n < r.len() ==> login_applies(ds, #[trigger] ap[n], r[n].1)
            },
        },
{
    if let Some(u) = user_index(users, name) {
        let entries = users[u].1.assignments@;
        let r = remap_prefix(entries, ds, entries.len() as int);
        law_remap_well_formed(entries, ds);
        assert forall|m: int| 0 <= m < r.len() implies exists|i: int| 0 <= i < ds.len() && ds[i].display_id@ == (#[trigger] r[m]).1.display_id by {
            assert(remapped_from_some(r[m], entries, entries.len() as int, ds));
            let (q, i) = choose|q: int, i: int| 0 <= q < entries.len() && 0 <= i < ds.len() && #[trigger] remapped_from(r[m], entries[q], ds[i]);
            assert(ds[i].display_id@ == r[m].1.display_id);
        }
        lemma_login_applies(ds, r, r.len() as int);
        lemma_login_len(ds, r, r.len() as int);
    }
}

proof fn lemma_login_len(ds: Seq<DisplayDevice>, r: Seq<(Seq<char>, DisplayAssignmentView)>, n: int)
    requires
        0 <= n <= r.len(),
        names_connected(ds, r),
    ensures
        login_actions(ds, r, n).len() == n,
    decreases n,
{
    if n > 0 {
        lemma_login_len(ds, r, n - 1);
        let a = r[n - 1].1;
        assert(exists|i: int| 0 <= i < ds.len() && ds[i].display_id@ == r[n - 1].1.display_id);
        let i0 = choose|i: int| 0 <= i < ds.len() && ds[i].display_id@ == r[n - 1].1.display_id;
        lemma_target_first(ds, a.display_id.target_id, 0, i0);
    }
}

/// Rotating a display changes only the rotation of its path (the first with its
/// name), to 1, 2, 3 or 4 for landscape, portrait, flipped landscape and
/// flipped portrait; every other path and all modes stay as they were.
pub proof fn law_orientation_rotates_named_path(paths: Seq<PathInfo>, modes: Seq<ModeInfo>, names: Seq<Option<String>>, device: Seq<char>, o: DisplayOrientation)
    ensures
        match first_named_path(names, paths.len() as int, device) {
            None => orientation_plan(paths, modes, names, device, o) == Err::<(Seq<PathInfo>, Seq<ModeInfo>), Seq<char>>("Display not found."@),
            Some(k) => orientation_plan(paths, modes, names, device, o) matches Ok((np, nm)) && {
                &&& nm == modes
                &&& np.len() == paths.len()
                &&& np[k].rotation == match o {
                    DisplayOrientation::Landscape => 1u32,
                    DisplayOrientation::Portrait => 2u32,
                    DisplayOrientation::LandscapeFlipped => 3u32,
                    DisplayOrientation::PortraitFlipped => 4u32,
                }
                &&& (PathInfo { rotation: paths[k].rotation, ..np[k] }) == paths[k]
                &&& forall|j: int| 0 <= j < paths.len() && j != k ==> #[trigger] np[j] == paths[j]
            },
        },
{
    law_first_named_path(names, paths.len() as int, device);
}

/// A scale's logical pixels per inch are 96 scaled by the percentage; the nine
/// scales Windows offers take DPI indices 0 to 8 in order, any other index 2.
pub proof fn law_scale_log_pixels(scale: u32)
    ensures
        scale_dpi(scale).1 == 96 * scale / 100,
        scale_dpi(scale).0 == if scale == 100 {
            0u32
        } else if scale == 125 {
            1u32
        } else if scale == 150 {
            2u32
        } else if scale == 175 {
            3u32
        } else if scale == 200 {
            4u32
        } else if scale == 250 {
            5u32
        } else if scale == 300 {
            6u32
        } else if scale == 400 {
            7u32
        } else if scale == 500 {
            8u32
        } else {
            2u32
        },
{
    if scale != 100 && scale != 125 && scale != 150 && scale != 175 && scale != 200 && scale != 250 && scale != 300
        && scale != 400 && scale != 500 {
        assert(96 * scale / 100 <= u32::MAX) by (nonlinear_arith)
            requires
                scale <= u32::MAX,
        ;
    }
}

proof fn lemma_alternate_from(current: DisplayMode, listed: Seq<DisplayMode>, i: int)
    requires
        0 <= i,
    ensures
        alternate_from(current, listed, i) matches Some(f) ==> exists|j: int|
            i <= j < listed.len() && j < 50 && (#[trigger] listed[j]).width == current.width && listed[j].height
                == current.height && listed[j].refresh_rate == f,
        alternate_from(current, listed, i) matches Some(f) ==> f != current.refresh_rate && f != 0,
        alternate_from(current, listed, i) is None ==> forall|j: int|
            i <= j < listed.len() && j < 50 && (#[trigger] listed[j]).width == current.width && listed[j].height
                == current.height ==> listed[j].refresh_rate == current.refresh_rate || listed[j].refresh_rate == 0,
    decreases 50 - i,
{
    if i < listed.len() && i < 50 {
        lemma_alternate_from(current, listed, i + 1);
        if alternate_from(current, listed, i) == Some(listed[i].refresh_rate) && listed[i].width == current.width
            && listed[i].height == current.height && listed[i].refresh_rate != current.refresh_rate && listed[i].refresh_rate != 0 {
            assert(listed[i].width == current.width);
        }
    }
}

/// Refreshing a display ends on its current setting. Where one of its first
/// 50 listed settings has its resolution and another non-zero refresh rate, it
/// first switches to that rate (keeping resolution and depth); else it only
/// reapplies the current setting.
pub proof fn law_refresh_returns_to_current(current: DisplayMode, listed: Seq<DisplayMode>)
    ensures
        ({
            let steps = refresh_steps(current, listed);
            &&& 1 <= steps.len() <= 2
            &&& steps.last() == current
            &&& (steps.len() == 2 ==> {
                &&& steps[0].width == current.width
                &&& steps[0].height == current.height
                &&& steps[0].bits_per_pixel == current.bits_per_pixel
                &&& steps[0].refresh_rate != current.refresh_rate
                &&& steps[0].refresh_rate != 0
                &&& exists|j: int| 0 <= j < listed.len() && j < 50 && (#[trigger] listed[j]).width == current.width
                    && listed[j].height == current.height && listed[j].refresh_rate == steps[0].refresh_rate
            })
            &&& (steps.len() == 1 ==> forall|j: int| 0 <= j < listed.len() && j < 50 && (#[trigger] listed[j]).width
                == current.width && listed[j].height == current.height ==> listed[j].refresh_rate == current.refresh_rate
                || listed[j].refresh_rate == 0)
        }),
{
    lemma_alternate_from(current, listed, 0);
}

} // verus!
