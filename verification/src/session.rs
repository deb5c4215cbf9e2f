//! The decisions of the manager's commands on user profiles: which display
//! operations applying a profile asks for, and how saving and deleting a
//! profile change the stored profiles.

use vstd::prelude::*;
use crate::text::{chars_of, chars_eq, string_of, string_from_chars, push_str};
use crate::types::{
    DisplayId, DisplayIdView, DisplayDevice, DisplayMode, DisplayOrientation, ApplyResult,
    same_display_by_assignment, orientation_name, orientation_debug_name, opt_view,
};
use crate::profiles::{
    DisplayAssignment, DisplayAssignmentView, UserDisplayProfile, AllProfiles, entries_view,
    remap_prefix, remap_profile_assignments,
};

verus! {

/// The orientation a saved orientation name stands for: `Portrait`,
/// `LandscapeFlipped` and `PortraitFlipped` (each also in lower case) are
/// themselves, anything else is landscape.
pub open spec fn parse_orientation(s: Seq<char>) -> DisplayOrientation {
    if s == "Portrait"@ || s == "portrait"@ {
        DisplayOrientation::Portrait
    } else if s == "LandscapeFlipped"@ || s == "landscapeflipped"@ {
        DisplayOrientation::LandscapeFlipped
    } else if s == "PortraitFlipped"@ || s == "portraitflipped"@ {
        DisplayOrientation::PortraitFlipped
    } else {
        DisplayOrientation::Landscape
    }
}

/// Whether a string slice holds exactly the characters of `s`.
fn is_text(v: &Vec<char>, s: &str) -> (r: bool)
    ensures
        r == (v@ == s@),
{
    let w = chars_of(s);
    chars_eq(v, &w)
}

/// The orientation a saved orientation name stands for.
pub fn orientation_from_name(name: &str) -> (r: DisplayOrientation)
    ensures
        r == parse_orientation(name@),
{
    let v = chars_of(name);
    if is_text(&v, "Portrait") || is_text(&v, "portrait") {
        DisplayOrientation::Portrait
    } else if is_text(&v, "LandscapeFlipped") || is_text(&v, "landscapeflipped") {
        DisplayOrientation::LandscapeFlipped
    } else if is_text(&v, "PortraitFlipped") || is_text(&v, "portraitflipped") {
        DisplayOrientation::PortraitFlipped
    } else {
        DisplayOrientation::Landscape
    }
}

/// A display operation that applying a profile asks for, or a result it
/// reports without one.
#[derive(Debug)]
pub enum ProfileAction {
    SetOrientation { device_name: String, orientation: DisplayOrientation },
    ApplySettings { device_name: String, width: u32, height: u32, refresh_rate: u32, persist: bool },
    SetPosition { device_name: String, x: i32, y: i32 },
    Report(ApplyResult),
}

/// The mathematical value of a [`ProfileAction`].
pub enum ProfileActionView {
    SetOrientation { device_name: Seq<char>, orientation: DisplayOrientation },
    ApplySettings { device_name: Seq<char>, width: u32, height: u32, refresh_rate: u32, persist: bool },
    SetPosition { device_name: Seq<char>, x: i32, y: i32 },
    Report { success: bool, message: Seq<char> },
}

impl View for ProfileAction {
    type V = ProfileActionView;

    open spec fn view(&self) -> ProfileActionView {
        match self {
            ProfileAction::SetOrientation { device_name, orientation } => ProfileActionView::SetOrientation {
                device_name: device_name@,
                orientation: *orientation,
            },
            ProfileAction::ApplySettings { device_name, width, height, refresh_rate, persist } => ProfileActionView::ApplySettings {
                device_name: device_name@,
                width: *width,
                height: *height,
                refresh_rate: *refresh_rate,
                persist: *persist,
            },
            ProfileAction::SetPosition { device_name, x, y } => ProfileActionView::SetPosition {
                device_name: device_name@,
                x: *x,
                y: *y,
            },
            ProfileAction::Report(r) => ProfileActionView::Report { success: r.success, message: r.message@ },
        }
    }
}

/// The views of a list of actions.
pub open spec fn actions_view(v: Seq<ProfileAction>) -> Seq<ProfileActionView> {
    v.map_values(|a: ProfileAction| a@)
}

/// The first user entry at or after `i` with the given name.
pub open spec fn user_index_from(users: Seq<(String, UserDisplayProfile)>, name: Seq<char>, i: int) -> Option<int>
    decreases users.len() - i,
{
    if i < 0 || i >= users.len() {
        None
    } else if users[i].0@ == name {
        Some(i)
    } else {
        user_index_from(users, name, i + 1)
    }
}

/// The entry of the user with the given name, if any.
pub open spec fn user_index(users: Seq<(String, UserDisplayProfile)>, name: Seq<char>) -> Option<int> {
    user_index_from(users, name, 0)
}

/// The entry of the user with the given name, if any.
pub fn find_user(all: &AllProfiles, name: &Vec<char>) -> (r: Option<usize>)
    ensures
        match r {
            Some(i) => user_index(all.users@, name@) == Some(i as int) && i < all.users@.len(),
            None => user_index(all.users@, name@) is None,
        },
{
    let mut i: usize = 0;
    while i < all.users.len()
        invariant
            user_index(all.users@, name@) == user_index_from(all.users@, name@, i as int),
        decreases all.users.len() - i,
    {
        let n = chars_of(all.users[i].0.as_str());
        if chars_eq(&n, name) {
            return Some(i);
        }
        i = i + 1;
    }
    None
}

/// The first display at or after `i` that a saved identity names.
pub open spec fn assigned_display_from(ds: Seq<DisplayDevice>, id: DisplayIdView, i: int) -> Option<int>
    decreases ds.len() - i,
{
    if i < 0 || i >= ds.len() {
        None
    } else if same_display_by_assignment(ds[i].display_id@, id) {
        Some(i)
    } else {
        assigned_display_from(ds, id, i + 1)
    }
}

/// The operations that apply one remapped assignment: where a display matches
/// it, a rotation where the orientation differs, the mode (kept), and a move
/// where the position differs; else a report that the display is missing.
pub open spec fn assignment_actions(ds: Seq<DisplayDevice>, a: DisplayAssignmentView) -> Seq<ProfileActionView> {
    match assigned_display_from(ds, a.display_id, 0) {
        Some(i) => {
            let d = ds[i];
            let o = parse_orientation(a.orientation);
            let rotate = if d.orientation != o {
                seq![ProfileActionView::SetOrientation { device_name: d.device_name@, orientation: o }]
            } else {
                seq![]
            };
            let apply = seq![ProfileActionView::ApplySettings {
                device_name: d.device_name@,
                width: a.mode.width,
                height: a.mode.height,
                refresh_rate: a.mode.refresh_rate,
                persist: true,
            }];
            let moved = if a.position_x != d.position_x || a.position_y != d.position_y {
                seq![ProfileActionView::SetPosition { device_name: d.device_name@, x: a.position_x, y: a.position_y }]
            } else {
                seq![]
            };
            rotate + apply + moved
        },
        None => seq![ProfileActionView::Report { success: false, message: "Display not found in current configuration"@ }],
    }
}

/// The operations for the first `n` remapped assignments, in order.
pub open spec fn remapped_actions(ds: Seq<DisplayDevice>, r: Seq<(Seq<char>, DisplayAssignmentView)>, n: int) -> Seq<ProfileActionView>
    decreases n,
{
    if n <= 0 || n > r.len() {
        seq![]
    } else {
        remapped_actions(ds, r, n - 1) + assignment_actions(ds, r[n - 1].1)
    }
}

/// The operations that applying the profile of user `name` asks for: the
/// operations of each of its assignments remapped onto the displays, or a
/// report that no display matches, or that the user has no profile.
pub open spec fn profile_actions(users: Seq<(String, UserDisplayProfile)>, name: Seq<char>, ds: Seq<DisplayDevice>) -> Seq<ProfileActionView> {
    match user_index(users, name) {
        Some(u) => {
            let entries = users[u].1.assignments@;
            let r = remap_prefix(entries, ds, entries.len() as int);
            if r.len() == 0 {
                seq![ProfileActionView::Report { success: false, message: "No matching displays found for profile"@ }]
            } else {
                remapped_actions(ds, r, r.len() as int)
            }
        },
        None => seq![ProfileActionView::Report { success: false, message: "No profile found for user '"@ + name + "'"@ }],
    }
}

/// The first display that a saved identity names.
fn find_assigned_display(ds: &Vec<DisplayDevice>, id: &DisplayId) -> (r: Option<usize>)
    ensures
        match r {
            Some(i) => assigned_display_from(ds@, id@, 0) == Some(i as int) && i < ds.len(),
            None => assigned_display_from(ds@, id@, 0) is None,
        },
{
    let mut i: usize = 0;
    while i < ds.len()
        invariant
            assigned_display_from(ds@, id@, 0) == assigned_display_from(ds@, id@, i as int),
        decreases ds.len() - i,
    {
        if ds[i].display_id.matches_path_by_assignment(id) {
            return Some(i);
        }
        i = i + 1;
    }
    None
}

/// Appends the operations that apply one remapped assignment.
fn push_assignment_actions(out: &mut Vec<ProfileAction>, ds: &Vec<DisplayDevice>, a: &DisplayAssignment)
    ensures
        actions_view(final(out)@) == actions_view(old(out)@) + assignment_actions(ds@, a@),
{
    let ghost start = actions_view(out@);
    match find_assigned_display(ds, &a.display_id) {
        Some(i) => {
            let d = &ds[i];
            let o = orientation_from_name(a.orientation.as_str());
            if d.orientation != o {
                out.push(ProfileAction::SetOrientation { device_name: d.device_name.clone(), orientation: o });
            }
            let ghost mid = actions_view(out@);
            out.push(ProfileAction::ApplySettings {
                device_name: d.device_name.clone(),
                width: a.mode.width,
                height: a.mode.height,
                refresh_rate: a.mode.refresh_rate,
                persist: true,
            });
            let ghost mid2 = actions_view(out@);
            if a.position_x != d.position_x || a.position_y != d.position_y {
                out.push(ProfileAction::SetPosition { device_name: d.device_name.clone(), x: a.position_x, y: a.position_y });
            }
            assert(actions_view(out@) =~= start + assignment_actions(ds@, a@));
        },
        None => {
            let r = ApplyResult::err(string_of("Display not found in current configuration"));
            out.push(ProfileAction::Report(r));
            assert(actions_view(out@) =~= start + assignment_actions(ds@, a@));
        },
    }
}

/// Plans applying the profile of user `username` to the displays connected
/// now: the profile is remapped onto them, and each of its assignments asks for
/// the operations that bring its display to it.
pub fn apply_profile_for_user(all: &AllProfiles, username: &str, current_displays: &Vec<DisplayDevice>) -> (r: Vec<ProfileAction>)
    ensures
        actions_view(r@) == profile_actions(all.users@, username@, current_displays@),
{
    let name = chars_of(username);
    let mut out: Vec<ProfileAction> = Vec::new();
    match find_user(all, &name) {
        Some(u) => {
            let remapped = remap_profile_assignments(&all.users[u].1, current_displays);
            let ghost rv = entries_view(remapped@);
            if remapped.len() == 0 {
                out.push(ProfileAction::Report(ApplyResult::err(string_of("No matching displays found for profile"))));
                assert(actions_view(out@) =~= profile_actions(all.users@, username@, current_displays@));
                return out;
            }
            let mut n: usize = 0;
            while n < remapped.len()
                invariant
                    n <= remapped.len(),
                    rv == entries_view(remapped@),
                    actions_view(out@) == remapped_actions(current_displays@, rv, n as int),
                decreases remapped.len() - n,
            {
                assert(rv[n as int].1 == remapped@[n as int].1@);
                push_assignment_actions(&mut out, current_displays, &remapped[n].1);
                n = n + 1;
            }
            out
        },
        None => {
            let mut v = chars_of("No profile found for user '");
            push_str(&mut v, username);
            push_str(&mut v, "'");
            out.push(ProfileAction::Report(ApplyResult::err(string_from_chars(&v))));
            assert(actions_view(out@) =~= profile_actions(all.users@, username@, current_displays@));
            out
        },
    }
}


/// The first display at or after `i` with the given target id.
pub open spec fn target_display_from(ds: Seq<DisplayDevice>, tid: u32, i: int) -> Option<int>
    decreases ds.len() - i,
{
    if i < 0 || i >= ds.len() {
        None
    } else if ds[i].display_id.target_id == tid {
        Some(i)
    } else {
        target_display_from(ds, tid, i + 1)
    }
}

/// The mode settings that applying the profile at login asks for, for the
/// first `n` remapped assignments: each sets its mode (kept) on the first
/// display with its target id, where there is one.
pub open spec fn login_actions(ds: Seq<DisplayDevice>, r: Seq<(Seq<char>, DisplayAssignmentView)>, n: int) -> Seq<ProfileActionView>
    decreases n,
{
    if n <= 0 || n > r.len() {
        seq![]
    } else {
        let prev = login_actions(ds, r, n - 1);
        let a = r[n - 1].1;
        match target_display_from(ds, a.display_id.target_id, 0) {
            Some(i) => prev.push(ProfileActionView::ApplySettings {
                device_name: ds[i].device_name@,
                width: a.mode.width,
                height: a.mode.height,
                refresh_rate: a.mode.refresh_rate,
                persist: true,
            }),
            None => prev,
        }
    }
}

/// The mode settings that applying the profile of user `name` at login asks for.
pub open spec fn current_user_actions(users: Seq<(String, UserDisplayProfile)>, name: Seq<char>, ds: Seq<DisplayDevice>) -> Seq<ProfileActionView> {
    match user_index(users, name) {
        Some(u) => {
            let entries = users[u].1.assignments@;
            let r = remap_prefix(entries, ds, entries.len() as int);
            login_actions(ds, r, r.len() as int)
        },
        None => seq![],
    }
}

/// The first display with the given target id.
fn find_target_display(ds: &Vec<DisplayDevice>, tid: u32) -> (r: Option<usize>)
    ensures
        match r {
            Some(i) => target_display_from(ds@, tid, 0) == Some(i as int) && i < ds.len(),
            None => target_display_from(ds@, tid, 0) is None,
        },
{
    let mut i: usize = 0;
    while i < ds.len()
        invariant
            target_display_from(ds@, tid, 0) == target_display_from(ds@, tid, i as int),
        decreases ds.len() - i,
    {
        if ds[i].display_id.target_id == tid {
            return Some(i);
        }
        i = i + 1;
    }
    None
}

/// Plans applying the profile of user `username` at login: its assignments
/// are remapped onto the displays connected now, and each sets its mode on the
/// display with its target id.
pub fn apply_current_user_profile(all: &AllProfiles, username: &str, current_displays: &Vec<DisplayDevice>) -> (r: Vec<ProfileAction>)
    ensures
        actions_view(r@) == current_user_actions(all.users@, username@, current_displays@),
{
    let name = chars_of(username);
    let mut out: Vec<ProfileAction> = Vec::new();
    match find_user(all, &name) {
        Some(u) => {
            let remapped = remap_profile_assignments(&all.users[u].1, current_displays);
            let ghost rv = entries_view(remapped@);
            let mut n: usize = 0;
            while n < remapped.len()
                invariant
                    n <= remapped.len(),
                    rv == entries_view(remapped@),
                    actions_view(out@) == login_actions(current_displays@, rv, n as int),
                decreases remapped.len() - n,
            {
                let a = &remapped[n].1;
                assert(rv[n as int].1 == a@);
                let found = find_target_display(current_displays, a.display_id.target_id);
                match found {
                    Some(i) => {
                        let ghost prev = actions_view(out@);
                        out.push(ProfileAction::ApplySettings {
                            device_name: current_displays[i].device_name.clone(),
                            width: a.mode.width,
                            height: a.mode.height,
                            refresh_rate: a.mode.refresh_rate,
                            persist: true,
                        });
                        assert(actions_view(out@) =~= login_actions(current_displays@, rv, n + 1));
                    },
                    None => {},
                }
                n = n + 1;
            }
            out
        },
        None => out,
    }
}

/// The mathematical value of a [`UserDisplayProfile`].
pub struct UserProfileView {
    pub assignments: Seq<(Seq<char>, DisplayAssignmentView)>,
    pub last_known_good_layout: Option<Seq<DisplayAssignmentView>>,
}

/// The views of a list of assignments.
pub open spec fn assignments_view(v: Seq<DisplayAssignment>) -> Seq<DisplayAssignmentView> {
    v.map_values(|a: DisplayAssignment| a@)
}

/// The view of a user profile.
pub open spec fn profile_view(p: UserDisplayProfile) -> UserProfileView {
    UserProfileView {
        assignments: entries_view(p.assignments@),
        last_known_good_layout: match p.last_known_good_layout {
            Some(l) => Some(assignments_view(l@)),
            None => None,
        },
    }
}

/// The views of the stored profiles, by user name.
pub open spec fn users_view(users: Seq<(String, UserDisplayProfile)>) -> Seq<(Seq<char>, UserProfileView)> {
    users.map_values(|e: (String, UserDisplayProfile)| (e.0@, profile_view(e.1)))
}

/// The profile stored for user `name`, if any (the first entry with that name).
pub open spec fn lookup_from(uv: Seq<(Seq<char>, UserProfileView)>, name: Seq<char>, i: int) -> Option<UserProfileView>
    decreases uv.len() - i,
{
    if i < 0 || i >= uv.len() {
        None
    } else if uv[i].0 == name {
        Some(uv[i].1)
    } else {
        lookup_from(uv, name, i + 1)
    }
}

/// The profile stored for user `name`, if any.
pub open spec fn lookup_profile(uv: Seq<(Seq<char>, UserProfileView)>, name: Seq<char>) -> Option<UserProfileView> {
    lookup_from(uv, name, 0)
}

/// Whether no user name is stored twice.
pub open spec fn distinct_users(uv: Seq<(Seq<char>, UserProfileView)>) -> bool {
    forall|i: int, j: int| 0 <= i < uv.len() && 0 <= j < uv.len() && i != j ==> uv[i].0 != uv[j].0
}

/// The assignment that records how device `d` is set up now.
pub open spec fn layout_entry(d: DisplayDevice, m: DisplayMode) -> DisplayAssignmentView {
    DisplayAssignmentView {
        display_id: d.display_id@,
        mode: m,
        position_x: d.position_x,
        position_y: d.position_y,
        is_primary: d.is_primary,
        orientation: orientation_name(d.orientation),
        scale_factor: d.scale_factor,
        monitor_name: Some(d.device_string@),
    }
}

/// How the first `n` devices that have a current mode are set up now.
pub open spec fn current_layout(ds: Seq<DisplayDevice>, n: int) -> Seq<DisplayAssignmentView>
    decreases n,
{
    if n <= 0 || n > ds.len() {
        seq![]
    } else {
        let prev = current_layout(ds, n - 1);
        match ds[n - 1].current_mode {
            Some(m) => prev.push(layout_entry(ds[n - 1], m)),
            None => prev,
        }
    }
}

/// The profile that saving `assignments` makes of a stored profile (or of
/// none): the assignments are replaced, and where some device has a current
/// mode, the current layout becomes the last known good one.
pub open spec fn saved_profile(old: Option<UserProfileView>, assignments: Seq<(Seq<char>, DisplayAssignmentView)>, layout: Seq<DisplayAssignmentView>) -> UserProfileView {
    UserProfileView {
        assignments,
        last_known_good_layout: if layout.len() > 0 {
            Some(layout)
        } else {
            match old {
                Some(p) => p.last_known_good_layout,
                None => None,
            }
        },
    }
}

/// The stored profiles after saving a profile for user `name`: its entry is
/// updated where there is one, else a new one is appended.
pub open spec fn users_after_save(uv: Seq<(Seq<char>, UserProfileView)>, name: Seq<char>, assignments: Seq<(Seq<char>, DisplayAssignmentView)>, layout: Seq<DisplayAssignmentView>) -> Seq<(Seq<char>, UserProfileView)> {
    match first_user_pos(uv, name, 0) {
        Some(i) => uv.update(i, (name, saved_profile(Some(uv[i].1), assignments, layout))),
        None => uv.push((name, saved_profile(None, assignments, layout))),
    }
}

/// The stored profiles after deleting the profile of user `name`.
pub open spec fn users_after_delete(uv: Seq<(Seq<char>, UserProfileView)>, name: Seq<char>) -> Seq<(Seq<char>, UserProfileView)> {
    match first_user_pos(uv, name, 0) {
        Some(i) => uv.remove(i),
        None => uv,
    }
}

/// The position of the first entry at or after `i` with the given name.
pub open spec fn first_user_pos(uv: Seq<(Seq<char>, UserProfileView)>, name: Seq<char>, i: int) -> Option<int>
    decreases uv.len() - i,
{
    if i < 0 || i >= uv.len() {
        None
    } else if uv[i].0 == name {
        Some(i)
    } else {
        first_user_pos(uv, name, i + 1)
    }
}

proof fn lemma_first_user_pos(uv: Seq<(Seq<char>, UserProfileView)>, name: Seq<char>, i: int)
    requires
        0 <= i,
    ensures
        first_user_pos(uv, name, i) matches Some(p) ==> i <= p < uv.len() && uv[p].0 == name,
        first_user_pos(uv, name, i) is None ==> forall|k: int| i <= k < uv.len() ==> (#[trigger] uv[k]).0 != name,
    decreases uv.len() - i,
{
    if i < uv.len() && uv[i].0 != name {
        lemma_first_user_pos(uv, name, i + 1);
    }
}

/// Saving a profile keeps the stored user names distinct.
pub proof fn lemma_save_keeps_users_distinct(uv: Seq<(Seq<char>, UserProfileView)>, name: Seq<char>, assignments: Seq<(Seq<char>, DisplayAssignmentView)>, layout: Seq<DisplayAssignmentView>)
    requires
        distinct_users(uv),
    ensures
        distinct_users(users_after_save(uv, name, assignments, layout)),
{
    lemma_first_user_pos(uv, name, 0);
    let nv = users_after_save(uv, name, assignments, layout);
    assert forall|a: int, b: int| 0 <= a < nv.len() && 0 <= b < nv.len() && a != b implies nv[a].0 != nv[b].0 by {
        match first_user_pos(uv, name, 0) {
            Some(p) => {
                assert(nv[a].0 == uv[a].0 && nv[b].0 == uv[b].0);
            },
            None => {
                if a < uv.len() {
                    assert(nv[a] == uv[a]);
                }
                if b < uv.len() {
                    assert(nv[b] == uv[b]);
                }
            },
        }
    }
}

/// Deleting a profile keeps the stored user names distinct.
pub proof fn lemma_delete_keeps_users_distinct(uv: Seq<(Seq<char>, UserProfileView)>, name: Seq<char>)
    requires
        distinct_users(uv),
    ensures
        distinct_users(users_after_delete(uv, name)),
{
    lemma_first_user_pos(uv, name, 0);
    let nv = users_after_delete(uv, name);
    if let Some(p) = first_user_pos(uv, name, 0) {
        assert forall|a: int, b: int| 0 <= a < nv.len() && 0 <= b < nv.len() && a != b implies nv[a].0 != nv[b].0 by {
            let a2 = if a < p { a } else { a + 1 };
            let b2 = if b < p { b } else { b + 1 };
            assert(nv[a] == uv[a2] && nv[b] == uv[b2]);
        }
    }
}

proof fn lemma_user_index_pos(users: Seq<(String, UserDisplayProfile)>, name: Seq<char>, i: int)
    ensures
        user_index_from(users, name, i) == first_user_pos(users_view(users), name, i),
    decreases users.len() - i,
{
    if 0 <= i < users.len() {
        assert(users_view(users)[i].0 == users[i].0@);
        lemma_user_index_pos(users, name, i + 1);
    }
}

/// A copy of a list of assignments.
pub fn copy_assignments(v: &Vec<DisplayAssignment>) -> (r: Vec<DisplayAssignment>)
    ensures
        assignments_view(r@) == assignments_view(v@),
{
    let mut r: Vec<DisplayAssignment> = Vec::new();
    let mut i: usize = 0;
    while i < v.len()
        invariant
            i <= v.len(),
            r.len() == i,
            forall|j: int| 0 <= j < i ==> (#[trigger] r@[j])@ == v@[j]@,
        decreases v.len() - i,
    {
        r.push(v[i].copy());
        i = i + 1;
    }
    assert(assignments_view(r@) =~= assignments_view(v@));
    r
}

/// How the devices that have a current mode are set up now.
pub fn build_current_layout(ds: &Vec<DisplayDevice>) -> (r: Vec<DisplayAssignment>)
    ensures
        assignments_view(r@) == current_layout(ds@, ds@.len() as int),
{
    let mut out: Vec<DisplayAssignment> = Vec::new();
    let mut n: usize = 0;
    while n < ds.len()
        invariant
            n <= ds.len(),
            assignments_view(out@) == current_layout(ds@, n as int),
        decreases ds.len() - n,
    {
        let d = &ds[n];
        match d.current_mode {
            Some(m) => {
                let name = orientation_debug_name(d.orientation);
                let a = DisplayAssignment {
                    display_id: d.display_id.copy(),
                    mode: m,
                    position_x: d.position_x,
                    position_y: d.position_y,
                    is_primary: d.is_primary,
                    orientation: string_from_chars(&name),
                    scale_factor: d.scale_factor,
                    monitor_name: Some(d.device_string.clone()),
                };
                let ghost prev = assignments_view(out@);
                out.push(a);
                assert(assignments_view(out@) =~= prev.push(layout_entry(*d, m)));
            },
            None => {},
        }
        n = n + 1;
    }
    out
}

/// Saves `assignments` as the profile of user `username`, and where some
/// connected display has a current mode, records the current layout as the
/// last known good one.
pub fn save_user_profile(all: &mut AllProfiles, username: &str, assignments: Vec<(String, DisplayAssignment)>, current_displays: &Vec<DisplayDevice>)
    ensures
        users_view(final(all).users@) == users_after_save(
            users_view(old(all).users@),
            username@,
            entries_view(assignments@),
            current_layout(current_displays@, current_displays@.len() as int),
        ),
        distinct_users(users_view(old(all).users@)) ==> distinct_users(users_view(final(all).users@)),
{
    let ghost uv = users_view(all.users@);
    let ghost av = entries_view(assignments@);
    proof {
        if distinct_users(uv) {
            lemma_save_keeps_users_distinct(uv, username@, av, current_layout(current_displays@, current_displays@.len() as int));
        }
    }
    let name = chars_of(username);
    let layout = build_current_layout(current_displays);
    let ghost lv = assignments_view(layout@);
    proof {
        lemma_user_index_pos(all.users@, username@, 0);
    }
    match find_user(all, &name) {
        Some(i) => {
            let lkg = if layout.len() > 0 {
                Some(layout)
            } else {
                match &all.users[i].1.last_known_good_layout {
                    Some(l) => Some(copy_assignments(l)),
                    None => None,
                }
            };
            let p = UserDisplayProfile { assignments, last_known_good_layout: lkg };
            let ghost pv = profile_view(p);
            assert(pv == saved_profile(Some(uv[i as int].1), av, lv));
            let entry = (string_of(username), p);
            all.users.set(i, entry);
            assert(users_view(all.users@) =~= uv.update(i as int, (username@, pv)));
        },
        None => {
            let lkg = if layout.len() > 0 { Some(layout) } else { None };
            let p = UserDisplayProfile { assignments, last_known_good_layout: lkg };
            let ghost pv = profile_view(p);
            assert(pv == saved_profile(None, av, lv));
            all.users.push((string_of(username), p));
            assert(users_view(all.users@) =~= uv.push((username@, pv)));
        },
    }
}

/// Deletes the profile of user `username`, where there is one.
pub fn delete_user_profile(all: &mut AllProfiles, username: &str)
    ensures
        users_view(final(all).users@) == users_after_delete(users_view(old(all).users@), username@),
        distinct_users(users_view(old(all).users@)) ==> distinct_users(users_view(final(all).users@)),
{
    let ghost uv = users_view(all.users@);
    let name = chars_of(username);
    proof {
        lemma_user_index_pos(all.users@, username@, 0);
        if distinct_users(uv) {
            lemma_delete_keeps_users_distinct(uv, username@);
        }
    }
    match find_user(all, &name) {
        Some(i) => {
            let _removed = all.users.remove(i);
            assert(users_view(all.users@) =~= uv.remove(i as int));
        },
        None => {},
    }
}

} // verus!
