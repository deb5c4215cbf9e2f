//! Per-user display profiles: the keys that name a display in a profile, and
//! the remapping of a saved profile onto the displays that are connected now.

use vstd::prelude::*;
use crate::text::{
    chars_eq, replace_all, replace_all_exec, chars_of, string_of, string_from_chars, push_str, push_all, push_decimal, decimal, digit_char,
    digits_value, digit_value, all_digits, is_digit, parse_unsigned, unsigned_digits,
    starts_with, starts_with_exec, find, find_exec, find_either_from, find_either_from_exec,
    find_non_digit_from, find_non_digit_from_exec, slice_chars, parse_u64_chars,
    parse_u32_chars,
};
use crate::types::{DisplayId, DisplayIdView, DisplayMode, DisplayDevice, opt_view, copy_opt_string};

verus! {

/// How a display was set up when a profile was saved: its identity, mode,
/// position, whether it was primary, its orientation (by name), its scale and
/// its friendly name.
#[derive(Debug)]
pub struct DisplayAssignment {
    pub display_id: DisplayId,
    pub mode: DisplayMode,
    pub position_x: i32,
    pub position_y: i32,
    pub is_primary: bool,
    pub orientation: String,
    pub scale_factor: u32,
    pub monitor_name: Option<String>,
}

/// The mathematical value of a [`DisplayAssignment`].
pub struct DisplayAssignmentView {
    pub display_id: DisplayIdView,
    pub mode: DisplayMode,
    pub position_x: i32,
    pub position_y: i32,
    pub is_primary: bool,
    pub orientation: Seq<char>,
    pub scale_factor: u32,
    pub monitor_name: Option<Seq<char>>,
}

impl View for DisplayAssignment {
    type V = DisplayAssignmentView;

    open spec fn view(&self) -> DisplayAssignmentView {
        DisplayAssignmentView {
            display_id: self.display_id@,
            mode: self.mode,
            position_x: self.position_x,
            position_y: self.position_y,
            is_primary: self.is_primary,
            orientation: self.orientation@,
            scale_factor: self.scale_factor,
            monitor_name: opt_view(self.monitor_name),
        }
    }
}

impl DisplayAssignment {
    /// A copy of this assignment that names another display.
    pub fn with_display_id(&self, id: &DisplayId) -> (r: Self)
        ensures
            r@ == (DisplayAssignmentView { display_id: id@, ..self@ }),
    {
        DisplayAssignment {
            display_id: id.copy(),
            mode: self.mode,
            position_x: self.position_x,
            position_y: self.position_y,
            is_primary: self.is_primary,
            orientation: self.orientation.clone(),
            scale_factor: self.scale_factor,
            monitor_name: copy_opt_string(&self.monitor_name),
        }
    }

    /// A copy of this assignment.
    pub fn copy(&self) -> (r: Self)
        ensures
            r@ == self@,
    {
        self.with_display_id(&self.display_id)
    }
}

/// The characters `edid_` that begin the key of a display known by its EDID hash.
pub open spec fn edid_prefix() -> Seq<char> {
    seq!['e', 'd', 'i', 'd', '_']
}

/// An EDID hash with `\` and `#` turned into `_`.
pub open spec fn sanitize_edid(e: Seq<char>) -> Seq<char> {
    e.map_values(|c: char| if c == '\\' || c == '#' { '_' } else { c })
}

/// The key that names a display in a profile: `edid_` and its sanitized EDID
/// hash where it has one, else its adapter LUID and target id in decimal,
/// joined by `_`.
pub open spec fn display_key(id: DisplayIdView) -> Seq<char> {
    match id.edid_hash {
        Some(e) => edid_prefix() + sanitize_edid(e),
        None => decimal(id.adapter_luid as nat) + seq!['_'] + decimal(id.target_id as nat),
    }
}

/// The key that names a display in a profile, as characters.
pub fn display_key_chars(display_id: &DisplayId) -> (r: Vec<char>)
    ensures
        r@ == display_key(display_id@),
{
    match &display_id.edid_hash {
        Some(edid) => {
            let e = chars_of(edid.as_str());
            let mut r = chars_of("edid_");
            proof {
                reveal_strlit("edid_");
            }
            assert(r@ == edid_prefix());
            let mut i: usize = 0;
            while i < e.len()
                invariant
                    i <= e.len(),
                    r@ == edid_prefix() + sanitize_edid(e@.subrange(0, i as int)),
                decreases e.len() - i,
            {
                let c = e[i];
                if c == '\\' || c == '#' {
                    r.push('_');
                } else {
                    r.push(c);
                }
                i = i + 1;
                assert(sanitize_edid(e@.subrange(0, i as int)) =~= sanitize_edid(
                    e@.subrange(0, i - 1),
                ).push(if c == '\\' || c == '#' { '_' } else { c }));
            }
            assert(e@.subrange(0, e.len() as int) == e@);
            r
        },
        None => {
            let mut r: Vec<char> = Vec::new();
            push_decimal(&mut r, display_id.adapter_luid);
            r.push('_');
            push_decimal(&mut r, display_id.target_id as u64);
            r
        },
    }
}

/// Generates the stable key that names a display in a profile.
pub fn display_id_to_key(display_id: &DisplayId) -> (r: String)
    ensures
        r@ == display_key(display_id@),
{
    let v = display_key_chars(display_id);
    string_from_chars(&v)
}

/// The word `DISPLAY` that precedes the PnP id in a monitor device path.
pub open spec fn display_word() -> Seq<char> {
    seq!['D', 'I', 'S', 'P', 'L', 'A', 'Y']
}

/// The word `UID` that precedes the unique id in a monitor device path.
pub open spec fn uid_word() -> Seq<char> {
    seq!['U', 'I', 'D']
}

/// The PnP id in a monitor device path: after the first `DISPLAY`, the text
/// between the next `#` or `_` and the one after it, where that text is not empty.
pub open spec fn pnp_id(e: Seq<char>) -> Option<Seq<char>> {
    match find(e, display_word()) {
        Some(i) => match find_either_from(e, i, '#', '_') {
            Some(j) => match find_either_from(e, j + 1, '#', '_') {
                Some(k) => if k > j + 1 {
                    Some(e.subrange(j + 1, k))
                } else {
                    None
                },
                None => None,
            },
            None => None,
        },
        None => None,
    }
}

/// The unique id in a monitor device path: `UID` and the digits that follow
/// the first `UID`, where there is at least one and something that is not a
/// digit comes after them.
pub open spec fn uid_id(e: Seq<char>) -> Option<Seq<char>> {
    match find(e, uid_word()) {
        Some(u) => match find_non_digit_from(e, u + 3) {
            Some(end) => if end > u + 3 {
                Some(uid_word() + e.subrange(u + 3, end))
            } else {
                None
            },
            None => None,
        },
        None => None,
    }
}

/// Extracts the PnP id from a monitor device path or an EDID key.
pub fn extract_pnp_id(edid: &Vec<char>) -> (r: Option<Vec<char>>)
    ensures
        match r {
            Some(v) => pnp_id(edid@) == Some(v@),
            None => pnp_id(edid@) is None,
        },
{
    let _n = edid.len();
    let word: Vec<char> = vec!['D', 'I', 'S', 'P', 'L', 'A', 'Y'];
    assert(word@ == display_word());
    match find_exec(edid, &word) {
        Some(i) => match find_either_from_exec(edid, i, '#', '_') {
            Some(j) => {
                let start = j + 1;
                match find_either_from_exec(edid, start, '#', '_') {
                    Some(k) => {
                        if k > start {
                            Some(slice_chars(edid, start, k))
                        } else {
                            None
                        }
                    },
                    None => None,
                }
            },
            None => None,
        },
        None => None,
    }
}

/// Extracts the unique id (`UID` and its digits) from a monitor device path.
pub fn extract_uid(edid: &Vec<char>) -> (r: Option<Vec<char>>)
    ensures
        match r {
            Some(v) => uid_id(edid@) == Some(v@),
            None => uid_id(edid@) is None,
        },
{
    let _n = edid.len();
    let word: Vec<char> = vec!['U', 'I', 'D'];
    assert(word@ == uid_word());
    match find_exec(edid, &word) {
        Some(u) => {
            let after = u + 3;
            match find_non_digit_from_exec(edid, after) {
                Some(end) => {
                    if end > after {
                        let digits = slice_chars(edid, after, end);
                        let mut r = word;
                        push_all(&mut r, &digits);
                        Some(r)
                    } else {
                        None
                    }
                },
                None => None,
            }
        },
        None => None,
    }
}

/// What a display key gives back: `None` for an EDID key; else, where the key
/// is two parts joined by one `_`, the adapter LUID and target id that the
/// parts parse to as `u64` and `u32`.
pub open spec fn parse_key(k: Seq<char>) -> Option<(u64, u32)> {
    if starts_with(k, edid_prefix()) {
        None
    } else {
        match find_either_from(k, 0, '_', '_') {
            Some(p) => if find_either_from(k, p + 1, '_', '_') is None {
                match (
                    parse_unsigned(k.subrange(0, p), u64::MAX as nat),
                    parse_unsigned(k.subrange(p + 1, k.len() as int), u32::MAX as nat),
                ) {
                    (Some(a), Some(b)) => Some((a as u64, b as u32)),
                    _ => None,
                }
            } else {
                None
            },
            None => None,
        }
    }
}

/// Parses a display key back into the adapter LUID and target id it names.
pub fn parse_display_key_chars(key: &Vec<char>) -> (r: Option<(u64, u32)>)
    ensures
        r == parse_key(key@),
{
    let _n = key.len();
    let prefix: Vec<char> = vec!['e', 'd', 'i', 'd', '_'];
    assert(prefix@ == edid_prefix());
    if starts_with_exec(key, &prefix) {
        return None;
    }
    match find_either_from_exec(key, 0, '_', '_') {
        Some(p) => {
            if find_either_from_exec(key, p + 1, '_', '_').is_some() {
                return None;
            }
            let first = slice_chars(key, 0, p);
            let second = slice_chars(key, p + 1, key.len());
            match (parse_u64_chars(&first), parse_u32_chars(&second)) {
                (Some(a), Some(b)) => Some((a, b)),
                _ => None,
            }
        },
        None => None,
    }
}

/// Parses a display key back into the adapter LUID and target id it names.
pub fn parse_display_key(key: &str) -> (r: Option<(u64, u32)>)
    ensures
        r == parse_key(key@),
{
    let k = chars_of(key);
    parse_display_key_chars(&k)
}


/// A user's display profile: the assignment saved for each display, under the
/// display's key (no key twice), and the last layout known to work.
#[derive(Debug)]
pub struct UserDisplayProfile {
    pub assignments: Vec<(String, DisplayAssignment)>,
    pub last_known_good_layout: Option<Vec<DisplayAssignment>>,
}

/// The profiles of all users, under their user names (no name twice).
#[derive(Debug)]
pub struct AllProfiles {
    pub users: Vec<(String, UserDisplayProfile)>,
}

impl Default for UserDisplayProfile {
    fn default() -> (r: Self)
        ensures
            r.assignments@.len() == 0,
            r.last_known_good_layout is None,
    {
        UserDisplayProfile { assignments: Vec::new(), last_known_good_layout: None }
    }
}

impl Default for AllProfiles {
    fn default() -> (r: Self)
        ensures
            r.users@.len() == 0,
    {
        AllProfiles { users: Vec::new() }
    }
}

/// The keyed assignments of a list, as keys and assignment values.
pub open spec fn entries_view(s: Seq<(String, DisplayAssignment)>) -> Seq<(Seq<char>, DisplayAssignmentView)> {
    s.map_values(|e: (String, DisplayAssignment)| (e.0@, e.1@))
}

/// The keys of keyed assignment values.
pub open spec fn keys_of(s: Seq<(Seq<char>, DisplayAssignmentView)>) -> Seq<Seq<char>> {
    s.map_values(|e: (Seq<char>, DisplayAssignmentView)| e.0)
}

/// Whether no key occurs twice.
pub open spec fn distinct_keys(s: Seq<Seq<char>>) -> bool {
    forall|i: int, j: int| 0 <= i < s.len() && 0 <= j < s.len() && i != j ==> s[i] != s[j]
}

/// The views of character vectors.
pub open spec fn vv(s: Seq<Vec<char>>) -> Seq<Seq<char>> {
    s.map_values(|v: Vec<char>| v@)
}

/// A saved EDID key part turned back toward a device path: `__` becomes `\`,
/// `_DISPLAY_` becomes `#DISPLAY#`, and every other `_` becomes `#`.
pub open spec fn normalize_profile_edid(part: Seq<char>) -> Seq<char> {
    replace_all(
        replace_all(
            replace_all(part, seq!['_', '_'], seq!['\\']),
            seq!['_'] + display_word() + seq!['_'],
            seq!['#'] + display_word() + seq!['#'],
        ),
        seq!['_'],
        seq!['#'],
    )
}

/// Whether the EDID hash of a connected display matches the EDID part of a
/// saved key: equal to it, equal to it normalized, or with the same PnP id.
pub open spec fn edid_matches(edid: Seq<char>, part: Seq<char>) -> bool {
    ||| edid == part
    ||| edid == normalize_profile_edid(part)
    ||| (pnp_id(part) is Some && pnp_id(part) == pnp_id(edid))
}

/// The EDID hash of a display, if it has one.
pub open spec fn edid_of(d: DisplayDevice) -> Option<Seq<char>> {
    opt_view(d.display_id.edid_hash)
}

/// Whether display `i` has an EDID hash that no earlier display has.
pub open spec fn first_with_edid(ds: Seq<DisplayDevice>, i: int) -> bool {
    &&& edid_of(ds[i]) is Some
    &&& forall|j: int| 0 <= j < i ==> edid_of(#[trigger] ds[j]) != edid_of(ds[i])
}

/// The first display at or after `i` that is the first with its EDID hash and
/// whose hash matches the saved EDID part.
pub open spec fn edid_match_from(ds: Seq<DisplayDevice>, part: Seq<char>, i: int) -> Option<int>
    decreases ds.len() - i,
{
    if i < 0 || i >= ds.len() {
        None
    } else if first_with_edid(ds, i) && edid_matches(edid_of(ds[i])->0, part) {
        Some(i)
    } else {
        edid_match_from(ds, part, i + 1)
    }
}

/// The first display at or after `i` with the given adapter LUID and target id.
pub open spec fn target_match_from(ds: Seq<DisplayDevice>, luid: u64, tid: u32, i: int) -> Option<int>
    decreases ds.len() - i,
{
    if i < 0 || i >= ds.len() {
        None
    } else if ds[i].display_id.adapter_luid == luid && ds[i].display_id.target_id == tid {
        Some(i)
    } else {
        target_match_from(ds, luid, tid, i + 1)
    }
}

/// Whether no display before `i` has the adapter LUID and target id of display `i`.
pub open spec fn first_with_target(ds: Seq<DisplayDevice>, i: int) -> bool {
    forall|j: int|
        0 <= j < i ==> !((#[trigger] ds[j]).display_id.adapter_luid == ds[i].display_id.adapter_luid
            && ds[j].display_id.target_id == ds[i].display_id.target_id)
}

/// The first display at or after `i` that is the first with its adapter and
/// target, has the given target id, and whose key is not yet taken.
pub open spec fn free_target_from(ds: Seq<DisplayDevice>, tid: u32, used: Seq<Seq<char>>, i: int) -> Option<int>
    decreases ds.len() - i,
{
    if i < 0 || i >= ds.len() {
        None
    } else if first_with_target(ds, i) && ds[i].display_id.target_id == tid && !used.contains(
        display_key(ds[i].display_id@),
    ) {
        Some(i)
    } else {
        free_target_from(ds, tid, used, i + 1)
    }
}

/// The last display before `n` with the given device name.
pub open spec fn last_named_before(ds: Seq<DisplayDevice>, name: Seq<char>, n: int) -> Option<int>
    decreases n,
{
    if n <= 0 || n > ds.len() {
        None
    } else if ds[n - 1].device_name@ == name {
        Some(n - 1)
    } else {
        last_named_before(ds, name, n - 1)
    }
}

/// The connected display that a saved key is remapped to, and the key it is
/// saved under afterwards, given the keys already taken.
pub open spec fn remap_target(key: Seq<char>, used: Seq<Seq<char>>, ds: Seq<DisplayDevice>) -> Option<(Seq<char>, int)> {
    if starts_with(key, edid_prefix()) {
        match edid_match_from(ds, key.skip(5), 0) {
            Some(i) => Some((display_key(ds[i].display_id@), i)),
            None => None,
        }
    } else {
        match parse_key(key) {
            Some((luid, tid)) => match target_match_from(ds, luid, tid, 0) {
                Some(i) => Some((key, i)),
                None => match free_target_from(ds, tid, used, 0) {
                    Some(i) => Some((display_key(ds[i].display_id@), i)),
                    None => None,
                },
            },
            None => match last_named_before(ds, key, ds.len() as int) {
                Some(i) => Some((display_key(ds[i].display_id@), i)),
                None => None,
            },
        }
    }
}

/// The remapped profile after the first `n` saved assignments are processed in
/// order: each that finds a display under a key not yet taken is kept under
/// that key, naming that display.
pub open spec fn remap_prefix(entries: Seq<(String, DisplayAssignment)>, ds: Seq<DisplayDevice>, n: int) -> Seq<(Seq<char>, DisplayAssignmentView)>
    decreases n,
{
    if n <= 0 || n > entries.len() {
        seq![]
    } else {
        let prev = remap_prefix(entries, ds, n - 1);
        let used = keys_of(prev);
        match remap_target(entries[n - 1].0@, used, ds) {
            Some((k, i)) => if used.contains(k) {
                prev
            } else {
                prev.push((k, DisplayAssignmentView { display_id: ds[i].display_id@, ..entries[n - 1].1@ }))
            },
            None => prev,
        }
    }
}

/// Whether a character vector occurs among others.
pub fn contains_chars(used: &Vec<Vec<char>>, k: &Vec<char>) -> (r: bool)
    ensures
        r == vv(used@).contains(k@),
{
    let mut i: usize = 0;
    while i < used.len()
        invariant
            i <= used.len(),
            forall|j: int| 0 <= j < i ==> (#[trigger] used@[j])@ != k@,
        decreases used.len() - i,
    {
        if chars_eq(&used[i], k) {
            assert(vv(used@)[i as int] == k@);
            return true;
        }
        i = i + 1;
    }
    assert forall|j: int| 0 <= j < vv(used@).len() implies vv(used@)[j] != k@ by {
        assert(vv(used@)[j] == used@[j]@);
    }
    false
}

/// The EDID hash of display `i` as characters.
fn edid_chars(d: &DisplayDevice) -> (r: Option<Vec<char>>)
    ensures
        match r {
            Some(v) => edid_of(*d) == Some(v@),
            None => edid_of(*d) is None,
        },
{
    match &d.display_id.edid_hash {
        Some(e) => Some(chars_of(e.as_str())),
        None => None,
    }
}

/// Whether display `i` has an EDID hash that no earlier display has.
fn is_first_with_edid(ds: &Vec<DisplayDevice>, i: usize, e: &Vec<char>) -> (r: bool)
    requires
        i < ds.len(),
        edid_of(ds@[i as int]) == Some(e@),
    ensures
        r == first_with_edid(ds@, i as int),
{
    let mut j: usize = 0;
    while j < i
        invariant
            j <= i < ds.len(),
            edid_of(ds@[i as int]) == Some(e@),
            forall|k: int| 0 <= k < j ==> edid_of(#[trigger] ds@[k]) != edid_of(ds@[i as int]),
        decreases i - j,
    {
        match edid_chars(&ds[j]) {
            Some(x) => {
                if chars_eq(&x, e) {
                    return false;
                }
            },
            None => {},
        }
        j = j + 1;
    }
    true
}

/// Whether the EDID hash of a connected display matches a saved EDID part,
/// given that part's normalized form and PnP id.
fn edid_matches_exec(edid: &Vec<char>, part: &Vec<char>, normalized: &Vec<char>, part_pnp: &Option<Vec<char>>) -> (r: bool)
    requires
        normalized@ == normalize_profile_edid(part@),
        match part_pnp {
            Some(p) => pnp_id(part@) == Some(p@),
            None => pnp_id(part@) is None,
        },
    ensures
        r == edid_matches(edid@, part@),
{
    if chars_eq(edid, part) || chars_eq(edid, normalized) {
        return true;
    }
    match part_pnp {
        Some(p) => match extract_pnp_id(edid) {
            Some(q) => chars_eq(p, &q),
            None => false,
        },
        None => false,
    }
}

/// `part` turned back toward a device path.
fn normalize_profile_edid_exec(part: &Vec<char>) -> (r: Vec<char>)
    ensures
        r@ == normalize_profile_edid(part@),
{
    let a: Vec<char> = vec!['_', '_'];
    let b: Vec<char> = vec!['\\'];
    let c: Vec<char> = vec!['_', 'D', 'I', 'S', 'P', 'L', 'A', 'Y', '_'];
    let d: Vec<char> = vec!['#', 'D', 'I', 'S', 'P', 'L', 'A', 'Y', '#'];
    let e: Vec<char> = vec!['_'];
    let f: Vec<char> = vec!['#'];
    assert(a@ == seq!['_', '_']);
    assert(b@ == seq!['\\']);
    assert(e@ == seq!['_']);
    assert(f@ == seq!['#']);
    assert(c@ == seq!['_'] + display_word() + seq!['_']);
    assert(d@ == seq!['#'] + display_word() + seq!['#']);
    let s1 = replace_all_exec(part, &a, &b);
    let s2 = replace_all_exec(&s1, &c, &d);
    replace_all_exec(&s2, &e, &f)
}

/// The first display that is the first with its EDID hash and matches a saved EDID part.
fn find_edid_match(ds: &Vec<DisplayDevice>, part: &Vec<char>) -> (r: Option<usize>)
    ensures
        match r {
            Some(i) => edid_match_from(ds@, part@, 0) == Some(i as int) && i < ds.len(),
            None => edid_match_from(ds@, part@, 0) is None,
        },
{
    let normalized = normalize_profile_edid_exec(part);
    let part_pnp = extract_pnp_id(part);
    let mut i: usize = 0;
    while i < ds.len()
        invariant
            i <= ds.len(),
            normalized@ == normalize_profile_edid(part@),
            match part_pnp {
                Some(p) => pnp_id(part@) == Some(p@),
                None => pnp_id(part@) is None,
            },
            edid_match_from(ds@, part@, 0) == edid_match_from(ds@, part@, i as int),
        decreases ds.len() - i,
    {
        match edid_chars(&ds[i]) {
            Some(e) => {
                if is_first_with_edid(ds, i, &e) && edid_matches_exec(&e, part, &normalized, &part_pnp) {
                    return Some(i);
                }
            },
            None => {},
        }
        i = i + 1;
    }
    None
}

/// The first display with the given adapter LUID and target id.
fn find_target_match(ds: &Vec<DisplayDevice>, luid: u64, tid: u32) -> (r: Option<usize>)
    ensures
        match r {
            Some(i) => target_match_from(ds@, luid, tid, 0) == Some(i as int) && i < ds.len(),
            None => target_match_from(ds@, luid, tid, 0) is None,
        },
{
    let mut i: usize = 0;
    while i < ds.len()
        invariant
            i <= ds.len(),
            target_match_from(ds@, luid, tid, 0) == target_match_from(ds@, luid, tid, i as int),
        decreases ds.len() - i,
    {
        if ds[i].display_id.adapter_luid == luid && ds[i].display_id.target_id == tid {
            return Some(i);
        }
        i = i + 1;
    }
    None
}

/// Whether no display before `i` has the adapter and target of display `i`.
fn is_first_with_target(ds: &Vec<DisplayDevice>, i: usize) -> (r: bool)
    requires
        i < ds.len(),
    ensures
        r == first_with_target(ds@, i as int),
{
    let mut j: usize = 0;
    while j < i
        invariant
            j <= i < ds.len(),
            forall|k: int|
                0 <= k < j ==> !((#[trigger] ds@[k]).display_id.adapter_luid
                    == ds@[i as int].display_id.adapter_luid && ds@[k].display_id.target_id
                    == ds@[i as int].display_id.target_id),
        decreases i - j,
    {
        if ds[j].display_id.adapter_luid == ds[i].display_id.adapter_luid
            && ds[j].display_id.target_id == ds[i].display_id.target_id {
            return false;
        }
        j = j + 1;
    }
    true
}

/// The first display that is the first with its adapter and target, has the
/// target id, and whose key is not taken.
fn find_free_target(ds: &Vec<DisplayDevice>, tid: u32, used: &Vec<Vec<char>>) -> (r: Option<usize>)
    ensures
        match r {
            Some(i) => free_target_from(ds@, tid, vv(used@), 0) == Some(i as int) && i < ds.len(),
            None => free_target_from(ds@, tid, vv(used@), 0) is None,
        },
{
    let mut i: usize = 0;
    while i < ds.len()
        invariant
            i <= ds.len(),
            free_target_from(ds@, tid, vv(used@), 0) == free_target_from(ds@, tid, vv(used@), i as int),
        decreases ds.len() - i,
    {
        if is_first_with_target(ds, i) && ds[i].display_id.target_id == tid {
            let k = display_key_chars(&ds[i].display_id);
            if !contains_chars(used, &k) {
                return Some(i);
            }
        }
        i = i + 1;
    }
    None
}

/// The last display with the given device name.
fn find_last_named(ds: &Vec<DisplayDevice>, name: &Vec<char>) -> (r: Option<usize>)
    ensures
        match r {
            Some(i) => last_named_before(ds@, name@, ds@.len() as int) == Some(i as int) && i < ds.len(),
            None => last_named_before(ds@, name@, ds@.len() as int) is None,
        },
{
    let mut n: usize = ds.len();
    while n > 0
        invariant
            n <= ds.len(),
            last_named_before(ds@, name@, ds@.len() as int) == last_named_before(ds@, name@, n as int),
        decreases n,
    {
        let dn = chars_of(ds[n - 1].device_name.as_str());
        if chars_eq(&dn, name) {
            return Some(n - 1);
        }
        n = n - 1;
    }
    None
}

/// The connected display that a saved key is remapped to, with the key it is
/// saved under afterwards.
fn find_remap_target(key: &Vec<char>, used: &Vec<Vec<char>>, ds: &Vec<DisplayDevice>) -> (r: Option<(Vec<char>, usize)>)
    ensures
        match r {
            Some((k, i)) => remap_target(key@, vv(used@), ds@) == Some((k@, i as int)) && i < ds.len(),
            None => remap_target(key@, vv(used@), ds@) is None,
        },
{
    let prefix: Vec<char> = vec!['e', 'd', 'i', 'd', '_'];
    assert(prefix@ == edid_prefix());
    if starts_with_exec(key, &prefix) {
        let part = slice_chars(key, 5, key.len());
        assert(part@ == key@.skip(5));
        match find_edid_match(ds, &part) {
            Some(i) => Some((display_key_chars(&ds[i].display_id), i)),
            None => None,
        }
    } else {
        match parse_display_key_chars(key) {
            Some((luid, tid)) => match find_target_match(ds, luid, tid) {
                Some(i) => Some((slice_chars(key, 0, key.len()), i)),
                None => match find_free_target(ds, tid, used) {
                    Some(i) => Some((display_key_chars(&ds[i].display_id), i)),
                    None => None,
                },
            },
            None => match find_last_named(ds, key) {
                Some(i) => Some((display_key_chars(&ds[i].display_id), i)),
                None => None,
            },
        }
    }
}

/// Remaps a saved profile onto the displays connected now. Saved assignments
/// are taken in order; each is matched to a connected display by EDID hash
/// (exactly, normalized, or by PnP id), by adapter and target (or, failing
/// that, by target id alone among displays whose key is free), or by device
/// name, and kept under the display's key unless that key is already taken.
pub fn remap_profile_assignments(profile: &UserDisplayProfile, current_displays: &Vec<DisplayDevice>) -> (r: Vec<(String, DisplayAssignment)>)
    ensures
        entries_view(r@) == remap_prefix(profile.assignments@, current_displays@, profile.assignments@.len() as int),
{
    let entries = &profile.assignments;
    let mut remapped: Vec<(String, DisplayAssignment)> = Vec::new();
    let mut used: Vec<Vec<char>> = Vec::new();
    let mut n: usize = 0;
    while n < entries.len()
        invariant
            n <= entries.len(),
            entries_view(remapped@) == remap_prefix(entries@, current_displays@, n as int),
            vv(used@) == keys_of(entries_view(remapped@)),
        decreases entries.len() - n,
    {
        let ghost prev = remap_prefix(entries@, current_displays@, n as int);
        let key = chars_of(entries[n].0.as_str());
        assert(entries@[n as int].0@ == key@);
        match find_remap_target(&key, &used, current_displays) {
            Some((new_key, i)) => {
                if !contains_chars(&used, &new_key) {
                    let a = entries[n].1.with_display_id(&current_displays[i].display_id);
                    let ks = string_from_chars(&new_key);
                    let ghost old_used = used@;
                    let ghost nk = new_key@;
                    remapped.push((ks, a));
                    used.push(new_key);
                    assert(entries_view(remapped@) =~= prev.push((nk, a@)));
                    assert(vv(used@) =~= vv(old_used).push(nk));
                    assert(keys_of(prev.push((nk, a@))) =~= keys_of(prev).push(nk));
                    assert(vv(used@) =~= keys_of(entries_view(remapped@)));
                }
            },
            None => {},
        }
        n = n + 1;
    }
    remapped
}


/// The name of the value that starts the manager at login.
pub open spec fn startup_value_name() -> Seq<char> {
    "DisplayManager"@
}

/// The change to the current user's startup programs that turning the start
/// at login on or off makes.
#[derive(Debug)]
pub enum StartupChange {
    /// Write the value `name` with the command `command`.
    SetValue { name: String, command: String },
    /// Remove the value `name` (a failure to remove it is ignored).
    DeleteValue { name: String },
}

/// Plans turning the start at login on or off: on writes the command that runs
/// `exe_path` (quoted) with `--apply-profile`; off removes the value.
pub fn set_startup_enabled(enabled: bool, exe_path: &str) -> (r: StartupChange)
    ensures
        enabled ==> (r matches StartupChange::SetValue { name, command } && name@ == startup_value_name()
            && command@ == "\""@ + exe_path@ + "\" --apply-profile"@),
        !enabled ==> (r matches StartupChange::DeleteValue { name } && name@ == startup_value_name()),
{
    let name = string_of("DisplayManager");
    if enabled {
        let mut v = chars_of("\"");
        push_str(&mut v, exe_path);
        push_str(&mut v, "\" --apply-profile");
        StartupChange::SetValue { name, command: string_from_chars(&v) }
    } else {
        StartupChange::DeleteValue { name }
    }
}

} // verus!
