//! Properties of the library that relate several of its functions.

use vstd::prelude::*;
use crate::text::{
    decimal, digit_char, lemma_decimal, lemma_parse_decimal, lemma_find_either_at,
    lemma_find_either_none, is_digit, starts_with, find, find_from, occurs_at, find_either_from, replace_all,
};
use crate::types::{orientation_name, same_display_by_assignment, DisplayDeviceView, DisplayIdView, DisplayOrientation, rotation_code, orientation_of_rotation};
use crate::topology::{
    PathInfo, ModeInfo, has_source_mode, primary_exists, first_source_path_from, normalized_modes,
    primary_plan, first_named_path, source_position, shift_fits, shifted_modes, moved_to_front,
    is_active, enable_plan, disable_plan, LayoutStateView, TopologyView, state_after_save,
    state_after_confirm, rollback_outcome, state_after_disable, MODE_TYPE_SOURCE, PATH_ACTIVE_FLAG,
    source_mode_from, MODE_IDX_INVALID, saved_source_mode, created_mode, reference_resolution,
};
use crate::types::DisplayDevice;
use crate::enumeration::{
    KnownMonitorView, merged_devices, merged_known, known_to_add, newly_known, has_device_named, is_known,
};
use crate::session::{
    assigned_display_from, parse_orientation, UserProfileView, lookup_profile, lookup_from, first_user_pos, users_after_save,
    users_after_delete, saved_profile, distinct_users,
};
use crate::profiles::{
    display_key, parse_key, edid_prefix, DisplayAssignment, DisplayAssignmentView, remap_prefix,
    remap_target, keys_of, distinct_keys, edid_match_from, target_match_from, free_target_from,
    last_named_before, edid_matches, edid_of, first_with_edid, entries_view, sanitize_edid, pnp_id,
    display_word, normalize_profile_edid,
};

verus! {

/// The key of a display identified by adapter and target parses back to that
/// adapter LUID and target id; the key of a display identified by its EDID
/// hash parses to nothing.
pub proof fn law_display_key_roundtrip(id: DisplayIdView)
    ensures
        parse_key(display_key(id)) == (match id.edid_hash {
            Some(_) => None,
            None => Some((id.adapter_luid, id.target_id)),
        }),
{
    let k = display_key(id);
    match id.edid_hash {
        Some(e) => {
            assert(k.subrange(0, 5) == edid_prefix());
        },
        None => {
            let d1 = decimal(id.adapter_luid as nat);
            let d2 = decimal(id.target_id as nat);
            lemma_decimal(id.adapter_luid as nat);
            lemma_decimal(id.target_id as nat);
            let p = d1.len() as int;
            assert(k[0] == d1[0]);
            assert(is_digit(d1[0]));
            assert(!starts_with(k, edid_prefix())) by {
                if k.len() >= 5 {
                    assert(k.subrange(0, 5)[0] == k[0]);
                }
            }
            assert forall|j: int| 0 <= j < p implies k[j] != '_' && k[j] != '_' by {
                assert(k[j] == d1[j]);
                assert(is_digit(d1[j]));
            }
            assert(k[p] == '_');
            lemma_find_either_at(k, 0, p, '_', '_');
            assert forall|j: int| p + 1 <= j < k.len() implies k[j] != '_' && k[j] != '_' by {
                assert(k[j] == d2[j - p - 1]);
                assert(is_digit(d2[j - p - 1]));
            }
            lemma_find_either_none(k, p + 1, '_', '_');
            assert(k.subrange(0, p) == d1);
            assert(k.subrange(p + 1, k.len() as int) == d2);
            lemma_parse_decimal(id.adapter_luid as nat, u64::MAX as nat);
            lemma_parse_decimal(id.target_id as nat, u32::MAX as nat);
        },
    }
}


proof fn lemma_edid_match_range(ds: Seq<DisplayDevice>, part: Seq<char>, i: int)
    ensures
        edid_match_from(ds, part, i) matches Some(j) ==> 0 <= j < ds.len(),
    decreases ds.len() - i,
{
    if 0 <= i < ds.len() {
        lemma_edid_match_range(ds, part, i + 1);
    }
}

proof fn lemma_target_match_range(ds: Seq<DisplayDevice>, luid: u64, tid: u32, i: int)
    ensures
        target_match_from(ds, luid, tid, i) matches Some(j) ==> 0 <= j < ds.len(),
    decreases ds.len() - i,
{
    if 0 <= i < ds.len() {
        lemma_target_match_range(ds, luid, tid, i + 1);
    }
}

proof fn lemma_free_target_range(ds: Seq<DisplayDevice>, tid: u32, used: Seq<Seq<char>>, i: int)
    ensures
        free_target_from(ds, tid, used, i) matches Some(j) ==> 0 <= j < ds.len(),
    decreases ds.len() - i,
{
    if 0 <= i < ds.len() {
        lemma_free_target_range(ds, tid, used, i + 1);
    }
}

proof fn lemma_last_named_range(ds: Seq<DisplayDevice>, name: Seq<char>, n: int)
    ensures
        last_named_before(ds, name, n) matches Some(j) ==> 0 <= j < ds.len(),
    decreases n,
{
    if 0 < n <= ds.len() {
        lemma_last_named_range(ds, name, n - 1);
    }
}

/// The display that a key is remapped to is one of the connected displays, and
/// the key it is remapped under is the saved key or that display's key.
proof fn lemma_remap_target_range(key: Seq<char>, used: Seq<Seq<char>>, ds: Seq<DisplayDevice>)
    ensures
        remap_target(key, used, ds) matches Some((k, i)) ==> 0 <= i < ds.len() && (k == key || k == display_key(
            ds[i].display_id@,
        )),
{
    lemma_edid_match_range(ds, key.skip(5), 0);
    if let Some((luid, tid)) = parse_key(key) {
        lemma_target_match_range(ds, luid, tid, 0);
        lemma_free_target_range(ds, tid, used, 0);
    }
    lemma_last_named_range(ds, key, ds.len() as int);
}

/// Whether remapped entry `r` comes from saved entry `e` onto display `d`: it
/// is `e`'s assignment naming `d`, under `e`'s key or `d`'s key.
pub open spec fn remapped_from(r: (Seq<char>, DisplayAssignmentView), e: (String, DisplayAssignment), d: DisplayDevice) -> bool {
    &&& r.1 == (DisplayAssignmentView { display_id: d.display_id@, ..e.1@ })
    &&& (r.0 == e.0@ || r.0 == display_key(d.display_id@))
}

/// Whether remapped entry `r` comes from one of the first `n` saved entries
/// onto one of the connected displays.
pub open spec fn remapped_from_some(r: (Seq<char>, DisplayAssignmentView), entries: Seq<(String, DisplayAssignment)>, n: int, ds: Seq<DisplayDevice>) -> bool {
    exists|m: int, i: int| 0 <= m < n && 0 <= i < ds.len() && #[trigger] remapped_from(r, entries[m], ds[i])
}

proof fn lemma_remapped_from_more(r: (Seq<char>, DisplayAssignmentView), entries: Seq<(String, DisplayAssignment)>, n: int, ds: Seq<DisplayDevice>)
    requires
        remapped_from_some(r, entries, n - 1, ds),
    ensures
        remapped_from_some(r, entries, n, ds),
{
    let (m, i) = choose|m: int, i: int| 0 <= m < n - 1 && 0 <= i < ds.len() && #[trigger] remapped_from(r, entries[m], ds[i]);
    assert(remapped_from(r, entries[m], ds[i]));
}

proof fn lemma_remap_prefix(entries: Seq<(String, DisplayAssignment)>, ds: Seq<DisplayDevice>, n: int)
    requires
        0 <= n <= entries.len(),
    ensures
        ({
            let r = remap_prefix(entries, ds, n);
            &&& distinct_keys(keys_of(r))
            &&& r.len() <= n
            &&& forall|j: int| 0 <= j < r.len() ==> #[trigger] remapped_from_some(r[j], entries, n, ds)
        }),
    decreases n,
{
    if n > 0 {
        lemma_remap_prefix(entries, ds, n - 1);
        let prev = remap_prefix(entries, ds, n - 1);
        let used = keys_of(prev);
        lemma_remap_target_range(entries[n - 1].0@, used, ds);
        let r = remap_prefix(entries, ds, n);
        if r == prev {
            assert forall|j: int| 0 <= j < r.len() implies #[trigger] remapped_from_some(r[j], entries, n, ds) by {
                assert(remapped_from_some(prev[j], entries, n - 1, ds));
                lemma_remapped_from_more(r[j], entries, n, ds);
            }
        }
        if let Some((k, i)) = remap_target(entries[n - 1].0@, used, ds) {
            if !used.contains(k) {
                assert(keys_of(r) =~= used.push(k));
                assert forall|a: int, b: int|
                    0 <= a < keys_of(r).len() && 0 <= b < keys_of(r).len() && a != b
                    implies keys_of(r)[a] != keys_of(r)[b] by {
                    if a == prev.len() {
                        assert(keys_of(r)[b] == used[b]);
                    } else if b == prev.len() {
                        assert(keys_of(r)[a] == used[a]);
                    }
                }
                assert forall|j: int| 0 <= j < r.len() implies #[trigger] remapped_from_some(r[j], entries, n, ds) by {
                    if j < prev.len() {
                        assert(r[j] == prev[j]);
                        assert(remapped_from_some(prev[j], entries, n - 1, ds));
                        lemma_remapped_from_more(r[j], entries, n, ds);
                    } else {
                        assert(remapped_from(r[j], entries[n - 1], ds[i]));
                    }
                }
            }
        }
    }
}

/// A remapped profile names each display under one key at most, keeps no more
/// assignments than were saved, and each of its entries is a saved assignment
/// unchanged but for naming a connected display, kept under its saved key or
/// under that display's key.
pub proof fn law_remap_well_formed(entries: Seq<(String, DisplayAssignment)>, ds: Seq<DisplayDevice>)
    ensures
        ({
            let r = remap_prefix(entries, ds, entries.len() as int);
            &&& distinct_keys(keys_of(r))
            &&& r.len() <= entries.len()
            &&& forall|j: int| 0 <= j < r.len() ==> #[trigger] remapped_from_some(r[j], entries, entries.len() as int, ds)
        }),
{
    lemma_remap_prefix(entries, ds, entries.len() as int);
}

/// Whether the profile key of display `i` names that display alone: the
/// display has an EDID hash, which matches the key, and no other display's
/// EDID hash matches it.
pub open spec fn key_names_only(ds: Seq<DisplayDevice>, i: int) -> bool {
    let part = display_key(ds[i].display_id@).skip(5);
    &&& edid_of(ds[i]) is Some
    &&& edid_matches(edid_of(ds[i])->0, part)
    &&& forall|j: int|
        0 <= j < ds.len() && j != i && (#[trigger] edid_of(ds[j])) is Some ==> !edid_matches(edid_of(ds[j])->0, part)
}

/// Whether a keyed assignment is keyed by the key of display `d`.
pub open spec fn keyed_by(e: (String, DisplayAssignment), d: DisplayDevice) -> bool {
    e.0@ == display_key(d.display_id@)
}

/// Whether a keyed assignment is keyed by the key of a display that the key
/// names alone.
pub open spec fn keyed_by_named_display(e: (String, DisplayAssignment), ds: Seq<DisplayDevice>) -> bool {
    exists|i: int| 0 <= i < ds.len() && key_names_only(ds, i) && #[trigger] keyed_by(e, ds[i])
}

/// Whether every keyed assignment is keyed by the key of a display that the
/// key names alone.
pub open spec fn keyed_by_named_displays(entries: Seq<(String, DisplayAssignment)>, ds: Seq<DisplayDevice>) -> bool {
    forall|m: int| 0 <= m < entries.len() ==> #[trigger] keyed_by_named_display(entries[m], ds)
}

/// A keyed assignment as it is restored onto display `d`: same key, same
/// assignment, naming `d`.
pub open spec fn restored_entry(e: (String, DisplayAssignment), d: DisplayDevice) -> (Seq<char>, DisplayAssignmentView) {
    (e.0@, DisplayAssignmentView { display_id: d.display_id@, ..e.1@ })
}

proof fn lemma_edid_key_part(ds: Seq<DisplayDevice>, i: int)
    requires
        0 <= i < ds.len(),
        edid_of(ds[i]) is Some,
    ensures
        starts_with(display_key(ds[i].display_id@), edid_prefix()),
        display_key(ds[i].display_id@).skip(5) == sanitize_edid(edid_of(ds[i])->0),
{
    let e = edid_of(ds[i])->0;
    let k = display_key(ds[i].display_id@);
    assert(k == edid_prefix() + sanitize_edid(e));
    assert(k.subrange(0, 5) =~= edid_prefix());
    assert(k.skip(5) =~= sanitize_edid(e));
}

proof fn lemma_edid_match_only(ds: Seq<DisplayDevice>, i: int, k: int)
    requires
        0 <= k <= i < ds.len(),
        key_names_only(ds, i),
    ensures
        edid_match_from(ds, display_key(ds[i].display_id@).skip(5), k) == Some(i),
    decreases i - k,
{
    let part = display_key(ds[i].display_id@).skip(5);
    if k == i {
        assert forall|j: int| 0 <= j < i implies edid_of(#[trigger] ds[j]) != edid_of(ds[i]) by {
            if edid_of(ds[j]) == edid_of(ds[i]) {
                assert(edid_matches(edid_of(ds[j])->0, part));
            }
        }
        assert(first_with_edid(ds, i));
    } else {
        if first_with_edid(ds, k) {
            assert(edid_of(ds[k]) is Some);
            assert(!edid_matches(edid_of(ds[k])->0, part));
        }
        lemma_edid_match_only(ds, i, k + 1);
    }
}

/// A display key names at most one display alone.
proof fn lemma_named_display_unique(ds: Seq<DisplayDevice>, i: int, i2: int)
    requires
        0 <= i < ds.len(),
        0 <= i2 < ds.len(),
        key_names_only(ds, i),
        key_names_only(ds, i2),
        display_key(ds[i].display_id@) == display_key(ds[i2].display_id@),
    ensures
        i == i2,
{
    if i != i2 {
        assert(edid_of(ds[i2]) is Some);
        assert(!edid_matches(edid_of(ds[i2])->0, display_key(ds[i].display_id@).skip(5)));
    }
}

proof fn lemma_restore_prefix(entries: Seq<(String, DisplayAssignment)>, ds: Seq<DisplayDevice>, n: int)
    requires
        0 <= n <= entries.len(),
        distinct_keys(keys_of(entries_view(entries))),
        keyed_by_named_displays(entries, ds),
    ensures
        ({
            let r = remap_prefix(entries, ds, n);
            &&& r.len() == n
            &&& keys_of(r) == keys_of(entries_view(entries)).take(n)
            &&& forall|m: int, i: int|
                0 <= m < n && 0 <= i < ds.len() && key_names_only(ds, i) && #[trigger] keyed_by(entries[m], ds[i])
                    ==> r[m] == restored_entry(entries[m], ds[i])
        }),
    decreases n,
{
    if n > 0 {
        lemma_restore_prefix(entries, ds, n - 1);
        let ev = entries_view(entries);
        let prev = remap_prefix(entries, ds, n - 1);
        let used = keys_of(prev);
        let key = entries[n - 1].0@;
        assert(0 <= n - 1 < entries.len());
        let e = entries[n - 1];
        assert(keyed_by_named_display(e, ds));
        let i = choose|i: int| 0 <= i < ds.len() && key_names_only(ds, i) && #[trigger] keyed_by(e, ds[i]);
        lemma_edid_key_part(ds, i);
        lemma_edid_match_only(ds, i, 0);
        assert(remap_target(key, used, ds) == Some((key, i)));
        assert(keys_of(ev)[n - 1] == key);
        assert(!used.contains(key)) by {
            if used.contains(key) {
                let m = choose|m: int| 0 <= m < used.len() && used[m] == key;
                assert(keys_of(ev)[m] == used[m]);
            }
        }
        let r = remap_prefix(entries, ds, n);
        assert(r == prev.push(restored_entry(e, ds[i])));
        assert(keys_of(r) =~= keys_of(ev).take(n));
        assert forall|m: int, i2: int|
            0 <= m < n && 0 <= i2 < ds.len() && key_names_only(ds, i2) && #[trigger] keyed_by(entries[m], ds[i2])
            implies r[m] == restored_entry(entries[m], ds[i2]) by {
            if m == n - 1 {
                lemma_named_display_unique(ds, i, i2);
            } else {
                assert(r[m] == prev[m]);
            }
        }
    }
}

/// A profile is restored onto the connected displays under its own keys: where
/// each saved assignment is keyed by the key of a connected display, and that
/// key names that display alone, remapping keeps every assignment, in order,
/// under its key, with only the display it names changed to that display; and
/// applying it acts on that display (when every display has an EDID hash).
pub proof fn law_restore_saved_profile(entries: Seq<(String, DisplayAssignment)>, ds: Seq<DisplayDevice>)
    requires
        distinct_keys(keys_of(entries_view(entries))),
        keyed_by_named_displays(entries, ds),
    ensures
        remap_prefix(entries, ds, entries.len() as int).len() == entries.len(),
        forall|m: int, i: int|
            0 <= m < entries.len() && 0 <= i < ds.len() && key_names_only(ds, i) && #[trigger] keyed_by(entries[m], ds[i])
                ==> remap_prefix(entries, ds, entries.len() as int)[m] == restored_entry(entries[m], ds[i]),
        (forall|j: int| 0 <= j < ds.len() ==> (#[trigger] edid_of(ds[j])) is Some) ==> forall|m: int, i: int|
            0 <= m < entries.len() && 0 <= i < ds.len() && key_names_only(ds, i) && #[trigger] keyed_by(entries[m], ds[i])
                ==> assigned_display_from(ds, remap_prefix(entries, ds, entries.len() as int)[m].1.display_id, 0) == Some(i),
{
    lemma_restore_prefix(entries, ds, entries.len() as int);
    if forall|j: int| 0 <= j < ds.len() ==> (#[trigger] edid_of(ds[j])) is Some {
        assert forall|m: int, i: int|
            0 <= m < entries.len() && 0 <= i < ds.len() && key_names_only(ds, i) && #[trigger] keyed_by(entries[m], ds[i])
            implies assigned_display_from(ds, remap_prefix(entries, ds, entries.len() as int)[m].1.display_id, 0) == Some(i) by {
            lemma_assigned_only(ds, i, 0);
        }
    }
}


/// A monitor device path as Windows writes it: `\\?\DISPLAY#`, the PnP id,
/// `#`, and the rest.
pub open spec fn device_path(pnp: Seq<char>, rest: Seq<char>) -> Seq<char> {
    seq!['\\', '\\', '?', '\\'] + display_word() + seq!['#'] + pnp + seq!['#'] + rest
}

/// Whether a PnP id is non-empty and holds none of `#`, `_` and `\`.
pub open spec fn plain_pnp(pnp: Seq<char>) -> bool {
    &&& pnp.len() > 0
    &&& forall|j: int| 0 <= j < pnp.len() ==> pnp[j] != '#' && pnp[j] != '_' && pnp[j] != '\\'
}

proof fn lemma_find_from_at(s: Seq<char>, pat: Seq<char>, i: int, q: int)
    requires
        0 <= i <= q,
        pat.len() > 0,
        occurs_at(s, pat, q),
        forall|j: int| i <= j < q ==> !occurs_at(s, pat, j),
    ensures
        find_from(s, pat, i) == Some(q),
    decreases q - i,
{
    if i < q {
        lemma_find_from_at(s, pat, i + 1, q);
    }
}

/// The PnP id of a text laid out as a device path: four characters that are
/// not `D`, `DISPLAY`, a separator, the id, a separator.
proof fn lemma_pnp_of_layout(s: Seq<char>, pnp: Seq<char>)
    requires
        plain_pnp(pnp),
        s.len() > 12 + pnp.len() as int,
        forall|j: int| 0 <= j < 4 ==> s[j] != 'D',
        s.subrange(4, 11) == display_word(),
        s[11] == '#' || s[11] == '_',
        s.subrange(12, 12 + pnp.len() as int) == pnp,
        s[12 + pnp.len() as int] == '#' || s[12 + pnp.len() as int] == '_',
    ensures
        pnp_id(s) == Some(pnp),
{
    let w = display_word();
    assert forall|j: int| 0 <= j < 4 implies !occurs_at(s, w, j) by {
        if occurs_at(s, w, j) {
            assert(s.subrange(j, j + 7)[0] == s[j]);
        }
    }
    assert(occurs_at(s, w, 4));
    lemma_find_from_at(s, w, 0, 4);
    assert(find(s, w) == Some(4int));
    assert forall|j: int| 4 <= j < 11 implies s[j] != '#' && s[j] != '_' by {
        assert(s[j] == s.subrange(4, 11)[j - 4]);
    }
    lemma_find_either_at(s, 4, 11, '#', '_');
    let k: int = 12 + pnp.len() as int;
    assert forall|j: int| 12 <= j < k implies s[j] != '#' && s[j] != '_' by {
        assert(s[j] == s.subrange(12, k)[j - 12]);
    }
    lemma_find_either_at(s, 12, k, '#', '_');
}

proof fn lemma_replace_keeps_head(s: Seq<char>, pat: Seq<char>, rep: Seq<char>)
    requires
        s.len() >= 2,
        pat.len() > 0,
        pat[0] != s[0],
        pat[0] != s[1],
    ensures
        replace_all(s, pat, rep).len() >= 2,
        replace_all(s, pat, rep)[0] == s[0],
        replace_all(s, pat, rep)[1] == s[1],
{
    assert(!starts_with(s, pat)) by {
        if starts_with(s, pat) {
            assert(s.subrange(0, pat.len() as int)[0] == s[0]);
        }
    }
    let t = s.skip(1);
    assert(t[0] == s[1]);
    assert(!starts_with(t, pat)) by {
        if starts_with(t, pat) {
            assert(t.subrange(0, pat.len() as int)[0] == t[0]);
        }
    }
    assert(replace_all(s, pat, rep) == seq![s[0]] + replace_all(t, pat, rep));
    assert(replace_all(t, pat, rep) == seq![t[0]] + replace_all(t.skip(1), pat, rep));
}

/// The key of a device path names that path: the second character of the
/// normalized key part is `?`, where the path has `\`, and the key part has
/// the path's PnP id.
proof fn lemma_device_path_key(pnp: Seq<char>, rest: Seq<char>)
    requires
        plain_pnp(pnp),
    ensures
        pnp_id(device_path(pnp, rest)) == Some(pnp),
        pnp_id(sanitize_edid(device_path(pnp, rest))) == Some(pnp),
        normalize_profile_edid(sanitize_edid(device_path(pnp, rest))).len() >= 2,
        normalize_profile_edid(sanitize_edid(device_path(pnp, rest)))[1] == '?',
{
    let e = device_path(pnp, rest);
    let k: int = 12 + pnp.len() as int;
    assert(e.subrange(4, 11) =~= display_word());
    assert(e.subrange(12, k) =~= pnp);
    assert(e[11] == '#');
    assert(e[k] == '#');
    lemma_pnp_of_layout(e, pnp);
    let s = sanitize_edid(e);
    assert(s.subrange(4, 11) =~= display_word());
    assert(s.subrange(12, k) =~= pnp) by {
        assert forall|j: int| 0 <= j < pnp.len() implies s.subrange(12, k)[j] == pnp[j] by {
            assert(e[12 + j] == pnp[j]);
        }
    }
    assert(s[0] == '_' && s[1] == '_' && s[2] == '?' && s[3] == '_');
    lemma_pnp_of_layout(s, pnp);
    let two = seq!['_', '_'];
    assert(starts_with(s, two)) by {
        assert(s.subrange(0, 2) =~= two);
    }
    let t = s.skip(2);
    assert(t[0] == '?');
    assert(!starts_with(t, two)) by {
        if starts_with(t, two) {
            assert(t.subrange(0, 2)[0] == t[0]);
        }
    }
    let n1 = replace_all(s, two, seq!['\\']);
    assert(n1 == seq!['\\'] + replace_all(t, two, seq!['\\']));
    assert(replace_all(t, two, seq!['\\']) == seq![t[0]] + replace_all(t.skip(1), two, seq!['\\']));
    assert(n1[0] == '\\' && n1[1] == '?');
    let mid = seq!['_'] + display_word() + seq!['_'];
    lemma_replace_keeps_head(n1, mid, seq!['#'] + display_word() + seq!['#']);
    let n2 = replace_all(n1, mid, seq!['#'] + display_word() + seq!['#']);
    lemma_replace_keeps_head(n2, seq!['_'], seq!['#']);
}

/// The key of the display whose EDID hash is the device path of `pnp` names it
/// alone among displays whose EDID hashes are device paths with other PnP ids.
proof fn lemma_device_paths_named_only(ds: Seq<DisplayDevice>, pnps: Seq<Seq<char>>, rests: Seq<Seq<char>>, i: int)
    requires
        0 <= i < ds.len(),
        ds.len() == pnps.len(),
        ds.len() == rests.len(),
        forall|j: int| 0 <= j < ds.len() ==> plain_pnp(#[trigger] pnps[j]),
        forall|j: int| 0 <= j < ds.len() ==> edid_of(#[trigger] ds[j]) == Some(device_path(pnps[j], rests[j])),
        forall|a: int, b: int| 0 <= a < ds.len() && 0 <= b < ds.len() && a != b ==> pnps[a] != pnps[b],
    ensures
        key_names_only(ds, i),
{
    assert(plain_pnp(pnps[i]));
    assert(edid_of(ds[i]) == Some(device_path(pnps[i], rests[i])));
    lemma_edid_key_part(ds, i);
    lemma_device_path_key(pnps[i], rests[i]);
    let part = display_key(ds[i].display_id@).skip(5);
    assert(edid_matches(edid_of(ds[i])->0, part));
    assert forall|j: int|
        0 <= j < ds.len() && j != i && (#[trigger] edid_of(ds[j])) is Some implies !edid_matches(edid_of(ds[j])->0, part) by {
        assert(plain_pnp(pnps[j]));
        let ej = device_path(pnps[j], rests[j]);
        lemma_device_path_key(pnps[j], rests[j]);
        assert(ej[0] == '\\' && ej[1] == '\\');
        assert(part[0] == '_');
        assert(ej != part);
        assert(ej != normalize_profile_edid(part));
        assert(pnp_id(part) != pnp_id(ej));
    }
}

/// A profile saved under the keys of connected monitors whose EDID hashes are
/// device paths (`\\?\DISPLAY#`, the PnP id, `#`, the rest) with distinct PnP
/// ids is restored under its own keys: every assignment is kept, in order,
/// under its key, naming the monitor whose key it is.
pub proof fn law_restore_device_path_profile(entries: Seq<(String, DisplayAssignment)>, ds: Seq<DisplayDevice>, pnps: Seq<Seq<char>>, rests: Seq<Seq<char>>)
    requires
        ds.len() == pnps.len(),
        ds.len() == rests.len(),
        forall|j: int| 0 <= j < ds.len() ==> plain_pnp(#[trigger] pnps[j]),
        forall|j: int| 0 <= j < ds.len() ==> edid_of(#[trigger] ds[j]) == Some(device_path(pnps[j], rests[j])),
        forall|a: int, b: int| 0 <= a < ds.len() && 0 <= b < ds.len() && a != b ==> pnps[a] != pnps[b],
        distinct_keys(keys_of(entries_view(entries))),
        forall|m: int| #![trigger entries[m]]
            0 <= m < entries.len() ==> exists|i: int| 0 <= i < ds.len() && #[trigger] keyed_by(entries[m], ds[i]),
    ensures
        remap_prefix(entries, ds, entries.len() as int).len() == entries.len(),
        forall|m: int, i: int|
            0 <= m < entries.len() && 0 <= i < ds.len() && #[trigger] keyed_by(entries[m], ds[i])
                ==> remap_prefix(entries, ds, entries.len() as int)[m] == restored_entry(entries[m], ds[i]),
{
    assert forall|i: int| 0 <= i < ds.len() implies key_names_only(ds, i) by {
        lemma_device_paths_named_only(ds, pnps, rests, i);
    }
    assert forall|m: int| 0 <= m < entries.len() implies #[trigger] keyed_by_named_display(entries[m], ds) by {
        let i = choose|i: int| 0 <= i < ds.len() && #[trigger] keyed_by(entries[m], ds[i]);
        lemma_device_paths_named_only(ds, pnps, rests, i);
        assert(key_names_only(ds, i) && keyed_by(entries[m], ds[i]));
    }
    law_restore_saved_profile(entries, ds);
}

proof fn lemma_assigned_only(ds: Seq<DisplayDevice>, i: int, k: int)
    requires
        0 <= k <= i < ds.len(),
        key_names_only(ds, i),
        forall|j: int| 0 <= j < ds.len() ==> (#[trigger] edid_of(ds[j])) is Some,
    ensures
        assigned_display_from(ds, ds[i].display_id@, k) == Some(i),
    decreases i - k,
{
    if k < i {
        let part = display_key(ds[i].display_id@).skip(5);
        assert(edid_of(ds[k]) is Some);
        assert(!edid_matches(edid_of(ds[k])->0, part));
        assert(edid_of(ds[k]) != edid_of(ds[i]));
        assert(!same_display_by_assignment(ds[k].display_id@, ds[i].display_id@));
        lemma_assigned_only(ds, i, k + 1);
    } else {
        assert(same_display_by_assignment(ds[i].display_id@, ds[i].display_id@));
    }
}

proof fn lemma_first_source_path_some(paths: Seq<PathInfo>, modes: Seq<ModeInfo>, i: int, k: int)
    requires
        0 <= i <= k < paths.len(),
        has_source_mode(paths, modes, k),
    ensures
        first_source_path_from(paths, modes, i) matches Some(j) && i <= j <= k && has_source_mode(paths, modes, j),
    decreases k - i,
{
    if !has_source_mode(paths, modes, i) {
        lemma_first_source_path_some(paths, modes, i + 1, k);
    }
}

proof fn lemma_first_source_path_found(paths: Seq<PathInfo>, modes: Seq<ModeInfo>, i: int)
    ensures
        first_source_path_from(paths, modes, i) matches Some(j) ==> 0 <= j < paths.len() && has_source_mode(paths, modes, j),
    decreases paths.len() - i,
{
    if 0 <= i < paths.len() && !has_source_mode(paths, modes, i) {
        lemma_first_source_path_found(paths, modes, i + 1);
    }
}

/// Once a topology is normalized, a display in use with a valid source mode
/// (if there is any) sits at the desktop origin: there is a primary.
pub proof fn law_normalize_keeps_primary(paths: Seq<PathInfo>, modes: Seq<ModeInfo>, k: int)
    requires
        0 <= k < paths.len(),
        has_source_mode(paths, modes, k),
    ensures
        primary_exists(paths, normalized_modes(paths, modes)),
{
    if !primary_exists(paths, modes) {
        lemma_first_source_path_some(paths, modes, 0, k);
        let j = first_source_path_from(paths, modes, 0)->0;
        let idx = paths[j].source_mode_idx as int;
        let nm = normalized_modes(paths, modes);
        assert(nm[idx].x == 0 && nm[idx].y == 0);
        assert(has_source_mode(paths, nm, j));
    }
}

/// Normalizing a normalized topology changes nothing.
pub proof fn law_normalize_idempotent(paths: Seq<PathInfo>, modes: Seq<ModeInfo>)
    ensures
        normalized_modes(paths, normalized_modes(paths, modes)) == normalized_modes(paths, modes),
{
    let nm = normalized_modes(paths, modes);
    if !primary_exists(paths, modes) {
        lemma_first_source_path_found(paths, modes, 0);
        if let Some(j) = first_source_path_from(paths, modes, 0) {
            law_normalize_keeps_primary(paths, modes, j);
        }
    }
}

/// Making a display primary puts its path first and its source mode (where it
/// has one) at the desktop origin, and keeps the distances between all source modes.
pub proof fn law_primary_at_origin(paths: Seq<PathInfo>, modes: Seq<ModeInfo>, names: Seq<Option<String>>, target: Seq<char>, k: int)
    requires
        first_named_path(names, paths.len() as int, target) == Some(k),
        0 <= k < paths.len(),
        has_source_mode(paths, modes, k),
        ({
            let (tx, ty) = source_position(paths, modes, k);
            shift_fits(modes, tx, ty)
        }),
    ensures
        primary_plan(paths, modes, names, target) matches Ok((np, nm)) && {
            let idx = paths[k].source_mode_idx as int;
            &&& np[0] == paths[k]
            &&& nm[idx].x == 0
            &&& nm[idx].y == 0
            &&& forall|i: int, j: int|
                0 <= i < modes.len() && 0 <= j < modes.len() && modes[i].info_type == MODE_TYPE_SOURCE
                    && modes[j].info_type == MODE_TYPE_SOURCE ==> #[trigger] nm[i].x - #[trigger] nm[j].x
                    == modes[i].x - modes[j].x && nm[i].y - nm[j].y == modes[i].y - modes[j].y
        },
{
    let (tx, ty) = source_position(paths, modes, k);
    let np = moved_to_front(paths, k);
    let sm = shifted_modes(modes, -tx, -ty);
    let idx = paths[k].source_mode_idx as int;
    assert(np[0] == paths[k]);
    assert(sm[idx].x == 0 && sm[idx].y == 0);
    assert(has_source_mode(np, sm, 0));
    assert(primary_exists(np, sm));
    assert(normalized_modes(np, sm) == sm);
}

/// The rotation code an orientation is applied with reads back as that orientation.
pub proof fn law_orientation_rotation_roundtrip(o: DisplayOrientation)
    ensures
        orientation_of_rotation(rotation_code(o)) == o,
{
}

/// Enabling a monitor puts its path in use with a source mode index that is valid.
pub proof fn law_enable_activates(paths: Seq<PathInfo>, modes: Seq<ModeInfo>, names: Seq<Option<String>>, device: Seq<char>, saved: Option<TopologyView>, k: int)
    requires
        first_named_path(names, paths.len() as int, device) == Some(k),
        0 <= k < paths.len(),
        modes.len() < u32::MAX,
    ensures
        enable_plan(paths, modes, names, device, saved) matches Ok((np, nm)) && is_active(np[k])
            && (np[k].source_mode_idx as int) < nm.len(),
{
    let f = paths[k].flags;
    assert((f | 1u32) & 1u32 != 0) by (bit_vector);
    let p = paths[k];
    lemma_source_mode_range(modes, p.source_adapter_high, p.source_adapter_low, p.source_id, 0);
    let on = PathInfo { flags: p.flags | PATH_ACTIVE_FLAG, ..p };
    if p.source_mode_idx == MODE_IDX_INVALID || p.source_mode_idx as int >= modes.len() {
        match source_mode_from(modes, p.source_adapter_high, p.source_adapter_low, p.source_id, 0) {
            Some(m) => {
                let np = paths.update(k, PathInfo { source_mode_idx: m as u32, ..on });
                lemma_normalized_len(np, modes);
            },
            None => match saved_source_mode(saved, p) {
                Some(sm) => {
                    let np = paths.update(k, PathInfo { source_mode_idx: modes.len() as u32, ..on });
                    lemma_normalized_len(np, modes.push(sm));
                },
                None => {
                    let np = paths.update(k, PathInfo { source_mode_idx: modes.len() as u32, ..on });
                    lemma_normalized_len(np, modes.push(created_mode(p, reference_resolution(paths, modes))));
                },
            },
        }
    } else {
        lemma_normalized_len(paths.update(k, on), modes);
    }
}

proof fn lemma_source_mode_range(modes: Seq<ModeInfo>, high: i32, low: u32, id: u32, i: int)
    ensures
        source_mode_from(modes, high, low, id, i) matches Some(j) ==> 0 <= j < modes.len(),
    decreases modes.len() - i,
{
    if 0 <= i < modes.len() {
        lemma_source_mode_range(modes, high, low, id, i + 1);
    }
}

proof fn lemma_normalized_len(paths: Seq<PathInfo>, modes: Seq<ModeInfo>)
    ensures
        normalized_modes(paths, modes).len() == modes.len(),
{
    lemma_first_source_path_found(paths, modes, 0);
}

/// Disabling a monitor takes its path out of use and leaves every other path as it was.
pub proof fn law_disable_deactivates(paths: Seq<PathInfo>, modes: Seq<ModeInfo>, names: Seq<Option<String>>, device: Seq<char>, k: int)
    requires
        first_named_path(names, paths.len() as int, device) == Some(k),
        0 <= k < paths.len(),
    ensures
        disable_plan(paths, modes, names, device) matches Ok((np, nm)) ==> !is_active(np[k])
            && forall|j: int| 0 <= j < paths.len() && j != k ==> np[j] == paths[j],
{
    let f = paths[k].flags;
    assert((f & !1u32) & 1u32 == 0) by (bit_vector);
}

/// A rollback after a rollback point is kept gives that layout back and keeps
/// nothing more to roll back to; after a confirmation there is nothing to roll back.
pub proof fn law_rollback_after_save(s: LayoutStateView, t: TopologyView)
    ensures
        rollback_outcome(state_after_save(s, t)).0 == Some(t),
        rollback_outcome(state_after_save(s, t)).1 == state_after_confirm(s),
        rollback_outcome(state_after_confirm(s)).0 is None,
        rollback_outcome(state_after_disable(s, t)).0 == Some(t),
{
}


/// A saved orientation name reads back as the orientation it was saved from.
pub proof fn law_orientation_name_roundtrip(o: DisplayOrientation)
    ensures
        parse_orientation(orientation_name(o)) == o,
{
    reveal_strlit("Landscape");
    reveal_strlit("Portrait");
    reveal_strlit("LandscapeFlipped");
    reveal_strlit("PortraitFlipped");
    reveal_strlit("portrait");
    reveal_strlit("landscapeflipped");
    reveal_strlit("portraitflipped");
    match o {
        DisplayOrientation::Landscape => {
            assert("Landscape"@ != "Portrait"@) by {
                assert("Landscape"@[0] != "Portrait"@[0]);
            }
            assert("Landscape"@ != "portrait"@) by {
                assert("Landscape"@[0] != "portrait"@[0]);
            }
            assert("Landscape"@ != "LandscapeFlipped"@) by {
                assert("Landscape"@.len() != "LandscapeFlipped"@.len());
            }
            assert("Landscape"@ != "landscapeflipped"@) by {
                assert("Landscape"@[0] != "landscapeflipped"@[0]);
            }
            assert("Landscape"@ != "PortraitFlipped"@) by {
                assert("Landscape"@[0] != "PortraitFlipped"@[0]);
            }
            assert("Landscape"@ != "portraitflipped"@) by {
                assert("Landscape"@[0] != "portraitflipped"@[0]);
            }
        },
        DisplayOrientation::Portrait => {},
        DisplayOrientation::LandscapeFlipped => {
            assert("LandscapeFlipped"@ != "Portrait"@) by {
                assert("LandscapeFlipped"@[0] != "Portrait"@[0]);
            }
            assert("LandscapeFlipped"@ != "portrait"@) by {
                assert("LandscapeFlipped"@[0] != "portrait"@[0]);
            }
        },
        DisplayOrientation::PortraitFlipped => {
            assert("PortraitFlipped"@ != "Portrait"@) by {
                assert("PortraitFlipped"@.len() != "Portrait"@.len());
            }
            assert("PortraitFlipped"@ != "portrait"@) by {
                assert("PortraitFlipped"@[0] != "portrait"@[0]);
            }
            assert("PortraitFlipped"@ != "LandscapeFlipped"@) by {
                assert("PortraitFlipped"@[0] != "LandscapeFlipped"@[0]);
            }
            assert("PortraitFlipped"@ != "landscapeflipped"@) by {
                assert("PortraitFlipped"@[0] != "landscapeflipped"@[0]);
            }
        },
    }
}

proof fn lemma_lookup_pos(uv: Seq<(Seq<char>, UserProfileView)>, n: Seq<char>, i: int)
    ensures
        lookup_from(uv, n, i) == (match first_user_pos(uv, n, i) {
            Some(j) => Some(uv[j].1),
            None => None,
        }),
        first_user_pos(uv, n, i) matches Some(j) ==> 0 <= i <= j < uv.len() && uv[j].0 == n
            && forall|k: int| i <= k < j ==> (#[trigger] uv[k]).0 != n,
        first_user_pos(uv, n, i) is None ==> forall|k: int| 0 <= i <= k < uv.len() ==> (#[trigger] uv[k]).0 != n,
    decreases uv.len() - i,
{
    if 0 <= i < uv.len() && uv[i].0 != n {
        lemma_lookup_pos(uv, n, i + 1);
    }
    if i < 0 {
        // nothing is searched before the start
    }
}

proof fn lemma_first_pos_at(uv: Seq<(Seq<char>, UserProfileView)>, n: Seq<char>, i: int, j: int)
    requires
        0 <= i <= j < uv.len(),
        uv[j].0 == n,
        forall|k: int| i <= k < j ==> (#[trigger] uv[k]).0 != n,
    ensures
        first_user_pos(uv, n, i) == Some(j),
    decreases j - i,
{
    if i < j {
        lemma_first_pos_at(uv, n, i + 1, j);
    }
}

proof fn lemma_first_pos_none(uv: Seq<(Seq<char>, UserProfileView)>, n: Seq<char>, i: int)
    requires
        0 <= i,
        forall|k: int| i <= k < uv.len() ==> (#[trigger] uv[k]).0 != n,
    ensures
        first_user_pos(uv, n, i) is None,
    decreases uv.len() - i,
{
    if i < uv.len() {
        lemma_first_pos_none(uv, n, i + 1);
    }
}

/// The profile of a user in a list whose names match those of another, entry by entry.
proof fn lemma_lookup_same_keys(a: Seq<(Seq<char>, UserProfileView)>, b: Seq<(Seq<char>, UserProfileView)>, n: Seq<char>)
    requires
        a.len() == b.len(),
        forall|k: int| 0 <= k < a.len() ==> (#[trigger] a[k]).0 == b[k].0,
        forall|k: int| 0 <= k < a.len() && a[k].0 == n ==> (#[trigger] a[k]).1 == b[k].1,
    ensures
        lookup_profile(a, n) == lookup_profile(b, n),
{
    lemma_lookup_pos(a, n, 0);
    lemma_lookup_pos(b, n, 0);
    match first_user_pos(a, n, 0) {
        Some(j) => {
            assert forall|k: int| 0 <= k < j implies (#[trigger] b[k]).0 != n by {
                assert(a[k].0 == b[k].0);
            }
            lemma_first_pos_at(b, n, 0, j);
        },
        None => {
            assert forall|k: int| 0 <= k < b.len() implies (#[trigger] b[k]).0 != n by {
                assert(a[k].0 == b[k].0);
            }
            lemma_first_pos_none(b, n, 0);
        },
    }
}

/// Saving a profile for a user makes it the profile that is read back for
/// that user, and leaves every other user's profile as it was.
pub proof fn law_save_then_lookup(uv: Seq<(Seq<char>, UserProfileView)>, name: Seq<char>, assignments: Seq<(Seq<char>, DisplayAssignmentView)>, layout: Seq<DisplayAssignmentView>, other: Seq<char>)
    requires
        other != name,
    ensures
        lookup_profile(users_after_save(uv, name, assignments, layout), name)
            == Some(saved_profile(lookup_profile(uv, name), assignments, layout)),
        lookup_profile(users_after_save(uv, name, assignments, layout), other) == lookup_profile(uv, other),
        distinct_users(uv) ==> distinct_users(users_after_save(uv, name, assignments, layout)),
{
    let nv = users_after_save(uv, name, assignments, layout);
    lemma_lookup_pos(uv, name, 0);
    match first_user_pos(uv, name, 0) {
        Some(i) => {
            assert forall|k: int| 0 <= k < i implies (#[trigger] nv[k]).0 != name by {
                assert(nv[k] == uv[k]);
            }
            lemma_first_pos_at(nv, name, 0, i);
            lemma_lookup_pos(nv, name, 0);
            lemma_lookup_same_keys(nv, uv, other);
        },
        None => {
            let last = uv.len() as int;
            assert forall|k: int| 0 <= k < last implies (#[trigger] nv[k]).0 != name by {
                assert(nv[k] == uv[k]);
            }
            lemma_first_pos_at(nv, name, 0, last);
            lemma_lookup_pos(nv, name, 0);
            lemma_lookup_pos(uv, other, 0);
            lemma_lookup_pos(nv, other, 0);
            match first_user_pos(uv, other, 0) {
                Some(j) => {
                    assert forall|k: int| 0 <= k < j implies (#[trigger] nv[k]).0 != other by {
                        assert(nv[k] == uv[k]);
                    }
                    lemma_first_pos_at(nv, other, 0, j);
                },
                None => {
                    assert forall|k: int| 0 <= k < nv.len() implies (#[trigger] nv[k]).0 != other by {
                        if k < last {
                            assert(nv[k] == uv[k]);
                        }
                    }
                    lemma_first_pos_none(nv, other, 0);
                },
            }
            if distinct_users(uv) {
                assert forall|a: int, b: int| 0 <= a < nv.len() && 0 <= b < nv.len() && a != b implies nv[a].0 != nv[b].0 by {
                    if a < last && b < last {
                        assert(nv[a] == uv[a] && nv[b] == uv[b]);
                    } else if a < last {
                        assert(nv[a] == uv[a]);
                    } else {
                        assert(nv[b] == uv[b]);
                    }
                }
            }
        },
    }
}

/// Deleting the profile of a user leaves no profile for that user, and every
/// other user's profile as it was.
pub proof fn law_delete_then_lookup(uv: Seq<(Seq<char>, UserProfileView)>, name: Seq<char>, other: Seq<char>)
    requires
        distinct_users(uv),
        other != name,
    ensures
        lookup_profile(users_after_delete(uv, name), name) is None,
        lookup_profile(users_after_delete(uv, name), other) == lookup_profile(uv, other),
        distinct_users(users_after_delete(uv, name)),
{
    let nv = users_after_delete(uv, name);
    lemma_lookup_pos(uv, name, 0);
    lemma_lookup_pos(uv, other, 0);
    match first_user_pos(uv, name, 0) {
        Some(i) => {
            assert forall|k: int| 0 <= k < nv.len() implies (#[trigger] nv[k]).0 != name by {
                if k < i {
                    assert(nv[k] == uv[k]);
                } else {
                    assert(nv[k] == uv[k + 1]);
                }
            }
            lemma_first_pos_none(nv, name, 0);
            lemma_lookup_pos(nv, name, 0);
            lemma_lookup_pos(nv, other, 0);
            match first_user_pos(uv, other, 0) {
                Some(j) => {
                    let j2 = if j < i { j } else { j - 1 };
                    assert(j != i);
                    assert(nv[j2] == uv[j]);
                    assert forall|k: int| 0 <= k < j2 implies (#[trigger] nv[k]).0 != other by {
                        if k < i {
                            assert(nv[k] == uv[k]);
                        } else {
                            assert(nv[k] == uv[k + 1]);
                        }
                    }
                    lemma_first_pos_at(nv, other, 0, j2);
                },
                None => {
                    assert forall|k: int| 0 <= k < nv.len() implies (#[trigger] nv[k]).0 != other by {
                        if k < i {
                            assert(nv[k] == uv[k]);
                        } else {
                            assert(nv[k] == uv[k + 1]);
                        }
                    }
                    lemma_first_pos_none(nv, other, 0);
                },
            }
            assert forall|a: int, b: int| 0 <= a < nv.len() && 0 <= b < nv.len() && a != b implies nv[a].0 != nv[b].0 by {
                let a2 = if a < i { a } else { a + 1 };
                let b2 = if b < i { b } else { b + 1 };
                assert(nv[a] == uv[a2] && nv[b] == uv[b2]);
            }
        },
        None => {
            lemma_lookup_pos(nv, name, 0);
        },
    }
}


/// Telling displays apart when a profile is applied is reflexive and symmetric.
pub proof fn law_assignment_match_symmetric(a: DisplayIdView, b: DisplayIdView)
    ensures
        same_display_by_assignment(a, a),
        same_display_by_assignment(a, b) == same_display_by_assignment(b, a),
{
}

proof fn lemma_known_to_add(devs: Seq<DisplayDeviceView>, known: Seq<KnownMonitorView>, n: int)
    requires
        0 <= n <= known.len(),
    ensures
        forall|j: int| 0 <= j < n && !has_device_named(devs, known[j].device_name) ==> has_device_named(
            known_to_add(devs, known, n),
            #[trigger] known[j].device_name,
        ),
    decreases n,
{
    if n > 0 {
        lemma_known_to_add(devs, known, n - 1);
        let prev = known_to_add(devs, known, n - 1);
        let cur = known_to_add(devs, known, n);
        assert forall|j: int| 0 <= j < n && !has_device_named(devs, known[j].device_name) implies has_device_named(
            cur,
            #[trigger] known[j].device_name,
        ) by {
            if j < n - 1 {
                let i = choose|i: int| 0 <= i < prev.len() && (#[trigger] prev[i]).device_name == known[j].device_name;
                assert(cur[i] == prev[i]);
            } else {
                assert(cur[prev.len() as int].device_name == known[j].device_name);
            }
        }
    }
}

proof fn lemma_newly_known(known: Seq<KnownMonitorView>, devs: Seq<DisplayDeviceView>, n: int)
    requires
        0 <= n <= devs.len(),
    ensures
        forall|j: int| 0 <= j < n && !is_known(known, devs[j].device_name) ==> is_known(
            newly_known(known, devs, n),
            #[trigger] devs[j].device_name,
        ),
    decreases n,
{
    if n > 0 {
        lemma_newly_known(known, devs, n - 1);
        let prev = newly_known(known, devs, n - 1);
        let cur = newly_known(known, devs, n);
        assert forall|j: int| 0 <= j < n && !is_known(known, devs[j].device_name) implies is_known(
            cur,
            #[trigger] devs[j].device_name,
        ) by {
            if j < n - 1 {
                let i = choose|i: int| 0 <= i < prev.len() && (#[trigger] prev[i]).device_name == devs[j].device_name;
                assert(cur[i] == prev[i]);
            } else {
                assert(cur[prev.len() as int].device_name == devs[j].device_name);
            }
        }
    }
}

/// No display is forgotten: every known monitor stays listed (detected or
/// not), and every listed display is known afterwards.
pub proof fn law_known_monitors_kept(devs: Seq<DisplayDeviceView>, known: Seq<KnownMonitorView>)
    ensures
        forall|j: int| 0 <= j < known.len() ==> has_device_named(merged_devices(devs, known), #[trigger] known[j].device_name),
        forall|j: int| 0 <= j < merged_devices(devs, known).len() ==> is_known(
            merged_known(devs, known),
            #[trigger] merged_devices(devs, known)[j].device_name,
        ),
{
    let all = merged_devices(devs, known);
    let added = known_to_add(devs, known, known.len() as int);
    lemma_known_to_add(devs, known, known.len() as int);
    assert forall|j: int| 0 <= j < known.len() implies has_device_named(all, #[trigger] known[j].device_name) by {
        if has_device_named(devs, known[j].device_name) {
            let i = choose|i: int| 0 <= i < devs.len() && (#[trigger] devs[i]).device_name == known[j].device_name;
            assert(all[i] == devs[i]);
        } else {
            assert(has_device_named(added, known[j].device_name));
            let i = choose|i: int| 0 <= i < added.len() && (#[trigger] added[i]).device_name == known[j].device_name;
            assert(all[devs.len() + i] == added[i]);
        }
    }
    let nk = newly_known(known, all, all.len() as int);
    let mk = merged_known(devs, known);
    lemma_newly_known(known, all, all.len() as int);
    assert forall|j: int| 0 <= j < all.len() implies is_known(mk, #[trigger] all[j].device_name) by {
        if is_known(known, all[j].device_name) {
            let i = choose|i: int| 0 <= i < known.len() && (#[trigger] known[i]).device_name == all[j].device_name;
            assert(mk[i] == known[i]);
        } else {
            assert(is_known(nk, all[j].device_name));
            let i = choose|i: int| 0 <= i < nk.len() && (#[trigger] nk[i]).device_name == all[j].device_name;
            assert(mk[known.len() + i] == nk[i]);
        }
    }
}

} // verus!
