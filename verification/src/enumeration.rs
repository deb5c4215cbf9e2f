//! Building the list of displays from what a scan of the system reports, and
//! keeping the displays seen before (known monitors) in that list.

use vstd::prelude::*;
use crate::text::{chars_of};
use crate::types::{
    DisplayMode, DisplayOrientation, DisplayDevice, DisplayDeviceView, DisplayId, DisplayIdView,
    opt_view, copy_opt_string, luid_from_parts, adapter_luid_from_parts, orientation_of_rotation,
    orientation_from_rotation, copy_modes, devices_view,
};
use crate::topology::{
    Topology, PathInfo, ModeInfo, first_named_path, find_named_path, is_active, path_is_active,
    MODE_TYPE_SOURCE,
};

verus! {

/// Whether two modes agree in resolution and refresh rate.
pub open spec fn same_key(a: DisplayMode, b: DisplayMode) -> bool {
    a.width == b.width && a.height == b.height && a.refresh_rate == b.refresh_rate
}

/// Whether `a` comes before `b` in the mode list: wider first, then taller,
/// then faster.
pub open spec fn mode_before(a: DisplayMode, b: DisplayMode) -> bool {
    ||| a.width > b.width
    ||| (a.width == b.width && a.height > b.height)
    ||| (a.width == b.width && a.height == b.height && a.refresh_rate > b.refresh_rate)
}

/// Whether a mode list is strictly in order.
pub open spec fn modes_sorted(s: Seq<DisplayMode>) -> bool {
    forall|i: int, j: int| 0 <= i < j < s.len() ==> mode_before(#[trigger] s[i], #[trigger] s[j])
}

/// Whether no two modes in a list agree in resolution and refresh rate.
pub open spec fn distinct_mode_keys(s: Seq<DisplayMode>) -> bool {
    forall|i: int, j: int| 0 <= i < s.len() && 0 <= j < s.len() && i != j ==> !same_key(#[trigger] s[i], #[trigger] s[j])
}

/// Whether `a` comes before `b` in the mode list.
fn mode_before_exec(a: &DisplayMode, b: &DisplayMode) -> (r: bool)
    ensures
        r == mode_before(*a, *b),
{
    a.width > b.width || (a.width == b.width && a.height > b.height) || (a.width == b.width
        && a.height == b.height && a.refresh_rate > b.refresh_rate)
}

/// Sorts modes wider first, then taller, then faster, as
/// `sort_by(|a, b| b.width.cmp(&a.width).then(..))` does for modes that differ
/// in resolution or refresh rate.
pub fn sort_modes(v: &Vec<DisplayMode>) -> (r: Vec<DisplayMode>)
    requires
        distinct_mode_keys(v@),
    ensures
        r@.len() == v@.len(),
        modes_sorted(r@),
        forall|m: DisplayMode| r@.contains(m) <==> v@.contains(m),
{
    let mut out: Vec<DisplayMode> = Vec::new();
    let mut i: usize = 0;
    while i < v.len()
        invariant
            i <= v.len(),
            distinct_mode_keys(v@),
            out@.len() == i,
            modes_sorted(out@),
            forall|m: DisplayMode| out@.contains(m) <==> v@.subrange(0, i as int).contains(m),
        decreases v.len() - i,
    {
        let x = v[i];
        assert forall|j: int| 0 <= j < out@.len() implies !same_key(out@[j], x) by {
            assert(out@.contains(out@[j]));
            assert(v@.subrange(0, i as int).contains(out@[j]));
            let q = choose|q: int| 0 <= q < i && #[trigger] v@.subrange(0, i as int)[q] == out@[j];
            assert(v@[q] == out@[j]);
        }
        let mut p: usize = 0;
        while p < out.len() && mode_before_exec(&out[p], &x)
            invariant
                p <= out@.len(),
                forall|j: int| 0 <= j < p ==> mode_before(#[trigger] out@[j], x),
            decreases out.len() - p,
        {
            p = p + 1;
        }
        let ghost old_out = out@;
        out.insert(p, x);
        assert(out@ == old_out.subrange(0, p as int).push(x) + old_out.subrange(p as int, old_out.len() as int));
        assert forall|a: int, b: int| 0 <= a < b < out@.len() implies mode_before(#[trigger] out@[a], #[trigger] out@[b]) by {
            if b < p {
                assert(out@[a] == old_out[a] && out@[b] == old_out[b]);
            } else if b == p {
                assert(out@[a] == old_out[a]);
            } else if a == p {
                assert(out@[b] == old_out[b - 1]);
                if p < old_out.len() {
                    assert(!mode_before(old_out[p as int], x));
                    assert(!same_key(old_out[p as int], x));
                    if b - 1 > p {
                        assert(mode_before(old_out[p as int], old_out[b - 1]));
                    }
                }
            } else if a < p {
                assert(out@[a] == old_out[a] && out@[b] == old_out[b - 1]);
            } else {
                assert(out@[a] == old_out[a - 1] && out@[b] == old_out[b - 1]);
            }
        }
        assert forall|m: DisplayMode| out@.contains(m) <==> v@.subrange(0, i + 1).contains(m) by {
            let pre = v@.subrange(0, i as int);
            let post = v@.subrange(0, i + 1);
            assert(post == pre.push(x));
            if out@.contains(m) {
                let q = choose|q: int| 0 <= q < out@.len() && #[trigger] out@[q] == m;
                if q == p {
                    assert(post[i as int] == m);
                } else {
                    if q < p {
                        assert(old_out[q] == m);
                    } else {
                        assert(old_out[q - 1] == m);
                    }
                    assert(old_out.contains(m));
                    assert(pre.contains(m));
                    let q2 = choose|q2: int| 0 <= q2 < pre.len() && #[trigger] pre[q2] == m;
                    assert(post[q2] == m);
                }
            }
            if post.contains(m) {
                if m != x {
                    let q = choose|q: int| 0 <= q < post.len() && #[trigger] post[q] == m;
                    assert(q < i);
                    assert(pre[q] == m);
                    assert(pre.contains(m));
                    assert(old_out.contains(m));
                    let q3 = choose|q3: int| 0 <= q3 < old_out.len() && #[trigger] old_out[q3] == m;
                    if q3 < p {
                        assert(out@[q3] == m);
                    } else {
                        assert(out@[q3 + 1] == m);
                    }
                } else {
                    assert(out@[p as int] == m);
                }
            }
        }
        i = i + 1;
    }
    assert(v@.subrange(0, v.len() as int) == v@);
    out
}


/// Whether `a` comes before `b` in the mode list, and not the other way round.
proof fn lemma_mode_before_asym(a: DisplayMode, b: DisplayMode)
    ensures
        !(mode_before(a, b) && mode_before(b, a)),
        !mode_before(a, a),
{
}

/// Two strictly ordered mode lists that hold the same modes are equal.
pub proof fn lemma_sorted_unique(a: Seq<DisplayMode>, b: Seq<DisplayMode>)
    requires
        modes_sorted(a),
        modes_sorted(b),
        forall|m: DisplayMode| a.contains(m) <==> b.contains(m),
    ensures
        a == b,
    decreases a.len(),
{
    if a.len() == 0 {
        if b.len() > 0 {
            assert(b.contains(b[0]));
        }
    } else {
        assert(a.contains(a[0]));
        assert(b.len() > 0);
        assert(b.contains(b[0]));
        let j = choose|j: int| 0 <= j < b.len() && b[j] == a[0];
        let i = choose|i: int| 0 <= i < a.len() && a[i] == b[0];
        if j > 0 {
            assert(mode_before(b[0], b[j]));
            if i > 0 {
                assert(mode_before(a[0], a[i]));
            }
            lemma_mode_before_asym(a[0], b[0]);
        }
        assert(a[0] == b[0]);
        let a1 = a.drop_first();
        let b1 = b.drop_first();
        assert forall|m: DisplayMode| a1.contains(m) <==> b1.contains(m) by {
            if a1.contains(m) {
                let q = choose|q: int| 0 <= q < a1.len() && a1[q] == m;
                assert(a[q + 1] == m);
                assert(mode_before(a[0], a[q + 1]));
                lemma_mode_before_asym(a[0], m);
                assert(a.contains(m));
                assert(b.contains(m));
                let r = choose|r: int| 0 <= r < b.len() && b[r] == m;
                assert(r != 0);
                assert(b1[r - 1] == m);
            }
            if b1.contains(m) {
                let q = choose|q: int| 0 <= q < b1.len() && b1[q] == m;
                assert(b[q + 1] == m);
                assert(mode_before(b[0], b[q + 1]));
                lemma_mode_before_asym(b[0], m);
                assert(b.contains(m));
                assert(a.contains(m));
                let r = choose|r: int| 0 <= r < a.len() && a[r] == m;
                assert(r != 0);
                assert(a1[r - 1] == m);
            }
        }
        assert forall|x: int, y: int| 0 <= x < y < a1.len() implies mode_before(#[trigger] a1[x], #[trigger] a1[y]) by {
            assert(a1[x] == a[x + 1] && a1[y] == a[y + 1]);
        }
        assert forall|x: int, y: int| 0 <= x < y < b1.len() implies mode_before(#[trigger] b1[x], #[trigger] b1[y]) by {
            assert(b1[x] == b[x + 1] && b1[y] == b[y + 1]);
        }
        lemma_sorted_unique(a1, b1);
        assert(a == seq![a[0]] + a1);
        assert(b == seq![b[0]] + b1);
    }
}

/// The modes of `s` in list order (wider first, then taller, then faster).
pub open spec fn sorted_modes(s: Seq<DisplayMode>) -> Seq<DisplayMode> {
    choose|r: Seq<DisplayMode>| r.len() == s.len() && modes_sorted(r) && forall|m: DisplayMode| r.contains(m) <==> s.contains(m)
}

/// Whether `r` holds the modes of `t` in list order.
pub open spec fn sorts(r: Seq<DisplayMode>, t: Seq<DisplayMode>) -> bool {
    &&& r.len() == t.len()
    &&& modes_sorted(r)
    &&& forall|m: DisplayMode| r.contains(m) <==> t.contains(m)
}

/// The first position at or after `p` whose mode does not come before `x`.
spec fn insert_position(r: Seq<DisplayMode>, x: DisplayMode, p: int) -> int
    decreases r.len() - p,
{
    if p < 0 || p >= r.len() || !mode_before(r[p], x) {
        p
    } else {
        insert_position(r, x, p + 1)
    }
}

proof fn lemma_insert_position(r: Seq<DisplayMode>, x: DisplayMode, p: int)
    requires
        0 <= p <= r.len(),
        forall|j: int| 0 <= j < p ==> mode_before(#[trigger] r[j], x),
    ensures
        p <= insert_position(r, x, p) <= r.len(),
        forall|j: int| 0 <= j < insert_position(r, x, p) ==> mode_before(#[trigger] r[j], x),
        insert_position(r, x, p) < r.len() ==> !mode_before(r[insert_position(r, x, p)], x),
    decreases r.len() - p,
{
    if p < r.len() && mode_before(r[p], x) {
        lemma_insert_position(r, x, p + 1);
    }
}

proof fn lemma_sorted_prefix(s: Seq<DisplayMode>, n: int)
    requires
        0 <= n <= s.len(),
        distinct_mode_keys(s),
    ensures
        exists|r: Seq<DisplayMode>| #[trigger] sorts(r, s.subrange(0, n)),
    decreases n,
{
    if n == 0 {
        assert(sorts(seq![], s.subrange(0, 0)));
    } else {
        lemma_sorted_prefix(s, n - 1);
        let pre = s.subrange(0, n - 1);
        let post = s.subrange(0, n);
        let old_out = choose|r: Seq<DisplayMode>| #[trigger] sorts(r, pre);
        let x = s[n - 1];
        assert(post == pre.push(x));
        assert forall|j: int| 0 <= j < old_out.len() implies !same_key(old_out[j], x) by {
            assert(old_out.contains(old_out[j]));
            assert(pre.contains(old_out[j]));
            let q = choose|q: int| 0 <= q < pre.len() && #[trigger] pre[q] == old_out[j];
            assert(s[q] == old_out[j]);
        }
        lemma_insert_position(old_out, x, 0);
        let p = insert_position(old_out, x, 0);
        let out = old_out.subrange(0, p).push(x) + old_out.subrange(p, old_out.len() as int);
        assert forall|a: int, b: int| 0 <= a < b < out.len() implies mode_before(#[trigger] out[a], #[trigger] out[b]) by {
            if b < p {
                assert(out[a] == old_out[a] && out[b] == old_out[b]);
            } else if b == p {
                assert(out[a] == old_out[a]);
            } else if a == p {
                assert(out[b] == old_out[b - 1]);
                if p < old_out.len() {
                    assert(!mode_before(old_out[p], x));
                    assert(!same_key(old_out[p], x));
                    if b - 1 > p {
                        assert(mode_before(old_out[p], old_out[b - 1]));
                    }
                }
            } else if a < p {
                assert(out[a] == old_out[a] && out[b] == old_out[b - 1]);
            } else {
                assert(out[a] == old_out[a - 1] && out[b] == old_out[b - 1]);
            }
        }
        assert forall|m: DisplayMode| out.contains(m) <==> post.contains(m) by {
            if out.contains(m) {
                let q = choose|q: int| 0 <= q < out.len() && #[trigger] out[q] == m;
                if q == p {
                    assert(post[n - 1] == m);
                } else {
                    if q < p {
                        assert(old_out[q] == m);
                    } else {
                        assert(old_out[q - 1] == m);
                    }
                    assert(old_out.contains(m));
                    assert(pre.contains(m));
                    let q2 = choose|q2: int| 0 <= q2 < pre.len() && #[trigger] pre[q2] == m;
                    assert(post[q2] == m);
                }
            }
            if post.contains(m) {
                if m != x {
                    let q = choose|q: int| 0 <= q < post.len() && #[trigger] post[q] == m;
                    assert(q < n - 1);
                    assert(pre[q] == m);
                    assert(pre.contains(m));
                    assert(old_out.contains(m));
                    let q3 = choose|q3: int| 0 <= q3 < old_out.len() && #[trigger] old_out[q3] == m;
                    if q3 < p {
                        assert(out[q3] == m);
                    } else {
                        assert(out[q3 + 1] == m);
                    }
                } else {
                    assert(out[p] == m);
                }
            }
        }
        assert(sorts(out, post));
    }
}

/// The list order of modes that differ in resolution or refresh rate holds
/// the same modes, as many, strictly in order.
pub proof fn lemma_sorted_modes(s: Seq<DisplayMode>)
    requires
        distinct_mode_keys(s),
    ensures
        sorted_modes(s).len() == s.len(),
        modes_sorted(sorted_modes(s)),
        forall|m: DisplayMode| sorted_modes(s).contains(m) <==> s.contains(m),
{
    lemma_sorted_prefix(s, s.len() as int);
    assert(s.subrange(0, s.len() as int) == s);
    let w = choose|r: Seq<DisplayMode>| #[trigger] sorts(r, s);
    assert(w.len() == s.len() && modes_sorted(w) && forall|m: DisplayMode| w.contains(m) <==> s.contains(m));
}

/// Sorting gives the modes in list order.
pub fn sort_display_modes(v: &Vec<DisplayMode>) -> (r: Vec<DisplayMode>)
    requires
        distinct_mode_keys(v@),
    ensures
        r@ == sorted_modes(v@),
{
    let r = sort_modes(v);
    proof {
        let c = sorted_modes(v@);
        assert(c.len() == v@.len() && modes_sorted(c) && forall|m: DisplayMode| c.contains(m) <==> v@.contains(m));
        lemma_sorted_unique(r@, c);
    }
    r
}

/// Whether a display setting is listed after the modes `prev`: a colour depth
/// of 32 bits (or unreported), a non-zero size, and a resolution and refresh
/// rate not listed yet.
pub open spec fn accepted_setting(prev: Seq<DisplayMode>, s: DisplayMode) -> bool {
    &&& (s.bits_per_pixel == 32 || s.bits_per_pixel == 0)
    &&& s.width > 0
    &&& s.height > 0
    &&& !(exists|j: int| 0 <= j < prev.len() && same_key(#[trigger] prev[j], s))
}

/// The modes listed from the first `n` display settings of an adapter.
pub open spec fn listed_modes(settings: Seq<DisplayMode>, n: int) -> Seq<DisplayMode>
    decreases n,
{
    if n <= 0 || n > settings.len() {
        seq![]
    } else {
        let prev = listed_modes(settings, n - 1);
        if accepted_setting(prev, settings[n - 1]) {
            prev.push(settings[n - 1])
        } else {
            prev
        }
    }
}

/// The 32-bit, 60 Hz mode of a source mode's resolution.
pub open spec fn fallback_mode(m: ModeInfo) -> DisplayMode {
    DisplayMode { width: m.width, height: m.height, refresh_rate: 60, bits_per_pixel: 32 }
}

/// Whether `m` is a source mode of the source of path `p`.
pub open spec fn is_source_of(m: ModeInfo, p: PathInfo) -> bool {
    &&& m.info_type == MODE_TYPE_SOURCE
    &&& m.adapter_high == p.source_adapter_high
    &&& m.adapter_low == p.source_adapter_low
    &&& m.id == p.source_id
}

/// The fallback modes from the first `n` topology modes that are source modes
/// of the source of path `p`, each once.
pub open spec fn fallback_modes(modes: Seq<ModeInfo>, p: PathInfo, n: int) -> Seq<DisplayMode>
    decreases n,
{
    if n <= 0 || n > modes.len() {
        seq![]
    } else {
        let prev = fallback_modes(modes, p, n - 1);
        if is_source_of(modes[n - 1], p) && !prev.contains(fallback_mode(modes[n - 1])) {
            prev.push(fallback_mode(modes[n - 1]))
        } else {
            prev
        }
    }
}

proof fn lemma_listed_distinct(settings: Seq<DisplayMode>, n: int)
    ensures
        distinct_mode_keys(listed_modes(settings, n)),
    decreases n,
{
    if 0 < n <= settings.len() {
        lemma_listed_distinct(settings, n - 1);
        let prev = listed_modes(settings, n - 1);
        let s = settings[n - 1];
        if accepted_setting(prev, s) {
            let r = prev.push(s);
            assert forall|i: int, j: int| 0 <= i < r.len() && 0 <= j < r.len() && i != j implies !same_key(#[trigger] r[i], #[trigger] r[j]) by {
                if i == prev.len() {
                    assert(r[j] == prev[j]);
                } else if j == prev.len() {
                    assert(r[i] == prev[i]);
                } else {
                    assert(r[i] == prev[i] && r[j] == prev[j]);
                }
            }
        }
    }
}

proof fn lemma_fallback_distinct(modes: Seq<ModeInfo>, p: PathInfo, n: int)
    ensures
        distinct_mode_keys(fallback_modes(modes, p, n)),
        forall|i: int| 0 <= i < fallback_modes(modes, p, n).len() ==> (#[trigger] fallback_modes(modes, p, n)[i]).refresh_rate == 60
            && fallback_modes(modes, p, n)[i].bits_per_pixel == 32,
    decreases n,
{
    if 0 < n <= modes.len() {
        lemma_fallback_distinct(modes, p, n - 1);
        let prev = fallback_modes(modes, p, n - 1);
        let fm = fallback_mode(modes[n - 1]);
        if is_source_of(modes[n - 1], p) && !prev.contains(fm) {
            let r = prev.push(fm);
            assert forall|i: int| 0 <= i < r.len() implies (#[trigger] r[i]).refresh_rate == 60 && r[i].bits_per_pixel == 32 by {
                if i < prev.len() {
                    assert(r[i] == prev[i]);
                }
            }
            assert forall|i: int, j: int| 0 <= i < r.len() && 0 <= j < r.len() && i != j implies !same_key(#[trigger] r[i], #[trigger] r[j]) by {
                if i == prev.len() {
                    assert(r[j] == prev[j]);
                    if same_key(r[i], r[j]) {
                        assert(prev[j] == fm);
                    }
                } else if j == prev.len() {
                    assert(r[i] == prev[i]);
                    if same_key(r[i], r[j]) {
                        assert(prev[i] == fm);
                    }
                } else {
                    assert(r[i] == prev[i] && r[j] == prev[j]);
                }
            }
        }
    }
}

/// Whether some mode of `v` agrees with `s` in resolution and refresh rate.
fn has_same_key(v: &Vec<DisplayMode>, s: &DisplayMode) -> (r: bool)
    ensures
        r == exists|j: int| 0 <= j < v@.len() && same_key(#[trigger] v@[j], *s),
{
    let mut i: usize = 0;
    while i < v.len()
        invariant
            i <= v.len(),
            forall|j: int| 0 <= j < i ==> !same_key(#[trigger] v@[j], *s),
        decreases v.len() - i,
    {
        if v[i].width == s.width && v[i].height == s.height && v[i].refresh_rate == s.refresh_rate {
            assert(same_key(v@[i as int], *s));
            return true;
        }
        i = i + 1;
    }
    false
}

/// Whether `v` holds `m`.
fn contains_mode(v: &Vec<DisplayMode>, m: &DisplayMode) -> (r: bool)
    ensures
        r == v@.contains(*m),
{
    let mut i: usize = 0;
    while i < v.len()
        invariant
            i <= v.len(),
            forall|j: int| 0 <= j < i ==> v@[j] != *m,
        decreases v.len() - i,
    {
        if v[i] == *m {
            assert(v@[i as int] == *m);
            return true;
        }
        i = i + 1;
    }
    false
}

/// The modes listed from an adapter's display settings.
pub fn list_modes(settings: &Vec<DisplayMode>) -> (r: Vec<DisplayMode>)
    ensures
        r@ == listed_modes(settings@, settings@.len() as int),
{
    let mut out: Vec<DisplayMode> = Vec::new();
    let mut n: usize = 0;
    while n < settings.len()
        invariant
            n <= settings.len(),
            out@ == listed_modes(settings@, n as int),
        decreases settings.len() - n,
    {
        let s = settings[n];
        if (s.bits_per_pixel == 32 || s.bits_per_pixel == 0) && s.width > 0 && s.height > 0 && !has_same_key(&out, &s) {
            out.push(s);
        }
        n = n + 1;
    }
    out
}

/// The fallback modes of the source of path `p`.
pub fn list_fallback_modes(modes: &Vec<ModeInfo>, p: &PathInfo) -> (r: Vec<DisplayMode>)
    ensures
        r@ == fallback_modes(modes@, *p, modes@.len() as int),
{
    let mut out: Vec<DisplayMode> = Vec::new();
    let mut n: usize = 0;
    while n < modes.len()
        invariant
            n <= modes.len(),
            out@ == fallback_modes(modes@, *p, n as int),
        decreases modes.len() - n,
    {
        let m = modes[n];
        if m.info_type == MODE_TYPE_SOURCE && m.adapter_high == p.source_adapter_high
            && m.adapter_low == p.source_adapter_low && m.id == p.source_id {
            let fm = DisplayMode { width: m.width, height: m.height, refresh_rate: 60, bits_per_pixel: 32 };
            if !contains_mode(&out, &fm) {
                out.push(fm);
            }
        }
        n = n + 1;
    }
    out
}


/// The state flag of an adapter that is part of the desktop.
pub const ATTACHED_TO_DESKTOP: u32 = 0x1;

/// The state flag of a mirroring pseudo-adapter.
pub const MIRRORING_DRIVER: u32 = 0x8;

/// What a scan reports of one display adapter: its GDI device name, its
/// description, its state flags, and the display settings it lists.
#[derive(Debug)]
pub struct AdapterScan {
    pub device_name: String,
    pub device_string: String,
    pub state_flags: u32,
    pub modes: Vec<DisplayMode>,
}

/// What a scan of the system reports: the topology; for each of its paths the
/// GDI device name, the monitor's friendly name and its device path (the EDID
/// hash), where Windows reports them; and the display adapters in order.
#[derive(Debug)]
pub struct DisplayScan {
    pub topology: Topology,
    pub gdi_names: Vec<Option<String>>,
    pub friendly_names: Vec<Option<String>>,
    pub edid_hashes: Vec<Option<String>>,
    pub adapters: Vec<AdapterScan>,
}

/// The string reported for path `k`, if any.
pub open spec fn opt_at(v: Seq<Option<String>>, k: int) -> Option<Seq<char>> {
    if 0 <= k < v.len() {
        opt_view(v[k])
    } else {
        None
    }
}

/// The refresh rate of a path: its numerator over its denominator (at least 1).
pub open spec fn refresh_of(p: PathInfo) -> u32 {
    (p.refresh_numerator as int / (if p.refresh_denominator == 0 { 1 } else { p.refresh_denominator as int })) as u32
}

/// The modes a device lists: its adapter's listed settings, or where there
/// are none, the fallback modes of its path's source; in list order.
pub open spec fn device_modes(ad: AdapterScan, modes: Seq<ModeInfo>, p: PathInfo) -> Seq<DisplayMode> {
    let listed = listed_modes(ad.modes@, ad.modes@.len() as int);
    sorted_modes(if listed.len() == 0 { fallback_modes(modes, p, modes.len() as int) } else { listed })
}

/// The modes a device lists are strictly in list order, and are the modes of
/// its adapter's accepted settings (or of its path's fallback modes).
pub proof fn lemma_device_modes_sorted(ad: AdapterScan, modes: Seq<ModeInfo>, p: PathInfo)
    ensures
        modes_sorted(device_modes(ad, modes, p)),
        ({
            let listed = listed_modes(ad.modes@, ad.modes@.len() as int);
            let collected = if listed.len() == 0 { fallback_modes(modes, p, modes.len() as int) } else { listed };
            &&& device_modes(ad, modes, p).len() == collected.len()
            &&& forall|m: DisplayMode| device_modes(ad, modes, p).contains(m) <==> collected.contains(m)
        }),
{
    lemma_listed_distinct(ad.modes@, ad.modes@.len() as int);
    lemma_fallback_distinct(modes, p, modes.len() as int);
    let listed = listed_modes(ad.modes@, ad.modes@.len() as int);
    let collected = if listed.len() == 0 { fallback_modes(modes, p, modes.len() as int) } else { listed };
    lemma_sorted_modes(collected);
}

/// The device that adapter `a` of a scan gives, if any. Mirroring adapters
/// are skipped, as are adapters without a path of their name (unless attached
/// to the desktop) and displays without an EDID hash. The device takes its
/// identity, position, mode and orientation from its path.
pub open spec fn adapter_device(scan: DisplayScan, a: int) -> Option<DisplayDeviceView> {
    let ad = scan.adapters@[a];
    let paths = scan.topology.paths@;
    let modes = scan.topology.modes@;
    let path = first_named_path(scan.gdi_names@, paths.len() as int, ad.device_name@);
    if ad.state_flags & MIRRORING_DRIVER != 0 {
        None
    } else if path is None && ad.state_flags & ATTACHED_TO_DESKTOP == 0 {
        None
    } else {
        match path {
            None => None,
            Some(k) => {
                let p = paths[k];
                let edid = opt_at(scan.edid_hashes@, k);
                if edid is None || edid->0.len() == 0 {
                    None
                } else {
                    let active = is_active(p);
                    let idx = p.source_mode_idx as int;
                    let has_mode = idx < modes.len();
                    let positioned = active && has_mode;
                    let available = device_modes(ad, modes, p);
                    let current = if has_mode {
                        Some(DisplayMode {
                            width: modes[idx].width,
                            height: modes[idx].height,
                            refresh_rate: if active { refresh_of(p) } else { 60 },
                            bits_per_pixel: 32,
                        })
                    } else if available.len() > 0 {
                        Some(available[0])
                    } else {
                        None
                    };
                    Some(DisplayDeviceView {
                        index: a as u32,
                        monitor_number: None,
                        device_name: ad.device_name@,
                        device_string: match opt_at(scan.friendly_names@, k) {
                            Some(f) => f,
                            None => ad.device_string@,
                        },
                        adapter_name: ad.device_string@,
                        display_id: DisplayIdView {
                            adapter_luid: luid_from_parts(p.target_adapter_high, p.target_adapter_low),
                            target_id: p.target_id,
                            edid_hash: edid,
                        },
                        is_primary: positioned && modes[idx].x == 0 && modes[idx].y == 0,
                        is_active: active,
                        not_detected: false,
                        position_x: if positioned { modes[idx].x } else { 0 },
                        position_y: if positioned { modes[idx].y } else { 0 },
                        current_mode: current,
                        available_modes: available,
                        orientation: orientation_of_rotation(p.rotation),
                        scale_factor: 100,
                    })
                }
            },
        }
    }
}

/// The devices that the first `n` adapters of a scan give, in order.
pub open spec fn detected_devices(scan: DisplayScan, n: int) -> Seq<DisplayDeviceView>
    decreases n,
{
    if n <= 0 || n > scan.adapters@.len() {
        seq![]
    } else {
        let prev = detected_devices(scan, n - 1);
        match adapter_device(scan, n - 1) {
            Some(d) => prev.push(d),
            None => prev,
        }
    }
}

/// The string at position `k` of a list, if there is one.
fn string_at(v: &Vec<Option<String>>, k: usize) -> (r: Option<String>)
    ensures
        opt_view(r) == opt_at(v@, k as int),
{
    if k < v.len() {
        copy_opt_string(&v[k])
    } else {
        None
    }
}

/// The refresh rate of a path.
fn refresh_rate_of(p: &PathInfo) -> (r: u32)
    ensures
        r == refresh_of(*p),
{
    let den: u64 = if p.refresh_denominator == 0 { 1 } else { p.refresh_denominator as u64 };
    let q: u64 = p.refresh_numerator as u64 / den;
    assert(q <= p.refresh_numerator) by (nonlinear_arith)
        requires
            den >= 1,
            q == p.refresh_numerator as u64 / den,
    ;
    q as u32
}

/// The device that adapter `a` of a scan gives, if any.
pub fn build_adapter_device(scan: &DisplayScan, a: usize) -> (r: Option<DisplayDevice>)
    requires
        a < scan.adapters@.len(),
        a <= u32::MAX,
    ensures
        match r {
            Some(d) => adapter_device(*scan, a as int) == Some(d@),
            None => adapter_device(*scan, a as int) is None,
        },
{
    let ad = &scan.adapters[a];
    let paths = &scan.topology.paths;
    let modes = &scan.topology.modes;
    if ad.state_flags & MIRRORING_DRIVER != 0 {
        return None;
    }
    let name = chars_of(ad.device_name.as_str());
    let path = find_named_path(&scan.gdi_names, paths.len(), &name);
    if path.is_none() && ad.state_flags & ATTACHED_TO_DESKTOP == 0 {
        return None;
    }
    let k = match path {
        None => return None,
        Some(k) => k,
    };
    let p = paths[k];
    let edid = string_at(&scan.edid_hashes, k);
    let edid_empty = match &edid {
        None => true,
        Some(e) => e.as_str().unicode_len() == 0,
    };
    if edid_empty {
        return None;
    }
    let active = path_is_active(&p);
    let idx = p.source_mode_idx as usize;
    let has_mode = idx < modes.len();
    let positioned = active && has_mode;
    let listed = list_modes(&ad.modes);
    proof {
        lemma_listed_distinct(ad.modes@, ad.modes@.len() as int);
        lemma_fallback_distinct(modes@, p, modes@.len() as int);
    }
    let collected = if listed.len() == 0 { list_fallback_modes(modes, &p) } else { listed };
    let available = sort_display_modes(&collected);
    let current = if has_mode {
        let rr = if active { refresh_rate_of(&p) } else { 60 };
        Some(DisplayMode { width: modes[idx].width, height: modes[idx].height, refresh_rate: rr, bits_per_pixel: 32 })
    } else if available.len() > 0 {
        Some(available[0])
    } else {
        None
    };
    let device_string = match string_at(&scan.friendly_names, k) {
        Some(f) => f,
        None => ad.device_string.clone(),
    };
    let (x, y) = if positioned { (modes[idx].x, modes[idx].y) } else { (0, 0) };
    Some(DisplayDevice {
        index: a as u32,
        monitor_number: None,
        device_name: ad.device_name.clone(),
        device_string,
        adapter_name: ad.device_string.clone(),
        display_id: DisplayId {
            adapter_luid: adapter_luid_from_parts(p.target_adapter_high, p.target_adapter_low),
            target_id: p.target_id,
            edid_hash: edid,
        },
        is_primary: positioned && x == 0 && y == 0,
        is_active: active,
        not_detected: false,
        position_x: x,
        position_y: y,
        current_mode: current,
        available_modes: available,
        orientation: orientation_from_rotation(p.rotation),
        scale_factor: 100,
    })
}


/// A display seen before, remembered so that it stays listed while it is not
/// detected.
#[derive(Debug)]
pub struct KnownMonitor {
    pub device_name: String,
    pub device_string: String,
    pub adapter_luid: u64,
    pub target_id: u32,
    pub edid_hash: Option<String>,
    pub position_x: i32,
    pub position_y: i32,
}

/// The mathematical value of a [`KnownMonitor`].
pub struct KnownMonitorView {
    pub device_name: Seq<char>,
    pub device_string: Seq<char>,
    pub adapter_luid: u64,
    pub target_id: u32,
    pub edid_hash: Option<Seq<char>>,
    pub position_x: i32,
    pub position_y: i32,
}

impl View for KnownMonitor {
    type V = KnownMonitorView;

    open spec fn view(&self) -> KnownMonitorView {
        KnownMonitorView {
            device_name: self.device_name@,
            device_string: self.device_string@,
            adapter_luid: self.adapter_luid,
            target_id: self.target_id,
            edid_hash: opt_view(self.edid_hash),
            position_x: self.position_x,
            position_y: self.position_y,
        }
    }
}

/// The views of a list of known monitors.
pub open spec fn known_view(v: Seq<KnownMonitor>) -> Seq<KnownMonitorView> {
    v.map_values(|k: KnownMonitor| k@)
}

/// The device listed for a known monitor that is not detected.
pub open spec fn placeholder(km: KnownMonitorView, index: int) -> DisplayDeviceView {
    DisplayDeviceView {
        index: index as u32,
        monitor_number: None,
        device_name: km.device_name,
        device_string: km.device_string,
        adapter_name: seq![],
        display_id: DisplayIdView { adapter_luid: km.adapter_luid, target_id: km.target_id, edid_hash: km.edid_hash },
        is_primary: false,
        is_active: false,
        not_detected: true,
        position_x: km.position_x,
        position_y: km.position_y,
        current_mode: None,
        available_modes: seq![],
        orientation: DisplayOrientation::Landscape,
        scale_factor: 100,
    }
}

/// The known monitor remembered for a device.
pub open spec fn known_of(d: DisplayDeviceView) -> KnownMonitorView {
    KnownMonitorView {
        device_name: d.device_name,
        device_string: d.device_string,
        adapter_luid: d.display_id.adapter_luid,
        target_id: d.display_id.target_id,
        edid_hash: d.display_id.edid_hash,
        position_x: d.position_x,
        position_y: d.position_y,
    }
}

/// Whether some device has the given device name.
pub open spec fn has_device_named(devs: Seq<DisplayDeviceView>, name: Seq<char>) -> bool {
    exists|i: int| 0 <= i < devs.len() && (#[trigger] devs[i]).device_name == name
}

/// Whether some known monitor has the given device name.
pub open spec fn is_known(known: Seq<KnownMonitorView>, name: Seq<char>) -> bool {
    exists|i: int| 0 <= i < known.len() && (#[trigger] known[i]).device_name == name
}

/// The placeholders for the first `n` known monitors that no detected device
/// names, numbered after the detected devices.
pub open spec fn known_to_add(devs: Seq<DisplayDeviceView>, known: Seq<KnownMonitorView>, n: int) -> Seq<DisplayDeviceView>
    decreases n,
{
    if n <= 0 || n > known.len() {
        seq![]
    } else {
        let prev = known_to_add(devs, known, n - 1);
        if !has_device_named(devs, known[n - 1].device_name) {
            prev.push(placeholder(known[n - 1], (devs.len() + prev.len()) as int))
        } else {
            prev
        }
    }
}

/// The known monitors for the first `n` devices whose name is not known yet.
pub open spec fn newly_known(known: Seq<KnownMonitorView>, devs: Seq<DisplayDeviceView>, n: int) -> Seq<KnownMonitorView>
    decreases n,
{
    if n <= 0 || n > devs.len() {
        seq![]
    } else {
        let prev = newly_known(known, devs, n - 1);
        if !is_known(known, devs[n - 1].device_name) {
            prev.push(known_of(devs[n - 1]))
        } else {
            prev
        }
    }
}

/// The device list with the known monitors that were not detected.
pub open spec fn merged_devices(devs: Seq<DisplayDeviceView>, known: Seq<KnownMonitorView>) -> Seq<DisplayDeviceView> {
    devs + known_to_add(devs, known, known.len() as int)
}

/// The known monitors with every listed device that was not known yet.
pub open spec fn merged_known(devs: Seq<DisplayDeviceView>, known: Seq<KnownMonitorView>) -> Seq<KnownMonitorView> {
    let all = merged_devices(devs, known);
    known + newly_known(known, all, all.len() as int)
}

/// Whether some device has the given device name.
fn has_device_named_exec(devs: &Vec<DisplayDevice>, name: &Vec<char>) -> (r: bool)
    ensures
        r == has_device_named(devices_view(devs@), name@),
{
    let mut i: usize = 0;
    while i < devs.len()
        invariant
            i <= devs.len(),
            forall|j: int| 0 <= j < i ==> (#[trigger] devs@[j]).device_name@ != name@,
        decreases devs.len() - i,
    {
        let n = chars_of(devs[i].device_name.as_str());
        if crate::text::chars_eq(&n, name) {
            assert(devices_view(devs@)[i as int].device_name == name@);
            return true;
        }
        i = i + 1;
    }
    assert forall|j: int| 0 <= j < devices_view(devs@).len() implies (#[trigger] devices_view(devs@)[j]).device_name != name@ by {
        assert(devices_view(devs@)[j] == devs@[j]@);
    }
    false
}

/// Whether some known monitor has the given device name.
fn is_known_exec(known: &Vec<KnownMonitor>, name: &Vec<char>) -> (r: bool)
    ensures
        r == is_known(known_view(known@), name@),
{
    let mut i: usize = 0;
    while i < known.len()
        invariant
            i <= known.len(),
            forall|j: int| 0 <= j < i ==> (#[trigger] known@[j]).device_name@ != name@,
        decreases known.len() - i,
    {
        let n = chars_of(known[i].device_name.as_str());
        if crate::text::chars_eq(&n, name) {
            assert(known_view(known@)[i as int].device_name == name@);
            return true;
        }
        i = i + 1;
    }
    assert forall|j: int| 0 <= j < known_view(known@).len() implies (#[trigger] known_view(known@)[j]).device_name != name@ by {
        assert(known_view(known@)[j] == known@[j]@);
    }
    false
}

/// Lists the known monitors that were not detected after the detected
/// devices, and remembers every listed device that was not known yet.
pub fn merge_known_monitors(devices: &mut Vec<DisplayDevice>, known: &mut Vec<KnownMonitor>)
    requires
        old(devices)@.len() + old(known)@.len() <= u32::MAX,
    ensures
        devices_view(final(devices)@) == merged_devices(devices_view(old(devices)@), known_view(old(known)@)),
        known_view(final(known)@) == merged_known(devices_view(old(devices)@), known_view(old(known)@)),
{
    let ghost devs0 = devices_view(devices@);
    let ghost known0 = known_view(known@);
    let base = devices.len();
    let mut to_add: Vec<DisplayDevice> = Vec::new();
    let mut n: usize = 0;
    while n < known.len()
        invariant
            n <= known.len(),
            base == devices@.len(),
            devs0 == devices_view(devices@),
            known0 == known_view(known@),
            base + known@.len() <= u32::MAX,
            to_add@.len() <= n,
            devices_view(to_add@) == known_to_add(devs0, known0, n as int),
        decreases known.len() - n,
    {
        let km = &known[n];
        let name = chars_of(km.device_name.as_str());
        assert(known0[n as int] == km@);
        if !has_device_named_exec(devices, &name) {
            let index = base as u32 + to_add.len() as u32;
            let d = DisplayDevice {
                index,
                monitor_number: None,
                device_name: km.device_name.clone(),
                device_string: km.device_string.clone(),
                adapter_name: String::new(),
                display_id: DisplayId {
                    adapter_luid: km.adapter_luid,
                    target_id: km.target_id,
                    edid_hash: copy_opt_string(&km.edid_hash),
                },
                is_primary: false,
                is_active: false,
                not_detected: true,
                position_x: km.position_x,
                position_y: km.position_y,
                current_mode: None,
                available_modes: Vec::new(),
                orientation: DisplayOrientation::Landscape,
                scale_factor: 100,
            };
            let ghost prev = devices_view(to_add@);
            to_add.push(d);
            assert(d@ == placeholder(km@, (base + prev.len()) as int));
            assert(devices_view(to_add@) =~= prev.push(d@));
        }
        n = n + 1;
    }
    let ghost added = devices_view(to_add@);
    let mut i: usize = 0;
    let tlen = to_add.len();
    while i < tlen
        invariant
            i <= tlen == to_add@.len(),
            devices_view(devices@) == devs0 + added.subrange(0, i as int),
            added == devices_view(to_add@),
        decreases tlen - i,
    {
        let d = to_add[i].copy();
        let ghost prev = devices_view(devices@);
        devices.push(d);
        assert(devices_view(devices@) =~= prev.push(added[i as int]));
        i = i + 1;
        assert(devs0 + added.subrange(0, i as int) =~= (devs0 + added.subrange(0, i - 1)).push(added[i - 1]));
    }
    assert(added.subrange(0, tlen as int) == added);
    let ghost all = devices_view(devices@);
    let mut new_known: Vec<KnownMonitor> = Vec::new();
    let mut j: usize = 0;
    while j < devices.len()
        invariant
            j <= devices.len(),
            all == devices_view(devices@),
            known0 == known_view(known@),
            known_view(new_known@) == newly_known(known0, all, j as int),
        decreases devices.len() - j,
    {
        let d = &devices[j];
        let name = chars_of(d.device_name.as_str());
        assert(all[j as int] == d@);
        if !is_known_exec(known, &name) {
            let km = KnownMonitor {
                device_name: d.device_name.clone(),
                device_string: d.device_string.clone(),
                adapter_luid: d.display_id.adapter_luid,
                target_id: d.display_id.target_id,
                edid_hash: copy_opt_string(&d.display_id.edid_hash),
                position_x: d.position_x,
                position_y: d.position_y,
            };
            let ghost prev = known_view(new_known@);
            new_known.push(km);
            assert(known_view(new_known@) =~= prev.push(km@));
        }
        j = j + 1;
    }
    let ghost nk = known_view(new_known@);
    let mut q: usize = 0;
    let nlen = new_known.len();
    while q < nlen
        invariant
            q <= nlen == new_known@.len(),
            known_view(known@) == known0 + nk.subrange(0, q as int),
            nk == known_view(new_known@),
        decreases nlen - q,
    {
        let km = &new_known[q];
        let c = KnownMonitor {
            device_name: km.device_name.clone(),
            device_string: km.device_string.clone(),
            adapter_luid: km.adapter_luid,
            target_id: km.target_id,
            edid_hash: copy_opt_string(&km.edid_hash),
            position_x: km.position_x,
            position_y: km.position_y,
        };
        let ghost prev = known_view(known@);
        known.push(c);
        assert(known_view(known@) =~= prev.push(nk[q as int]));
        q = q + 1;
        assert(known0 + nk.subrange(0, q as int) =~= (known0 + nk.subrange(0, q - 1)).push(nk[q - 1]));
    }
    assert(nk.subrange(0, nlen as int) == nk);
}

/// Lists the displays that a scan reports, then the known monitors that were
/// not detected, and remembers in `known` every listed display not known yet.
pub fn enumerate_displays(scan: &DisplayScan, known: &mut Vec<KnownMonitor>) -> (r: Vec<DisplayDevice>)
    requires
        scan.adapters@.len() + old(known)@.len() <= u32::MAX,
    ensures
        devices_view(r@) == merged_devices(detected_devices(*scan, scan.adapters@.len() as int), known_view(old(known)@)),
        known_view(final(known)@) == merged_known(detected_devices(*scan, scan.adapters@.len() as int), known_view(old(known)@)),
{
    let mut devices: Vec<DisplayDevice> = Vec::new();
    let mut a: usize = 0;
    while a < scan.adapters.len()
        invariant
            a <= scan.adapters@.len(),
            scan.adapters@.len() <= u32::MAX,
            devices@.len() <= a,
            devices_view(devices@) == detected_devices(*scan, a as int),
        decreases scan.adapters@.len() - a,
    {
        match build_adapter_device(scan, a) {
            Some(d) => {
                let ghost prev = devices_view(devices@);
                devices.push(d);
                assert(devices_view(devices@) =~= prev.push(d@));
            },
            None => {},
        }
        a = a + 1;
    }
    merge_known_monitors(&mut devices, known);
    devices
}

} // verus!
