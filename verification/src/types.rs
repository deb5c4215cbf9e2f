//! The data that describes displays: identities, modes, orientations, devices,
//! operation results and errors.

use vstd::prelude::*;
use crate::text::{chars_of, push_str, string_from_chars, is_blank, is_blank_str};

verus! {

/// An error of the display manager.
#[derive(Debug)]
pub enum ManagerError {
    /// The display backend failed, with its message.
    Backend(String),
    /// A rollback was asked for while no layout change awaited confirmation.
    NoPendingConfirmation,
    /// An input/output operation failed, with the text of its error.
    Io(String),
}

/// The text that describes an error.
pub open spec fn manager_error_message(e: ManagerError) -> Seq<char> {
    match e {
        ManagerError::Backend(m) => "backend error: "@ + m@,
        ManagerError::NoPendingConfirmation => "no pending confirmation"@,
        ManagerError::Io(m) => "io error: "@ + m@,
    }
}

impl ManagerError {
    /// The text that describes this error.
    pub fn message(&self) -> (r: String)
        ensures
            r@ == manager_error_message(*self),
    {
        match self {
            ManagerError::Backend(m) => {
                let mut v = chars_of("backend error: ");
                push_str(&mut v, m.as_str());
                string_from_chars(&v)
            },
            ManagerError::NoPendingConfirmation => {
                let v = chars_of("no pending confirmation");
                string_from_chars(&v)
            },
            ManagerError::Io(m) => {
                let mut v = chars_of("io error: ");
                push_str(&mut v, m.as_str());
                string_from_chars(&v)
            },
        }
    }
}

/// The outcome of a display operation: whether it succeeded, and a message.
#[derive(Debug)]
pub struct ApplyResult {
    pub success: bool,
    pub message: String,
}

impl ApplyResult {
    /// A successful outcome with the given message.
    pub fn ok(msg: String) -> (r: Self)
        ensures
            r.success,
            r.message@ == msg@,
    {
        ApplyResult { success: true, message: msg }
    }

    /// A failed outcome with the given message.
    pub fn err(msg: String) -> (r: Self)
        ensures
            !r.success,
            r.message@ == msg@,
    {
        ApplyResult { success: false, message: msg }
    }

    /// The failed outcome that reports an error.
    pub fn from_manager_error(e: ManagerError) -> (r: Self)
        ensures
            !r.success,
            r.message@ == manager_error_message(e),
    {
        let m = e.message();
        ApplyResult::err(m)
    }
}

/// The hardware identity of a display: adapter, target and, where Windows
/// reports one, the monitor device path (called its EDID hash).
#[derive(Debug)]
pub struct DisplayId {
    pub adapter_luid: u64,
    pub target_id: u32,
    pub edid_hash: Option<String>,
}

/// The mathematical value of a [`DisplayId`].
pub struct DisplayIdView {
    pub adapter_luid: u64,
    pub target_id: u32,
    pub edid_hash: Option<Seq<char>>,
}

/// The view of an optional string.
pub open spec fn opt_view(s: Option<String>) -> Option<Seq<char>> {
    match s {
        Some(x) => Some(x@),
        None => None,
    }
}

impl View for DisplayId {
    type V = DisplayIdView;

    open spec fn view(&self) -> DisplayIdView {
        DisplayIdView {
            adapter_luid: self.adapter_luid,
            target_id: self.target_id,
            edid_hash: opt_view(self.edid_hash),
        }
    }
}

/// A copy of an optional string.
pub fn copy_opt_string(s: &Option<String>) -> (r: Option<String>)
    ensures
        opt_view(r) == opt_view(*s),
{
    match s {
        Some(x) => Some(x.clone()),
        None => None,
    }
}

/// Whether two displays are taken as the same one when a profile is applied:
/// by their EDID hashes where both have one, else by target id.
pub open spec fn same_display_by_assignment(a: DisplayIdView, b: DisplayIdView) -> bool {
    match (a.edid_hash, b.edid_hash) {
        (Some(x), Some(y)) => x == y,
        _ => a.target_id == b.target_id,
    }
}

impl DisplayId {
    /// Combines the high and low parts of an adapter LUID, as Windows reports them.
    pub fn from_parts(adapter_high: i32, adapter_low: u32, target_id: u32, edid_hash: Option<String>) -> (r: Self)
        ensures
            r.adapter_luid == luid_from_parts(adapter_high, adapter_low),
            r.target_id == target_id,
            opt_view(r.edid_hash) == opt_view(edid_hash),
    {
        DisplayId { adapter_luid: adapter_luid_from_parts(adapter_high, adapter_low), target_id, edid_hash }
    }

    /// A copy of this identity.
    pub fn copy(&self) -> (r: Self)
        ensures
            r@ == self@,
    {
        DisplayId {
            adapter_luid: self.adapter_luid,
            target_id: self.target_id,
            edid_hash: copy_opt_string(&self.edid_hash),
        }
    }

    /// Whether `other` names this display: by EDID hash where both have one,
    /// else by target id.
    pub fn matches_path_by_assignment(&self, other: &DisplayId) -> (r: bool)
        ensures
            r == same_display_by_assignment(self@, other@),
    {
        if let (Some(my_edid), Some(other_edid)) = (&self.edid_hash, &other.edid_hash) {
            return *my_edid == *other_edid;
        }
        self.target_id == other.target_id
    }
}

/// The 64-bit adapter LUID made of a signed high part and an unsigned low part:
/// the high part's 32 bits above the low part's.
pub open spec fn luid_from_parts(high: i32, low: u32) -> u64 {
    ((high as u32 as int) * 0x1_0000_0000 + (low as int)) as u64
}

/// Combines the parts of an adapter LUID as `((high as u64) << 32) | low as u64` does.
pub fn adapter_luid_from_parts(high: i32, low: u32) -> (r: u64)
    ensures
        r == luid_from_parts(high, low),
{
    let h: u64 = high as u32 as u64;
    let l: u64 = low as u64;
    assert(h * 0x1_0000_0000 + l <= u64::MAX) by (nonlinear_arith)
        requires
            h <= u32::MAX,
            l <= u32::MAX,
    ;
    h * 0x1_0000_0000 + l
}

/// A display mode: resolution, refresh rate and colour depth.
#[derive(Debug, Clone, Copy, PartialEq, Eq, Structural)]
pub struct DisplayMode {
    pub width: u32,
    pub height: u32,
    pub refresh_rate: u32,
    pub bits_per_pixel: u32,
}

/// The rotation of a display.
#[derive(Debug, Clone, Copy, PartialEq, Eq, Structural)]
pub enum DisplayOrientation {
    Landscape,
    Portrait,
    LandscapeFlipped,
    PortraitFlipped,
}

impl Default for DisplayOrientation {
    fn default() -> (r: Self)
        ensures
            r == DisplayOrientation::Landscape,
    {
        DisplayOrientation::Landscape
    }
}

/// The name of an orientation as `{:?}` prints it.
pub open spec fn orientation_name(o: DisplayOrientation) -> Seq<char> {
    match o {
        DisplayOrientation::Landscape => "Landscape"@,
        DisplayOrientation::Portrait => "Portrait"@,
        DisplayOrientation::LandscapeFlipped => "LandscapeFlipped"@,
        DisplayOrientation::PortraitFlipped => "PortraitFlipped"@,
    }
}

/// The name of an orientation as `{:?}` prints it.
pub fn orientation_debug_name(o: DisplayOrientation) -> (r: Vec<char>)
    ensures
        r@ == orientation_name(o),
{
    match o {
        DisplayOrientation::Landscape => chars_of("Landscape"),
        DisplayOrientation::Portrait => chars_of("Portrait"),
        DisplayOrientation::LandscapeFlipped => chars_of("LandscapeFlipped"),
        DisplayOrientation::PortraitFlipped => chars_of("PortraitFlipped"),
    }
}

/// The Windows rotation code that an orientation is applied with: 1 (the
/// identity) for landscape, then 90, 180 and 270 degrees as 2, 3 and 4.
pub open spec fn rotation_code(o: DisplayOrientation) -> u32 {
    match o {
        DisplayOrientation::Landscape => 1,
        DisplayOrientation::Portrait => 2,
        DisplayOrientation::LandscapeFlipped => 3,
        DisplayOrientation::PortraitFlipped => 4,
    }
}

/// The orientation that a Windows rotation code reports: 2, 3 and 4 are the
/// rotated ones, anything else is landscape.
pub open spec fn orientation_of_rotation(r: u32) -> DisplayOrientation {
    if r == 2 {
        DisplayOrientation::Portrait
    } else if r == 3 {
        DisplayOrientation::LandscapeFlipped
    } else if r == 4 {
        DisplayOrientation::PortraitFlipped
    } else {
        DisplayOrientation::Landscape
    }
}

/// The Windows rotation code that an orientation is applied with.
pub fn rotation_for_orientation(o: DisplayOrientation) -> (r: u32)
    ensures
        r == rotation_code(o),
{
    match o {
        DisplayOrientation::Landscape => 1,
        DisplayOrientation::Portrait => 2,
        DisplayOrientation::LandscapeFlipped => 3,
        DisplayOrientation::PortraitFlipped => 4,
    }
}

/// The orientation that a Windows rotation code reports.
pub fn orientation_from_rotation(r: u32) -> (o: DisplayOrientation)
    ensures
        o == orientation_of_rotation(r),
{
    if r == 2 {
        DisplayOrientation::Portrait
    } else if r == 3 {
        DisplayOrientation::LandscapeFlipped
    } else if r == 4 {
        DisplayOrientation::PortraitFlipped
    } else {
        DisplayOrientation::Landscape
    }
}

/// A display as the manager shows it.
#[derive(Debug)]
pub struct DisplayDevice {
    pub index: u32,
    pub monitor_number: Option<u32>,
    pub device_name: String,
    pub device_string: String,
    pub adapter_name: String,
    pub display_id: DisplayId,
    pub is_primary: bool,
    pub is_active: bool,
    pub not_detected: bool,
    pub position_x: i32,
    pub position_y: i32,
    pub current_mode: Option<DisplayMode>,
    pub available_modes: Vec<DisplayMode>,
    pub orientation: DisplayOrientation,
    pub scale_factor: u32,
}

/// The mathematical value of a [`DisplayDevice`].
pub struct DisplayDeviceView {
    pub index: u32,
    pub monitor_number: Option<u32>,
    pub device_name: Seq<char>,
    pub device_string: Seq<char>,
    pub adapter_name: Seq<char>,
    pub display_id: DisplayIdView,
    pub is_primary: bool,
    pub is_active: bool,
    pub not_detected: bool,
    pub position_x: i32,
    pub position_y: i32,
    pub current_mode: Option<DisplayMode>,
    pub available_modes: Seq<DisplayMode>,
    pub orientation: DisplayOrientation,
    pub scale_factor: u32,
}

impl View for DisplayDevice {
    type V = DisplayDeviceView;

    open spec fn view(&self) -> DisplayDeviceView {
        DisplayDeviceView {
            index: self.index,
            monitor_number: self.monitor_number,
            device_name: self.device_name@,
            device_string: self.device_string@,
            adapter_name: self.adapter_name@,
            display_id: self.display_id@,
            is_primary: self.is_primary,
            is_active: self.is_active,
            not_detected: self.not_detected,
            position_x: self.position_x,
            position_y: self.position_y,
            current_mode: self.current_mode,
            available_modes: self.available_modes@,
            orientation: self.orientation,
            scale_factor: self.scale_factor,
        }
    }
}

/// A copy of a list of modes.
pub fn copy_modes(v: &Vec<DisplayMode>) -> (r: Vec<DisplayMode>)
    ensures
        r@ == v@,
{
    let mut r: Vec<DisplayMode> = Vec::new();
    let mut i: usize = 0;
    while i < v.len()
        invariant
            i <= v.len(),
            r@ == v@.subrange(0, i as int),
        decreases v.len() - i,
    {
        r.push(v[i]);
        i = i + 1;
        assert(r@ == v@.subrange(0, i as int));
    }
    assert(v@.subrange(0, v.len() as int) == v@);
    r
}

impl DisplayDevice {
    /// A copy of this device.
    pub fn copy(&self) -> (r: Self)
        ensures
            r@ == self@,
    {
        DisplayDevice {
            index: self.index,
            monitor_number: self.monitor_number,
            device_name: self.device_name.clone(),
            device_string: self.device_string.clone(),
            adapter_name: self.adapter_name.clone(),
            display_id: self.display_id.copy(),
            is_primary: self.is_primary,
            is_active: self.is_active,
            not_detected: self.not_detected,
            position_x: self.position_x,
            position_y: self.position_y,
            current_mode: self.current_mode,
            available_modes: copy_modes(&self.available_modes),
            orientation: self.orientation,
            scale_factor: self.scale_factor,
        }
    }
}

/// The views of a list of devices.
pub open spec fn devices_view(v: Seq<DisplayDevice>) -> Seq<DisplayDeviceView> {
    v.map_values(|d: DisplayDevice| d@)
}

/// A copy of a list of devices.
pub fn copy_devices(v: &Vec<DisplayDevice>) -> (r: Vec<DisplayDevice>)
    ensures
        devices_view(r@) == devices_view(v@),
{
    let mut r: Vec<DisplayDevice> = Vec::new();
    let mut i: usize = 0;
    while i < v.len()
        invariant
            i <= v.len(),
            r.len() == i,
            forall|j: int| 0 <= j < i ==> (#[trigger] r@[j])@ == v@[j]@,
        decreases v.len() - i,
    {
        r.push(v[i].copy());
        i = i + 1;
    }
    assert(devices_view(r@) =~= devices_view(v@));
    r
}

/// UTF-16 decoding in which every unpaired surrogate becomes U+FFFD.
pub open spec fn utf16_lossy(u: Seq<u16>) -> Seq<char>
    decreases u.len(),
{
    if u.len() == 0 {
        seq![]
    } else if u[0] < 0xD800 || u[0] >= 0xE000 {
        seq![u[0] as char] + utf16_lossy(u.skip(1))
    } else if u[0] < 0xDC00 && u.len() >= 2 && 0xDC00 <= u[1] && u[1] < 0xE000 {
        seq![(0x10000 + (u[0] - 0xD800) * 0x400 + (u[1] - 0xDC00)) as char] + utf16_lossy(u.skip(2))
    } else {
        seq!['\u{FFFD}'] + utf16_lossy(u.skip(1))
    }
}

/// Decodes UTF-16 units by calling `String::from_utf16_lossy`. Trusted, not
/// proved: its contract says that the result is the UTF-16 decoding of the
/// units in which each unpaired surrogate stands as one U+FFFD, as std
/// documents that function (and `char::decode_utf16`, which it follows).
#[verifier::external_body]
fn decode_utf16_lossy(units: &[u16]) -> (s: String)
    ensures
        s@ == utf16_lossy(units@),
{
    String::from_utf16_lossy(units)
}

/// The units of a NUL-terminated UTF-16 buffer before its first NUL (all of
/// them where it holds none).
pub open spec fn before_nul(u: Seq<u16>) -> Seq<u16>
    decreases u.len(),
{
    if u.len() == 0 {
        u
    } else if u[0] == 0 {
        seq![]
    } else {
        seq![u[0]] + before_nul(u.skip(1))
    }
}

/// The text of a NUL-terminated UTF-16 buffer, decoded lossily.
pub fn wide_to_string(wide: &[u16]) -> (s: String)
    ensures
        s@ == utf16_lossy(before_nul(wide@)),
{
    let mut prefix: Vec<u16> = Vec::new();
    let mut i: usize = 0;
    assert(wide@.skip(0) == wide@);
    assert(prefix@ + wide@ == wide@);
    while i < wide.len() && wide[i] != 0
        invariant
            i <= wide@.len(),
            before_nul(wide@) == prefix@ + before_nul(wide@.skip(i as int)),
        decreases wide.len() - i,
    {
        let ghost rest = wide@.skip(i as int);
        assert(rest.skip(1) == wide@.skip(i + 1));
        assert(rest[0] == wide@[i as int]);
        prefix.push(wide[i]);
        i = i + 1;
    }
    assert(before_nul(wide@.skip(i as int)).len() == 0) by {
        if i < wide.len() {
            assert(wide@.skip(i as int)[0] == 0);
        }
    }
    assert(prefix@ + seq![] == prefix@);
    decode_utf16_lossy(prefix.as_slice())
}


/// The friendly name a monitor reports, kept only where it is not blank.
pub fn friendly_name_or_none(name: String) -> (r: Option<String>)
    ensures
        match r {
            Some(n) => n@ == name@ && !is_blank(name@),
            None => is_blank(name@),
        },
{
    if is_blank_str(name.as_str()) {
        None
    } else {
        Some(name)
    }
}

} // verus!
