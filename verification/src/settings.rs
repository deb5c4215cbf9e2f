//! The decisions of changing a display's mode and scale: which listed mode a
//! request takes, what the results of the system calls mean, the DPI values
//! and registry key of a scale, and the mode switches that refresh a display.

use vstd::prelude::*;
use crate::text::{
    chars_of, push_str, push_all, push_decimal, push_signed_decimal, decimal, signed_decimal,
    string_from_chars, string_of, find, find_exec, find_either_from, find_either_from_exec,
    slice_chars, replace_all, replace_all_exec,
};
use crate::types::{DisplayMode, ApplyResult, luid_from_parts, adapter_luid_from_parts};
use crate::topology::{Topology, first_named_path, find_named_path};
use crate::enumeration::opt_at;

verus! {

/// The most display settings a mode search reads (indices 0 to 300).
pub const MAX_MODE_SEARCH: usize = 301;

/// The fields that an adjusted display setting carries.
pub const ADJUSTED_FIELDS: u32 = 0x40000 | 0x80000 | 0x400000 | 0x40;

/// The display setting that a mode request is applied with: one of the listed
/// settings, by index, or the first listed setting adjusted to the request.
#[derive(Debug, Clone, Copy, PartialEq, Eq, Structural)]
pub enum ModeChoice {
    Listed(usize),
    Adjusted { width: u32, height: u32, refresh_rate: u32, bits_per_pixel: u32, fields: u32 },
}

/// The colour depth a request keeps: that of the first listed setting where it
/// reports one, else 32.
pub open spec fn current_depth(listed: Seq<DisplayMode>) -> u32 {
    if listed.len() > 0 && listed[0].bits_per_pixel > 0 {
        listed[0].bits_per_pixel
    } else {
        32
    }
}

/// Whether listed setting `m` serves the request.
pub open spec fn serves(m: DisplayMode, width: u32, height: u32, refresh_rate: u32, depth: u32) -> bool {
    m.width == width && m.height == height && m.refresh_rate == refresh_rate && (m.bits_per_pixel == 0
        || m.bits_per_pixel == depth)
}

/// The first of the settings searched, at or after `i`, that serves the request.
pub open spec fn serving_from(listed: Seq<DisplayMode>, width: u32, height: u32, refresh_rate: u32, depth: u32, i: int) -> Option<int>
    decreases MAX_MODE_SEARCH - i,
{
    if i < 0 || i >= listed.len() || i >= MAX_MODE_SEARCH {
        None
    } else if serves(listed[i], width, height, refresh_rate, depth) {
        Some(i)
    } else {
        serving_from(listed, width, height, refresh_rate, depth, i + 1)
    }
}

/// The setting a mode request takes: the first of the first 301 listed settings
/// with that resolution and refresh rate and a depth that is unreported or the
/// current one; else the first listed setting adjusted to the request; and
/// where nothing is listed, the failure to read the display settings.
pub open spec fn mode_choice(listed: Seq<DisplayMode>, width: u32, height: u32, refresh_rate: u32) -> Result<ModeChoice, Seq<char>> {
    let depth = current_depth(listed);
    match serving_from(listed, width, height, refresh_rate, depth, 0) {
        Some(i) => Ok(ModeChoice::Listed(i as usize)),
        None => if listed.len() == 0 {
            Err("Failed to get display settings."@)
        } else {
            Ok(ModeChoice::Adjusted { width, height, refresh_rate, bits_per_pixel: depth, fields: ADJUSTED_FIELDS })
        },
    }
}

/// Chooses the display setting that applies a mode of `width` x `height` at
/// `refresh_rate` Hz, given the settings the display lists, in order.
pub fn apply_display_settings(listed: &Vec<DisplayMode>, width: u32, height: u32, refresh_rate: u32) -> (r: Result<ModeChoice, ApplyResult>)
    ensures
        match (r, mode_choice(listed@, width, height, refresh_rate)) {
            (Ok(c), Ok(d)) => c == d,
            (Err(e), Err(m)) => !e.success && e.message@ == m,
            _ => false,
        },
{
    let depth: u32 = if listed.len() > 0 && listed[0].bits_per_pixel > 0 { listed[0].bits_per_pixel } else { 32 };
    let mut i: usize = 0;
    while i < listed.len() && i < MAX_MODE_SEARCH
        invariant
            depth == current_depth(listed@),
            serving_from(listed@, width, height, refresh_rate, depth, 0)
                == serving_from(listed@, width, height, refresh_rate, depth, i as int),
        decreases MAX_MODE_SEARCH - i,
    {
        let m = listed[i];
        if m.width == width && m.height == height && m.refresh_rate == refresh_rate && (m.bits_per_pixel == 0
            || m.bits_per_pixel == depth) {
            return Ok(ModeChoice::Listed(i));
        }
        i = i + 1;
    }
    if listed.len() == 0 {
        Err(ApplyResult::err(string_of("Failed to get display settings.")))
    } else {
        Ok(ModeChoice::Adjusted { width, height, refresh_rate, bits_per_pixel: depth, fields: ADJUSTED_FIELDS })
    }
}

/// The message that refuses a display setting that failed its test, by code.
pub open spec fn test_failure_message(code: i32, m: DisplayMode) -> Seq<char> {
    if code == -1 {
        "Display not supported"@
    } else if code == -2 {
        "Bad mode - "@ + decimal(m.width as nat) + "x"@ + decimal(m.height as nat) + " @ "@ + decimal(
            m.refresh_rate as nat,
        ) + "Hz is not supported by this display"@
    } else if code == -3 {
        "Bad flags"@
    } else if code == -4 {
        "Bad registry"@
    } else {
        "Unknown error code "@ + signed_decimal(code as int)
    }
}

/// What testing a display setting `m` gave: nothing where the test passed
/// (code 0), else the failure it reports.
pub fn settings_test_outcome(code: i32, m: &DisplayMode) -> (r: Option<ApplyResult>)
    ensures
        code == 0 ==> r is None,
        code != 0 ==> (r matches Some(e) && !e.success && e.message@ == test_failure_message(code, *m)),
{
    if code == 0 {
        return None;
    }
    let msg: Vec<char> = if code == -1 {
        chars_of("Display not supported")
    } else if code == -2 {
        let mut v = chars_of("Bad mode - ");
        push_decimal(&mut v, m.width as u64);
        push_str(&mut v, "x");
        push_decimal(&mut v, m.height as u64);
        push_str(&mut v, " @ ");
        push_decimal(&mut v, m.refresh_rate as u64);
        push_str(&mut v, "Hz is not supported by this display");
        v
    } else if code == -3 {
        chars_of("Bad flags")
    } else if code == -4 {
        chars_of("Bad registry")
    } else {
        let mut v = chars_of("Unknown error code ");
        push_signed_decimal(&mut v, code as i64);
        v
    };
    Some(ApplyResult::err(string_from_chars(&msg)))
}

/// The outcome of applying a display setting to `device`, by code: 0 and 1
/// succeed (1 asks for a restart), the others fail.
pub open spec fn apply_outcome(code: i32, device: Seq<char>) -> (bool, Seq<char>) {
    if code == 0 {
        (true, "Settings applied to "@ + device + "."@)
    } else if code == 1 {
        (true, "Settings applied to "@ + device + " (restart required)."@)
    } else if code == -1 {
        (false, "Display not supported."@)
    } else if code == -2 {
        (false, "Bad mode."@)
    } else if code == -3 {
        (false, "Bad flags."@)
    } else if code == -4 {
        (false, "Bad registry."@)
    } else {
        (false, "Failed with code: "@ + signed_decimal(code as int))
    }
}

/// The outcome of applying a display setting to `device_name`, by code.
pub fn settings_apply_outcome(code: i32, device_name: &str) -> (r: ApplyResult)
    ensures
        (r.success, r.message@) == apply_outcome(code, device_name@),
{
    if code == 0 {
        let mut v = chars_of("Settings applied to ");
        push_str(&mut v, device_name);
        push_str(&mut v, ".");
        ApplyResult::ok(string_from_chars(&v))
    } else if code == 1 {
        let mut v = chars_of("Settings applied to ");
        push_str(&mut v, device_name);
        push_str(&mut v, " (restart required).");
        ApplyResult::ok(string_from_chars(&v))
    } else if code == -1 {
        ApplyResult::err(string_of("Display not supported."))
    } else if code == -2 {
        ApplyResult::err(string_of("Bad mode."))
    } else if code == -3 {
        ApplyResult::err(string_of("Bad flags."))
    } else if code == -4 {
        ApplyResult::err(string_of("Bad registry."))
    } else {
        let mut v = chars_of("Failed with code: ");
        push_signed_decimal(&mut v, code as i64);
        ApplyResult::err(string_from_chars(&v))
    }
}


/// The DPI index and logical pixels per inch of a scale in percent: the nine
/// scales Windows offers map to their own values; any other takes index 2 and
/// 96 pixels per inch scaled by the percentage.
pub open spec fn scale_dpi(scale: u32) -> (u32, u32) {
    if scale == 100 {
        (0, 96)
    } else if scale == 125 {
        (1, 120)
    } else if scale == 150 {
        (2, 144)
    } else if scale == 175 {
        (3, 168)
    } else if scale == 200 {
        (4, 192)
    } else if scale == 250 {
        (5, 240)
    } else if scale == 300 {
        (6, 288)
    } else if scale == 400 {
        (7, 384)
    } else if scale == 500 {
        (8, 480)
    } else {
        (2, (96 * scale / 100) as u32)
    }
}

/// The DPI index and logical pixels per inch of a scale in percent.
pub fn scale_to_dpi(scale: u32) -> (r: (u32, u32))
    requires
        96 * scale <= u32::MAX,
    ensures
        r == scale_dpi(scale),
{
    if scale == 100 {
        (0, 96)
    } else if scale == 125 {
        (1, 120)
    } else if scale == 150 {
        (2, 144)
    } else if scale == 175 {
        (3, 168)
    } else if scale == 200 {
        (4, 192)
    } else if scale == 250 {
        (5, 240)
    } else if scale == 300 {
        (6, 288)
    } else if scale == 400 {
        (7, 384)
    } else if scale == 500 {
        (8, 480)
    } else {
        (2, (96 * scale) / 100)
    }
}

/// The text written for a DPI index: its digit, or `2` past 8.
pub open spec fn dpi_text(dpi: u32) -> Seq<char> {
    if dpi <= 8 {
        decimal(dpi as nat)
    } else {
        seq!['2']
    }
}

/// The word `DISPLAY#` that precedes the monitor's id in its device path.
pub open spec fn display_hash_word() -> Seq<char> {
    seq!['D', 'I', 'S', 'P', 'L', 'A', 'Y', '#']
}

/// The registry name of a monitor's per-monitor settings: the segment after
/// `DISPLAY#` up to the next `#` in its device path (with `#` made `_`), else
/// its adapter LUID and target id in decimal, joined by `_`.
pub open spec fn monitor_key(device_path: Option<Seq<char>>, luid: u64, tid: u32) -> Seq<char> {
    let fallback = decimal(luid as nat) + seq!['_'] + decimal(tid as nat);
    match device_path {
        Some(dp) => match find(dp, display_hash_word()) {
            Some(st) => match find_either_from(dp, st + 8, '#', '#') {
                Some(e) => replace_all(dp.subrange(st + 8, e), seq!['#'], seq!['_']),
                None => fallback,
            },
            None => fallback,
        },
        None => fallback,
    }
}

/// The registry path of a monitor's per-monitor settings, under the current user.
pub open spec fn per_monitor_key_path(key: Seq<char>) -> Seq<char> {
    "Control Panel\\Desktop\\PerMonitorSettings\\"@ + key
}

/// What setting a display's scale writes: the DPI index and its text, the
/// logical pixels per inch, the registry path of the display's per-monitor
/// settings, and the message that reports it.
#[derive(Debug)]
pub struct ScalePlan {
    pub dpi_value: u32,
    pub dpi_value_text: String,
    pub log_pixels: u32,
    pub registry_key_path: String,
    pub message: String,
}

/// The registry name of a monitor's per-monitor settings.
pub fn monitor_registry_key(device_path: &Option<String>, luid: u64, tid: u32) -> (r: Vec<char>)
    ensures
        r@ == monitor_key(crate::types::opt_view(*device_path), luid, tid),
{
    let mut fallback: Vec<char> = Vec::new();
    push_decimal(&mut fallback, luid);
    fallback.push('_');
    push_decimal(&mut fallback, tid as u64);
    match device_path {
        Some(dp) => {
            let d = chars_of(dp.as_str());
            let _n = d.len();
            let word: Vec<char> = vec!['D', 'I', 'S', 'P', 'L', 'A', 'Y', '#'];
            assert(word@ == display_hash_word());
            match find_exec(&d, &word) {
                Some(st) => match find_either_from_exec(&d, st + 8, '#', '#') {
                    Some(e) => {
                        let seg = slice_chars(&d, st + 8, e);
                        let hash: Vec<char> = vec!['#'];
                        let under: Vec<char> = vec!['_'];
                        assert(hash@ == seq!['#']);
                        assert(under@ == seq!['_']);
                        replace_all_exec(&seg, &hash, &under)
                    },
                    None => fallback,
                },
                None => fallback,
            }
        },
        None => fallback,
    }
}

/// Plans setting the scale of the display named `device_name` to
/// `scale_percent`: the DPI values of the scale, and the per-monitor registry
/// key of the display, named from its monitor device path (`monitor_paths`
/// holds it for each path, where Windows reports it) or its adapter and target.
pub fn set_display_scale(topology: &Topology, gdi_names: &Vec<Option<String>>, monitor_paths: &Vec<Option<String>>, device_name: &str, scale_percent: u32) -> (r: Result<ScalePlan, ApplyResult>)
    requires
        96 * scale_percent <= u32::MAX,
    ensures
        match first_named_path(gdi_names@, topology.paths@.len() as int, device_name@) {
            None => r matches Err(e) && !e.success && e.message@ == "Display not found in topology."@,
            Some(k) => r matches Ok(plan) && {
                let p = topology.paths@[k];
                &&& (plan.dpi_value, plan.log_pixels) == scale_dpi(scale_percent)
                &&& plan.dpi_value_text@ == dpi_text(plan.dpi_value)
                &&& plan.registry_key_path@ == per_monitor_key_path(monitor_key(
                    opt_at(monitor_paths@, k),
                    luid_from_parts(p.target_adapter_high, p.target_adapter_low),
                    p.target_id,
                ))
                &&& plan.message@ == "Scale set to "@ + decimal(scale_percent as nat) + "% for "@ + device_name@ + "."@
            },
        },
{
    let (dpi_value, log_pixels) = scale_to_dpi(scale_percent);
    let name = chars_of(device_name);
    let k = match find_named_path(gdi_names, topology.paths.len(), &name) {
        Some(k) => k,
        None => return Err(ApplyResult::err(string_of("Display not found in topology."))),
    };
    let p = topology.paths[k];
    let luid = adapter_luid_from_parts(p.target_adapter_high, p.target_adapter_low);
    let device_path: Option<String> = if k < monitor_paths.len() {
        crate::types::copy_opt_string(&monitor_paths[k])
    } else {
        None
    };
    let key = monitor_registry_key(&device_path, luid, p.target_id);
    let mut path = chars_of("Control Panel\\Desktop\\PerMonitorSettings\\");
    push_all(&mut path, &key);
    let mut text: Vec<char> = Vec::new();
    if dpi_value <= 8 {
        push_decimal(&mut text, dpi_value as u64);
    } else {
        text.push('2');
    }
    let mut msg = chars_of("Scale set to ");
    push_decimal(&mut msg, scale_percent as u64);
    push_str(&mut msg, "% for ");
    push_str(&mut msg, device_name);
    push_str(&mut msg, ".");
    Ok(ScalePlan {
        dpi_value,
        dpi_value_text: string_from_chars(&text),
        log_pixels,
        registry_key_path: string_from_chars(&path),
        message: string_from_chars(&msg),
    })
}

/// The most display settings searched for another refresh rate.
pub const MAX_REFRESH_SEARCH: usize = 50;

/// The first refresh rate, among the first 50 listed settings at or after `i`,
/// of a setting with the current resolution and another, non-zero, rate.
pub open spec fn alternate_from(current: DisplayMode, listed: Seq<DisplayMode>, i: int) -> Option<u32>
    decreases MAX_REFRESH_SEARCH - i,
{
    if i < 0 || i >= listed.len() || i >= MAX_REFRESH_SEARCH {
        None
    } else if listed[i].width == current.width && listed[i].height == current.height
        && listed[i].refresh_rate != current.refresh_rate && listed[i].refresh_rate != 0 {
        Some(listed[i].refresh_rate)
    } else {
        alternate_from(current, listed, i + 1)
    }
}

/// The settings that refresh a display, in order: where the display lists
/// another refresh rate at its resolution, a switch to it and back; else the
/// current setting again.
pub open spec fn refresh_steps(current: DisplayMode, listed: Seq<DisplayMode>) -> Seq<DisplayMode> {
    match alternate_from(current, listed, 0) {
        Some(f) => seq![DisplayMode { refresh_rate: f, ..current }, current],
        None => seq![current],
    }
}

/// The settings that refresh a display whose current setting is `current`,
/// given the settings it lists, in order.
pub fn display_refresh_steps(current: DisplayMode, listed: &Vec<DisplayMode>) -> (r: Vec<DisplayMode>)
    ensures
        r@ == refresh_steps(current, listed@),
{
    let mut i: usize = 0;
    while i < listed.len() && i < MAX_REFRESH_SEARCH
        invariant
            alternate_from(current, listed@, 0) == alternate_from(current, listed@, i as int),
        decreases MAX_REFRESH_SEARCH - i,
    {
        let m = listed[i];
        if m.width == current.width && m.height == current.height && m.refresh_rate != current.refresh_rate
            && m.refresh_rate != 0 {
            let mut r: Vec<DisplayMode> = Vec::new();
            r.push(DisplayMode { refresh_rate: m.refresh_rate, ..current });
            r.push(current);
            return r;
        }
        i = i + 1;
    }
    let mut r: Vec<DisplayMode> = Vec::new();
    r.push(current);
    r
}

} // verus!
