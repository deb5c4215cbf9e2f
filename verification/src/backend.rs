//! The operations a display backend offers, and a backend that only reports
//! what it would do.

use vstd::prelude::*;
use crate::text::{chars_of, push_str, push_decimal, push_signed_decimal, decimal, signed_decimal, string_from_chars};
use crate::types::{ApplyResult, DisplayDevice, DisplayOrientation, ManagerError, copy_devices, devices_view};

verus! {

/// The operations on displays that the manager's commands use.
pub trait DisplayBackend {
    /// The displays of the system.
    fn list_displays(&self) -> Result<Vec<DisplayDevice>, ManagerError>;

    /// Sets the mode of a display.
    fn apply_settings(&self, device_name: &str, width: u32, height: u32, refresh_rate: u32, persist: bool) -> ApplyResult;

    /// Makes a display the primary one.
    fn set_primary(&self, device_name: &str) -> ApplyResult;

    /// Rotates a display.
    fn set_orientation(&self, device_name: &str, orientation: DisplayOrientation) -> ApplyResult;

    /// Moves a display on the desktop.
    fn set_position(&self, device_name: &str, x: i32, y: i32) -> ApplyResult;

    /// Sets the scale of a display, in percent.
    fn set_scale(&self, device_name: &str, scale_percent: u32) -> ApplyResult;
}

/// A backend that lists a fixed set of displays and only reports the changes
/// it is asked for.
#[derive(Debug)]
pub struct MockBackend {
    displays: Vec<DisplayDevice>,
}

impl MockBackend {
    /// A backend that lists the given displays.
    pub fn new(displays: Vec<DisplayDevice>) -> (r: Self)
        ensures
            devices_view(r.displays()) == devices_view(displays@),
    {
        MockBackend { displays }
    }

    /// The displays this backend lists.
    pub closed spec fn displays(&self) -> Seq<DisplayDevice> {
        self.displays@
    }
}

impl DisplayBackend for MockBackend {
    fn list_displays(&self) -> (r: Result<Vec<DisplayDevice>, ManagerError>)
        ensures
            r matches Ok(v) && devices_view(v@) == devices_view(self.displays()),
    {
        Ok(copy_devices(&self.displays))
    }

    fn apply_settings(&self, device_name: &str, width: u32, height: u32, refresh_rate: u32, persist: bool) -> (r: ApplyResult)
        ensures
            r.success,
            r.message@ == "mock: settings applied"@,
    {
        ApplyResult::ok(string_from_chars(&chars_of("mock: settings applied")))
    }

    fn set_primary(&self, device_name: &str) -> (r: ApplyResult)
        ensures
            r.success,
            r.message@ == "mock: "@ + device_name@ + " set as primary"@,
    {
        let mut v = chars_of("mock: ");
        push_str(&mut v, device_name);
        push_str(&mut v, " set as primary");
        ApplyResult::ok(string_from_chars(&v))
    }

    fn set_orientation(&self, device_name: &str, orientation: DisplayOrientation) -> (r: ApplyResult)
        ensures
            r.success,
            r.message@ == "mock: orientation set for "@ + device_name@,
    {
        let mut v = chars_of("mock: orientation set for ");
        push_str(&mut v, device_name);
        ApplyResult::ok(string_from_chars(&v))
    }

    fn set_position(&self, device_name: &str, x: i32, y: i32) -> (r: ApplyResult)
        ensures
            r.success,
            r.message@ == "mock: "@ + device_name@ + " moved to ("@ + signed_decimal(x as int) + ", "@
                + signed_decimal(y as int) + ")"@,
    {
        let mut v = chars_of("mock: ");
        push_str(&mut v, device_name);
        push_str(&mut v, " moved to (");
        push_signed_decimal(&mut v, x as i64);
        push_str(&mut v, ", ");
        push_signed_decimal(&mut v, y as i64);
        push_str(&mut v, ")");
        ApplyResult::ok(string_from_chars(&v))
    }

    fn set_scale(&self, device_name: &str, scale_percent: u32) -> (r: ApplyResult)
        ensures
            r.success,
            r.message@ == "mock: scale set to "@ + decimal(scale_percent as nat) + "% for "@ + device_name@,
    {
        let mut v = chars_of("mock: scale set to ");
        push_decimal(&mut v, scale_percent as u64);
        push_str(&mut v, "% for ");
        push_str(&mut v, device_name);
        ApplyResult::ok(string_from_chars(&v))
    }
}

} // verus!
