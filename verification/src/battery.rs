//! Battery monitoring: which UPower messages matter, and what a device state
//! means.
use vstd::prelude::*;
use crate::text::{chars_of, str_eq, starts_with_text, begins_with};

verus! {

pub const UPOWER_INTERFACE: &'static str = "org.freedesktop.UPower";
pub const UPOWER_PATH_BASE: &'static str = "/org/freedesktop/UPower";
pub const UPOWER_DISPLAY_DEVICE_PATH: &'static str = "/org/freedesktop/UPower/devices/DisplayDevice";

/// Whether a signal's object path is UPower's, its display device's or a
/// battery's.
pub open spec fn battery_path(path: Seq<char>) -> bool {
    path == UPOWER_DISPLAY_DEVICE_PATH@ || path == UPOWER_PATH_BASE@ || begins_with(
        path,
        "/org/freedesktop/UPower/devices/battery_"@,
    )
}

/// Whether a change of properties concerns the battery: a device's
/// `Percentage` or `State`, or UPower's `OnBattery`.
pub open spec fn relevant_change(interface: Seq<char>, changed: Seq<Seq<char>>) -> bool {
    (interface == "org.freedesktop.UPower.Device"@ && (changed.contains("Percentage"@) || changed.contains("State"@)))
        || (interface == "org.freedesktop.UPower"@ && changed.contains("OnBattery"@))
}

fn names_contain(names: &Vec<String>, n: &str) -> (b: bool)
    ensures
        b == names@.map_values(|s: String| s@).contains(n@),
{
    let mut i: usize = 0;
    while i < names.len()
        invariant
            i <= names@.len(),
            forall|j: int| 0 <= j < i ==> (#[trigger] names@[j])@ != n@,
        decreases names.len() - i,
    {
        if str_eq(names[i].as_str(), n) {
            assert(names@.map_values(|s: String| s@)[i as int] == n@);
            return true;
        }
        i = i + 1;
    }
    proof {
        let vs = names@.map_values(|s: String| s@);
        if vs.contains(n@) {
            let k = choose|k: int| 0 <= k < vs.len() && #[trigger] vs[k] == n@;
            assert(names@[k]@ == n@);
        }
    }
    false
}

/// The battery service's decisions.
pub struct BatteryService;

impl BatteryService {
    /// Whether a signal's path is one the monitor listens to.
    pub fn is_valid_path(path: &str) -> (b: bool)
        ensures
            b == battery_path(path@),
    {
        let p = chars_of(path);
        let prefix = chars_of("/org/freedesktop/UPower/devices/battery_");
        str_eq(path, UPOWER_DISPLAY_DEVICE_PATH) || str_eq(path, UPOWER_PATH_BASE) || starts_with_text(
            p.as_slice(),
            prefix.as_slice(),
        )
    }

    /// Whether a change of properties concerns the battery.
    pub fn is_relevant(interface_name: &str, changed_properties: &Vec<String>) -> (b: bool)
        ensures
            b == relevant_change(interface_name@, changed_properties@.map_values(|s: String| s@)),
    {
        (str_eq(interface_name, "org.freedesktop.UPower.Device") && (names_contain(
            changed_properties,
            "Percentage",
        ) || names_contain(changed_properties, "State"))) || (str_eq(
            interface_name,
            "org.freedesktop.UPower",
        ) && names_contain(changed_properties, "OnBattery"))
    }

    /// Whether a UPower device state means charging: 1 (charging) or 5
    /// (pending charge).
    pub fn is_charging(state_code: u32) -> (b: bool)
        ensures
            b == (state_code == 1 || state_code == 5),
    {
        state_code == 1 || state_code == 5
    }
}

} // verus!
