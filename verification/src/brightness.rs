//! Screen brightness: reading the backlight's values, and when a change is
//! announced.
use vstd::prelude::*;
use crate::text::{chars_of, parse_u32, parsed_u32, trim_text, trimmed};

verus! {

/// A change written by the service is not read back within this many
/// milliseconds.
pub const DEBOUNCE_MS: u64 = 167;

/// What a backlight file holds: its trimmed text read as a `u32`.
pub open spec fn brightness_value(text: Seq<char>) -> Option<u32> {
    parsed_u32(trimmed(text))
}

/// The backlight's raw state.
pub struct BrightnessState {
    max_brightness: u32,
    current: u32,
}

impl BrightnessState {
    pub closed spec fn max(&self) -> u32 {
        self.max_brightness
    }

    pub closed spec fn current(&self) -> u32 {
        self.current
    }

    /// The value in a backlight file.
    pub fn read_brightness_value(text: &str) -> (r: Option<u32>)
        ensures
            r == brightness_value(text@),
    {
        let c = chars_of(text);
        let t = trim_text(c.as_slice());
        parse_u32(t.as_slice())
    }

    /// The state of a backlight device from its two files: maximum 100
    /// where unreadable, current half the maximum where unreadable; without
    /// a device, 100 and 50.
    pub fn from_files(device: Option<(Option<String>, Option<String>)>) -> (s: Self)
        ensures
            match device {
                None => s.max() == 100 && s.current() == 50,
                Some((max_text, cur_text)) => {
                    let m = match max_text {
                        Some(t) => match brightness_value(t@) {
                            Some(v) => v,
                            None => 100,
                        },
                        None => 100,
                    };
                    &&& s.max() == m
                    &&& s.current() == match cur_text {
                        Some(t) => match brightness_value(t@) {
                            Some(v) => v,
                            None => m / 2,
                        },
                        None => m / 2,
                    }
                },
            },
    {
        match device {
            None => BrightnessState { max_brightness: 100, current: 50 },
            Some((max_text, cur_text)) => {
                let m = match max_text {
                    Some(t) => match Self::read_brightness_value(t.as_str()) {
                        Some(v) => v,
                        None => 100,
                    },
                    None => 100,
                };
                let c = match cur_text {
                    Some(t) => match Self::read_brightness_value(t.as_str()) {
                        Some(v) => v,
                        None => m / 2,
                    },
                    None => m / 2,
                };
                BrightnessState { max_brightness: m, current: c }
            },
        }
    }

    pub fn max_brightness(&self) -> (m: u32)
        ensures
            m == self.max(),
    {
        self.max_brightness
    }

    pub fn current_brightness(&self) -> (c: u32)
        ensures
            c == self.current(),
    {
        self.current
    }

    /// The service wrote a raw value.
    pub fn set_raw(&mut self, raw: u32)
        ensures
            final(self).current() == raw,
            final(self).max() == old(self).max(),
    {
        self.current = raw;
    }

    /// A value read back from the device: stored and announced where it
    /// differs from the current one. Returns whether it is announced.
    pub fn observed(&mut self, value: u32) -> (changed: bool)
        ensures
            changed == (value != old(self).current()),
            final(self).current() == value,
            final(self).max() == old(self).max(),
    {
        let changed = value != self.current;
        self.current = value;
        changed
    }
}

/// Whether a file change is ignored: it follows the service's own write by
/// less than the debounce time.
pub fn should_ignore(ms_since_own_write: Option<u64>) -> (b: bool)
    ensures
        b == match ms_since_own_write {
            Some(ms) => ms < DEBOUNCE_MS,
            None => false,
        },
{
    match ms_since_own_write {
        Some(ms) => ms < DEBOUNCE_MS,
        None => false,
    }
}

} // verus!
