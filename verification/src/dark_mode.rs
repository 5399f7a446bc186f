//! Dark mode, kept in the `color-scheme` key of the `org.gnome.desktop.interface`
//! GSettings schema.
//!
//! Reading and writing GSettings is left to the caller; this module decides what
//! a stored scheme means and which scheme to store.
use vstd::prelude::*;
use crate::text::str_eq;

verus! {

/// The scheme value that selects dark mode.
pub open spec fn dark_value() -> Seq<char> {
    "prefer-dark"@
}

/// The scheme value that selects light mode.
pub open spec fn light_value() -> Seq<char> {
    "prefer-light"@
}

/// What a change of the stored scheme announces: dark, light, or nothing for
/// any other value.
pub open spec fn scheme_meaning(s: Seq<char>) -> Option<bool> {
    if s == dark_value() {
        Some(true)
    } else if s == light_value() {
        Some(false)
    } else {
        None
    }
}

pub struct DarkModeService;

impl DarkModeService {
    /// Whether dark mode is enabled, from the scheme read from GSettings; a
    /// failed read counts as disabled.
    pub fn is_enabled(scheme: Result<String, String>) -> (b: bool)
        ensures
            b == match scheme {
                Ok(s) => s@ == dark_value(),
                Err(_) => false,
            },
    {
        match scheme {
            Ok(s) => str_eq(s.as_str(), "prefer-dark"),
            Err(_) => false,
        }
    }

    /// The scheme to store to enable dark mode.
    pub fn enable() -> (s: &'static str)
        ensures
            s@ == dark_value(),
    {
        "prefer-dark"
    }

    /// The scheme to store to disable dark mode.
    pub fn disable() -> (s: &'static str)
        ensures
            s@ == light_value(),
    {
        "prefer-light"
    }

    /// The scheme to store to toggle dark mode, given the scheme read from
    /// GSettings: light when dark mode is enabled, dark otherwise.
    pub fn toggle(scheme: Result<String, String>) -> (s: &'static str)
        ensures
            s@ == (match scheme {
                Ok(c) if c@ == dark_value() => light_value(),
                _ => dark_value(),
            }),
    {
        if Self::is_enabled(scheme) {
            Self::disable()
        } else {
            Self::enable()
        }
    }

    /// What a change of the stored scheme to `scheme` announces.
    pub fn scheme_changed(scheme: &str) -> (r: Option<bool>)
        ensures
            r == scheme_meaning(scheme@),
    {
        if str_eq(scheme, "prefer-dark") {
            Some(true)
        } else if str_eq(scheme, "prefer-light") {
            Some(false)
        } else {
            None
        }
    }
}

/// Storing the scheme that `toggle` chooses flips whether dark mode is enabled.
pub proof fn law_toggle_flips(current: Seq<char>)
    ensures
        (if current == dark_value() {
            light_value()
        } else {
            dark_value()
        } == dark_value()) == (current != dark_value()),
{
    reveal_strlit("prefer-dark");
    reveal_strlit("prefer-light");
    assert(dark_value().len() != light_value().len());
}

} // verus!
