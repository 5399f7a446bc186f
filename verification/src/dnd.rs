//! Do Not Disturb, kept (negated) in the `show-banners` key of the
//! `org.gnome.desktop.notifications` GSettings schema.
//!
//! The service caches the state; reading and writing GSettings is left to the
//! caller, who stores the `show-banners` values this module hands back.
use vstd::prelude::*;

verus! {

/// DND service: caches whether Do Not Disturb is on.
pub struct DndService {
    dont_disturb: bool,
}

impl DndService {
    /// The cached state.
    pub closed spec fn state(&self) -> bool {
        self.dont_disturb
    }

    /// Create the service from the `show-banners` value read at start; a failed
    /// read counts as banners shown (DND off).
    pub fn new(show_banners: Result<bool, String>) -> (s: Self)
        ensures
            s.state() == match show_banners {
                Ok(b) => !b,
                Err(_) => false,
            },
    {
        let shown = match show_banners {
            Ok(b) => b,
            Err(_) => true,
        };
        DndService { dont_disturb: !shown }
    }

    /// Get the cached DND state.
    pub fn get_dont_disturb(&self) -> (b: bool)
        ensures
            b == self.state(),
    {
        self.dont_disturb
    }

    /// Set DND: the cached state becomes `enabled`, and the `show-banners` value
    /// to store is returned.
    pub fn set_dont_disturb(&mut self, enabled: bool) -> (show_banners: bool)
        ensures
            final(self).state() == enabled,
            show_banners == !enabled,
    {
        self.dont_disturb = enabled;
        !enabled
    }

    /// Toggle DND; the `show-banners` value to store is returned.
    pub fn toggle_dont_disturb(&mut self) -> (show_banners: bool)
        ensures
            final(self).state() == !old(self).state(),
            show_banners == old(self).state(),
    {
        let current = self.get_dont_disturb();
        self.set_dont_disturb(!current)
    }

    /// Record a change of `show-banners` seen by the monitor; returns the DND
    /// state to announce and whether it differs from the cached one.
    pub fn banners_changed(&mut self, show_banners: bool) -> (r: (bool, bool))
        ensures
            final(self).state() == !show_banners,
            r.0 == !show_banners,
            r.1 == (old(self).state() != !show_banners),
    {
        let enabled = !show_banners;
        let changed = self.dont_disturb != enabled;
        self.dont_disturb = enabled;
        (enabled, changed)
    }
}

/// Toggling twice restores the state: `before`, `middle` and `after` are the
/// service before and after each of two `toggle_dont_disturb` calls.
pub proof fn law_toggle_twice(before: DndService, middle: DndService, after: DndService)
    requires
        middle.state() == !before.state(),
        after.state() == !middle.state(),
    ensures
        after.state() == before.state(),
{
}

} // verus!
