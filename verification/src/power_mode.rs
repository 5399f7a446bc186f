//! Power profile of power-profiles-daemon.
//!
//! Talking to the daemon over D-Bus is left to the caller; this module maps
//! profile names and keeps the cached active profile.
use vstd::prelude::*;
use crate::text::str_eq;

verus! {

#[derive(Debug, Clone, Copy, PartialEq, Eq, Structural)]
pub enum PowerProfile {
    PowerSaver,
    Balanced,
    Performance,
}

/// The daemon's name of a profile.
pub open spec fn profile_name(p: PowerProfile) -> Seq<char> {
    match p {
        PowerProfile::PowerSaver => "power-saver"@,
        PowerProfile::Balanced => "balanced"@,
        PowerProfile::Performance => "performance"@,
    }
}

/// The profile a name selects: any unknown name selects balanced.
pub open spec fn profile_of(s: Seq<char>) -> PowerProfile {
    if s == "power-saver"@ {
        PowerProfile::PowerSaver
    } else if s == "performance"@ {
        PowerProfile::Performance
    } else {
        PowerProfile::Balanced
    }
}

impl PowerProfile {
    pub fn from_str(value: &str) -> (p: Self)
        ensures
            p == profile_of(value@),
    {
        if str_eq(value, "power-saver") {
            PowerProfile::PowerSaver
        } else if str_eq(value, "performance") {
            PowerProfile::Performance
        } else {
            PowerProfile::Balanced
        }
    }

    pub fn as_str(&self) -> (s: &'static str)
        ensures
            s@ == profile_name(*self),
    {
        match self {
            PowerProfile::PowerSaver => "power-saver",
            PowerProfile::Balanced => "balanced",
            PowerProfile::Performance => "performance",
        }
    }
}

/// Cached state of the power profile service.
pub struct PowerModeService {
    active_profile: PowerProfile,
}

impl PowerModeService {
    pub closed spec fn active(&self) -> PowerProfile {
        self.active_profile
    }

    /// The profile to start with, from reading the daemon's `ActiveProfile`: a
    /// failed read gives balanced.
    pub fn profile_from_reading(reading: Result<String, String>) -> (p: PowerProfile)
        ensures
            p == match reading {
                Ok(s) => profile_of(s@),
                Err(_) => PowerProfile::Balanced,
            },
    {
        match reading {
            Ok(s) => PowerProfile::from_str(s.as_str()),
            Err(_) => PowerProfile::Balanced,
        }
    }

    /// Create the service from reading the daemon's `ActiveProfile`.
    pub fn new(reading: Result<String, String>) -> (s: Self)
        ensures
            s.active() == match reading {
                Ok(r) => profile_of(r@),
                Err(_) => PowerProfile::Balanced,
            },
    {
        PowerModeService { active_profile: Self::profile_from_reading(reading) }
    }

    pub fn get_active_profile(&self) -> (p: PowerProfile)
        ensures
            p == self.active(),
    {
        self.active_profile
    }

    /// Record the outcome of asking the daemon to switch to `profile`: the cached
    /// profile changes only when the daemon accepted it, and its error is passed
    /// on otherwise.
    pub fn set_active_profile(&mut self, profile: PowerProfile, outcome: Result<(), String>) -> (r:
        Result<(), String>)
        ensures
            outcome is Ok ==> final(self).active() == profile && r is Ok,
            outcome is Err ==> final(self).active() == old(self).active() && r == outcome,
    {
        match outcome {
            Ok(()) => {
                self.active_profile = profile;
                Ok(())
            },
            Err(e) => Err(e),
        }
    }

    /// Record a change of `ActiveProfile` announced by the daemon; returns the
    /// new profile when it differs from the cached one.
    pub fn profile_changed(&mut self, name: &str) -> (r: Option<PowerProfile>)
        ensures
            final(self).active() == profile_of(name@),
            r == (if profile_of(name@) != old(self).active() {
                Some(profile_of(name@))
            } else {
                None
            }),
    {
        let p = PowerProfile::from_str(name);
        if p != self.active_profile {
            self.active_profile = p;
            Some(p)
        } else {
            None
        }
    }
}

/// Every profile is read back from its name.
pub proof fn law_profile_round_trip(p: PowerProfile)
    ensures
        profile_of(profile_name(p)) == p,
{
    reveal_strlit("power-saver");
    reveal_strlit("balanced");
    reveal_strlit("performance");
    assert("power-saver"@[0] == 'p' && "performance"@[0] == 'p');
    assert("power-saver"@.len() == 11 && "performance"@.len() == 11 && "balanced"@.len() == 8);
    assert("power-saver"@[1] == 'o' && "performance"@[1] == 'e');
}

} // verus!
