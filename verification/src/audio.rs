//! Audio: the sinks, the default one, and the commands the service sends.
use vstd::prelude::*;
use crate::text::str_eq;

verus! {

/// A sink, as far as the service reads one; its volume is the average raw
/// volume of its channels.
#[derive(Debug, Clone, PartialEq, Eq)]
pub struct AudioSink {
    pub name: String,
    pub description: String,
    pub volume_raw: u32,
    pub is_mute: bool,
}

/// Returned by `monitor_audio`; it holds nothing.
pub struct AudioMonitor;

/// Whether a port is available, as PulseAudio reports it.
#[derive(Debug, Clone, Copy, PartialEq, Eq, Structural)]
pub enum PortAvailability {
    Unknown,
    No,
    Yes,
}

/// The first sink with the given name, from index `i` on.
pub open spec fn sink_named_from(sinks: Seq<AudioSink>, name: Seq<char>, i: int) -> Option<int>
    decreases sinks.len() - i,
{
    if i < 0 || i >= sinks.len() {
        None
    } else if sinks[i].name@ == name {
        Some(i)
    } else {
        sink_named_from(sinks, name, i + 1)
    }
}

/// The first sink with the given name.
pub open spec fn sink_named(sinks: Seq<AudioSink>, name: Seq<char>) -> Option<int> {
    sink_named_from(sinks, name, 0)
}

/// The sink found under a name from index `i` on has that name, and no sink
/// before it (from `i`) does; none is found only where no sink from `i` on
/// has the name.
pub proof fn law_sink_named_is_first(sinks: Seq<AudioSink>, name: Seq<char>, i: int)
    requires
        0 <= i,
    ensures
        sink_named_from(sinks, name, i) matches Some(k) ==> {
            &&& i <= k < sinks.len()
            &&& sinks[k].name@ == name
            &&& forall|j: int| i <= j < k ==> (#[trigger] sinks[j]).name@ != name
        },
        sink_named_from(sinks, name, i) is None ==> forall|j: int| i <= j < sinks.len() ==> (#[trigger] sinks[j]).name@ != name,
    decreases sinks.len() - i,
{
    if i < sinks.len() && sinks[i].name@ != name {
        law_sink_named_is_first(sinks, name, i + 1);
    }
}

/// A sink is listed when some port of it is not unavailable.
pub fn sink_listed(ports: &Vec<PortAvailability>) -> (b: bool)
    ensures
        b == exists|i: int| 0 <= i < ports@.len() && ports@[i] != PortAvailability::No,
{
    let mut i: usize = 0;
    while i < ports.len()
        invariant
            i <= ports@.len(),
            forall|j: int| 0 <= j < i ==> ports@[j] == PortAvailability::No,
        decreases ports.len() - i,
    {
        if ports[i] != PortAvailability::No {
            return true;
        }
        i = i + 1;
    }
    false
}

fn find_sink(sinks: &Vec<AudioSink>, name: &str) -> (r: Option<usize>)
    ensures
        match r {
            Some(k) => k < sinks@.len() && sink_named(sinks@, name@) == Some(k as int),
            None => sink_named(sinks@, name@) is None,
        },
{
    let mut i: usize = 0;
    while i < sinks.len()
        invariant
            i <= sinks@.len(),
            sink_named(sinks@, name@) == sink_named_from(sinks@, name@, i as int),
        decreases sinks.len() - i,
    {
        if str_eq(sinks[i].name.as_str(), name) {
            return Some(i);
        }
        i = i + 1;
    }
    None
}

/// The audio state: the default sink's name, the listed sinks, and the
/// default sink's volume and mute state.
pub struct AudioState {
    default_sink_name: Option<String>,
    sinks: Vec<AudioSink>,
    volume_raw: u32,
    muted: bool,
}

impl AudioState {
    pub closed spec fn default_sink(&self) -> Option<Seq<char>> {
        crate::text::opt_text(self.default_sink_name)
    }

    pub closed spec fn sink_list(&self) -> Seq<AudioSink> {
        self.sinks@
    }

    pub closed spec fn current(&self) -> (u32, bool) {
        (self.volume_raw, self.muted)
    }

    /// No default sink, no sink, half volume (`half_raw`), not muted.
    pub fn new(half_raw: u32) -> (s: Self)
        ensures
            s.default_sink() is None,
            s.sink_list().len() == 0,
            s.current() == (half_raw, false),
    {
        AudioState { default_sink_name: None, sinks: Vec::new(), volume_raw: half_raw, muted: false }
    }

    /// The server named its default sink.
    pub fn server_info(&mut self, default_sink_name: Option<String>)
        ensures
            final(self).default_sink() == crate::text::opt_text(default_sink_name),
            final(self).sink_list() == old(self).sink_list(),
            final(self).current() == old(self).current(),
    {
        self.default_sink_name = default_sink_name;
    }

    /// The server listed its sinks: they replace the list, and where the
    /// default sink is among them its volume and mute state become current
    /// and are returned (the service then calls its handlers).
    pub fn sinks_listed(&mut self, sinks: Vec<AudioSink>) -> (r: Option<(u32, bool)>)
        ensures
            final(self).sink_list() == sinks@,
            final(self).default_sink() == old(self).default_sink(),
            match old(self).default_sink() {
                Some(n) => match sink_named(sinks@, n) {
                    Some(k) => r == Some((sinks@[k].volume_raw, sinks@[k].is_mute)) && final(self).current() == r.unwrap(),
                    None => r is None && final(self).current() == old(self).current(),
                },
                None => r is None && final(self).current() == old(self).current(),
            },
    {
        self.sinks = sinks;
        match &self.default_sink_name {
            Some(n) => match find_sink(&self.sinks, n.as_str()) {
                Some(k) => {
                    let v = self.sinks[k].volume_raw;
                    let m = self.sinks[k].is_mute;
                    self.volume_raw = v;
                    self.muted = m;
                    Some((v, m))
                },
                None => None,
            },
            None => None,
        }
    }

    pub fn is_muted(&self) -> (b: bool)
        ensures
            b == self.current().1,
    {
        self.muted
    }

    pub fn volume_raw(&self) -> (v: u32)
        ensures
            v == self.current().0,
    {
        self.volume_raw
    }

    /// The mute command for toggling: the default sink and the opposite of
    /// the current mute state; none without a default sink.
    pub fn toggle_mute_command(&self) -> (r: Option<(String, bool)>)
        ensures
            match self.default_sink() {
                Some(n) => r matches Some(c) && c.0@ == n && c.1 == !self.current().1,
                None => r is None,
            },
    {
        match &self.default_sink_name {
            Some(n) => Some((n.clone(), !self.muted)),
            None => None,
        }
    }

    /// The sink whose volume a volume change applies to: the default sink,
    /// where it is listed.
    pub fn volume_target(&self) -> (r: Option<&AudioSink>)
        ensures
            match self.default_sink() {
                Some(n) => match sink_named(self.sink_list(), n) {
                    Some(k) => r == Some(&self.sink_list()[k]),
                    None => r is None,
                },
                None => r is None,
            },
    {
        match &self.default_sink_name {
            Some(n) => match find_sink(&self.sinks, n.as_str()) {
                Some(k) => Some(&self.sinks[k]),
                None => None,
            },
            None => None,
        }
    }
}

} // verus!
