//! Network state from the `ip` and `iw` tools, and the monitor that reports
//! changes of it.
//!
//! Running the commands is left to the caller: `NetworkService::plan` reads the
//! output of `ip -br link show up` and `ip route show default` and either
//! settles the state or names the wireless interface to ask `iw dev <if> link`
//! about; `NetworkService::after_iw` finishes from that answer.
use vstd::prelude::*;
use crate::text::{
    text_lines, lines_of,
    begins_with, chars_of, contains_text, has_sub, lemma_pieces_nonempty, opt_text, parse_i32,
    parsed_i32, pieces, push_chars, split_text, split_words, starts_with_text, str_eq, string_of,
    text_is, trim_text, trimmed, words,
};

verus! {

#[derive(Debug, Clone, Copy, PartialEq, Eq, Structural)]
pub enum NetworkType {
    Wired,
    Wifi,
    Disconnected,
}

#[derive(Debug)]
pub struct NetworkState {
    pub network_type: NetworkType,
    pub connected: bool,
    pub wifi_strength: u8,
    pub interface: Option<String>,
}

/// A network state with the interface name as a character sequence.
pub struct NetworkStateView {
    pub network_type: NetworkType,
    pub connected: bool,
    pub wifi_strength: u8,
    pub interface: Option<Seq<char>>,
}

impl View for NetworkState {
    type V = NetworkStateView;

    open spec fn view(&self) -> NetworkStateView {
        NetworkStateView {
            network_type: self.network_type,
            connected: self.connected,
            wifi_strength: self.wifi_strength,
            interface: opt_text(self.interface),
        }
    }
}

pub open spec fn state_of(t: NetworkType, connected: bool, strength: u8, interface: Option<Seq<char>>) -> NetworkStateView {
    NetworkStateView { network_type: t, connected, wifi_strength: strength, interface }
}

/// The state when no interface is up.
pub open spec fn no_network() -> NetworkStateView {
    state_of(NetworkType::Disconnected, false, 0, None)
}

// ---------------------------------------------------------------------------
// Signal strength
// ---------------------------------------------------------------------------
/// The value following the first `signal:` token of a line whose next token
/// parses as an `i32`, searching from token `i`.
pub open spec fn dbm_in_tokens(toks: Seq<Seq<char>>, i: int) -> Option<i32>
    decreases toks.len() - i,
{
    if i < 0 || i >= toks.len() {
        None
    } else if toks[i] == "signal:"@ && i + 1 < toks.len() && parsed_i32(toks[i + 1]) is Some {
        parsed_i32(toks[i + 1])
    } else {
        dbm_in_tokens(toks, i + 1)
    }
}

/// The signal level in the first line, from line `k` on, that mentions
/// `signal:` and yields one.
pub open spec fn dbm_in_lines(ls: Seq<Seq<char>>, k: int) -> Option<i32>
    decreases ls.len() - k,
{
    if k < 0 || k >= ls.len() {
        None
    } else if has_sub(ls[k], "signal:"@) && dbm_in_tokens(words(ls[k]), 0) is Some {
        dbm_in_tokens(words(ls[k]), 0)
    } else {
        dbm_in_lines(ls, k + 1)
    }
}

/// The signal level (dBm) that `iw dev <if> link` reports.
pub open spec fn signal_dbm(iw: Seq<char>) -> Option<i32> {
    dbm_in_lines(text_lines(iw), 0)
}

/// Percentage for a signal level: -90 dBm and below is 0 %, -30 dBm and above
/// is 100 %, linear (rounded down) in between.
pub open spec fn strength_for(dbm: int) -> u8 {
    let x = dbm + 90;
    if x <= 0 {
        0
    } else if x >= 60 {
        100
    } else {
        ((x * 100) / 60) as u8
    }
}

/// The strength is a percentage, and a stronger signal never reads as a
/// lower one.
pub proof fn law_strength_monotone(a: int, b: int)
    requires
        a <= b,
    ensures
        strength_for(a) <= strength_for(b),
        strength_for(b) <= 100,
{
    let xa = a + 90;
    let xb = b + 90;
    if 0 < xb && xb < 60 {
        assert(0 <= (xb * 100) / 60 < 100) by (nonlinear_arith)
            requires
                0 < xb < 60,
        ;
    }
    if 0 < xa && xa < 60 {
        assert(0 <= (xa * 100) / 60 < 100) by (nonlinear_arith)
            requires
                0 < xa < 60,
        ;
    }
    if 0 < xa && xb < 60 {
        assert((xa * 100) / 60 <= (xb * 100) / 60) by (nonlinear_arith)
            requires
                0 < xa <= xb,
        ;
    }
}

/// The strength reported for an `iw` answer: 50 % when no level can be read.
pub open spec fn strength_of(iw: Seq<char>) -> u8 {
    match signal_dbm(iw) {
        Some(d) => strength_for(d as int),
        None => 50,
    }
}

/// With no level in the answer the strength reads 50 %.
pub proof fn law_strength_without_level(iw: Seq<char>)
    requires
        signal_dbm(iw) is None,
    ensures
        strength_of(iw) == 50,
{
}

/// The percentage for a reported level `d`: 0 at or below -90 dBm, 100 at or
/// above -30 dBm, and in between `(d + 90) * 100 / 60` rounded down, so that
/// any level whose `(d + 90) * 100` reaches 60 reads above 0 %.
pub proof fn law_strength_of_level(iw: Seq<char>, d: int)
    requires
        signal_dbm(iw) == Some(d as i32),
        i32::MIN <= d <= i32::MAX,
    ensures
        d <= -90 ==> strength_of(iw) == 0,
        d >= -30 ==> strength_of(iw) == 100,
        -90 < d < -30 ==> strength_of(iw) * 60 <= (d + 90) * 100 < (strength_of(iw) + 1) * 60,
        (d + 90) * 100 >= 60 ==> strength_of(iw) > 0,
{
    let x = d + 90;
    if 0 < x && x < 60 {
        let q = (x * 100) / 60;
        assert(0 <= q < 100 && q * 60 <= x * 100 < (q + 1) * 60) by (nonlinear_arith)
            requires
                0 < x < 60,
                q == (x * 100) / 60,
        ;
        assert(strength_for(d) == q);
    }
}

fn dbm_from_tokens(toks: &Vec<Vec<char>>, ghost_toks: Ghost<Seq<Seq<char>>>) -> (r: Option<i32>)
    requires
        toks@.len() == ghost_toks@.len(),
        forall|i: int| 0 <= i < toks@.len() ==> #[trigger] toks@[i]@ == ghost_toks@[i],
    ensures
        r == dbm_in_tokens(ghost_toks@, 0),
{
    let ghost g = ghost_toks@;
    let n = toks.len();
    let mut i: usize = 0;
    while i < n
        invariant
            n == toks@.len(),
            g == ghost_toks@,
            toks@.len() == g.len(),
            forall|k: int| 0 <= k < toks@.len() ==> #[trigger] toks@[k]@ == g[k],
            i <= n,
            dbm_in_tokens(g, 0) == dbm_in_tokens(g, i as int),
        decreases n - i,
    {
        assert(toks@[i as int]@ == g[i as int]);
        if text_is(toks[i].as_slice(), "signal:") && i + 1 < n {
            let v = parse_i32(toks[i + 1].as_slice());
            assert(toks@[i + 1]@ == g[i + 1]);
            if v.is_some() {
                assert(dbm_in_tokens(g, i as int) == v);
                return v;
            }
        }
        i = i + 1;
    }
    None
}

impl NetworkService {
    /// The signal level that `iw dev <if> link` reports: the value after the
    /// first `signal:` token that parses as an integer.
    pub fn extract_signal_dbm(iw_output: &str) -> (r: Option<i32>)
        ensures
            r == signal_dbm(iw_output@),
    {
        let chars = chars_of(iw_output);
        let ls = lines_of(chars.as_slice());
        let ghost gl = text_lines(iw_output@);
        let pat = chars_of("signal:");
        let mut k: usize = 0;
        while k < ls.len()
            invariant
                ls@.len() == gl.len(),
                gl == text_lines(iw_output@),
                forall|i: int| 0 <= i < ls@.len() ==> #[trigger] ls@[i]@ == gl[i],
                pat@ == "signal:"@,
                k <= ls@.len(),
                dbm_in_lines(gl, 0) == dbm_in_lines(gl, k as int),
            decreases ls.len() - k,
        {
            let line = &ls[k];
            assert(ls@[k as int]@ == gl[k as int]);
            if contains_text(line.as_slice(), pat.as_slice()) {
                let toks = split_words(line.as_slice());
                let d = dbm_from_tokens(&toks, Ghost(words(gl[k as int])));
                if d.is_some() {
                    assert(dbm_in_lines(gl, k as int) == d);
                    return d;
                }
            }
            k = k + 1;
        }
        None
    }

    /// The wifi strength percentage for an `iw dev <if> link` answer.
    pub fn parse_wifi_strength(iw_output: &str) -> (s: u8)
        ensures
            s == strength_of(iw_output@),
    {
        match Self::extract_signal_dbm(iw_output) {
            Some(dbm) => {
                let x: i64 = dbm as i64 + 90;
                if x <= 0 {
                    0
                } else if x >= 60 {
                    100
                } else {
                    ((x * 100) / 60) as u8
                }
            },
            None => 50,
        }
    }
}

// ---------------------------------------------------------------------------
// Classifying interfaces
// ---------------------------------------------------------------------------
/// A line of `ip -br link` for a wired interface.
pub open spec fn is_wired_line(l: Seq<char>) -> bool {
    !begins_with(l, "lo"@) && (has_sub(l, "eth"@) || has_sub(l, "enp"@) || has_sub(l, "eno"@))
}

/// A line of `ip -br link` for a wireless interface.
pub open spec fn is_wifi_line(l: Seq<char>) -> bool {
    !begins_with(l, "lo"@) && (has_sub(l, "wlan"@) || has_sub(l, "wlp"@))
}

/// The first line from `k` on that is wired (`wired`) or wireless.
pub open spec fn first_line(ls: Seq<Seq<char>>, wired: bool, k: int) -> Option<Seq<char>>
    decreases ls.len() - k,
{
    if k < 0 || k >= ls.len() {
        None
    } else if (wired && is_wired_line(ls[k])) || (!wired && is_wifi_line(ls[k])) {
        Some(ls[k])
    } else {
        first_line(ls, wired, k + 1)
    }
}

/// The interface name of a line: its first word.
pub open spec fn first_word(l: Seq<char>) -> Option<Seq<char>> {
    if words(l).len() > 0 {
        Some(words(l)[0])
    } else {
        None
    }
}

/// The lines of `ip -br link show up`.
pub open spec fn link_lines(link: Seq<char>) -> Seq<Seq<char>> {
    pieces(trimmed(link), '\n')
}

/// What the `ip` outputs decide.
pub enum PlanView {
    /// The state is settled (`None`: a name could not be read).
    Done(Option<NetworkStateView>),
    /// Ask `iw` about this wireless interface.
    QueryIw(Seq<char>, bool),
}

/// The decision from the outputs of `ip -br link show up` and
/// `ip route show default`.
pub open spec fn plan_of(link: Seq<char>, route: Seq<char>) -> PlanView {
    let ls = link_lines(link);
    let wifi = first_line(ls, false, 0);
    let wired = first_line(ls, true, 0);
    let has_default_route = trimmed(route).len() > 0;
    if !has_default_route {
        match wifi {
            Some(l) => match first_word(l) {
                Some(name) => PlanView::QueryIw(name, false),
                None => PlanView::Done(None),
            },
            None => match wired {
                Some(l) => match first_word(l) {
                    Some(name) => PlanView::Done(
                        Some(state_of(NetworkType::Wired, false, 0, Some(name))),
                    ),
                    None => PlanView::Done(None),
                },
                None => PlanView::Done(Some(no_network())),
            },
        }
    } else if wired is Some && (has_sub(route, "eth"@) || has_sub(route, "enp"@) || has_sub(
        route,
        "eno"@,
    )) {
        match first_word(wired->0) {
            Some(name) => PlanView::Done(Some(state_of(NetworkType::Wired, true, 0, Some(name)))),
            None => PlanView::Done(None),
        }
    } else {
        match wifi {
            Some(l) => match first_word(l) {
                Some(name) => PlanView::QueryIw(name, true),
                None => PlanView::Done(None),
            },
            None => PlanView::Done(Some(no_network())),
        }
    }
}

/// The state once `iw` has answered (`None`: the command could not run).
pub open spec fn state_after_iw(name: Seq<char>, has_default_route: bool, iw: Option<Seq<char>>) -> NetworkStateView {
    if !has_default_route {
        match iw {
            Some(out) => if !has_sub(out, "Not connected"@) && has_sub(out, "Connected to"@) {
                state_of(NetworkType::Wifi, true, strength_of(out), Some(name))
            } else {
                state_of(NetworkType::Wifi, false, 0, Some(name))
            },
            None => state_of(NetworkType::Wifi, false, 0, Some(name)),
        }
    } else {
        match iw {
            Some(out) => if has_sub(out, "Not connected"@) {
                state_of(NetworkType::Wifi, false, 0, Some(name))
            } else {
                state_of(NetworkType::Wifi, true, strength_of(out), Some(name))
            },
            None => state_of(NetworkType::Wifi, true, 50, Some(name)),
        }
    }
}

/// A state that hangs together: no interface exactly when there is no
/// network, which is never connected; no strength unless connected over
/// Wi-Fi; a strength is a percentage.
pub open spec fn state_consistent(s: NetworkStateView) -> bool {
    &&& (s.network_type == NetworkType::Disconnected <==> s.interface is None)
    &&& (s.network_type == NetworkType::Disconnected ==> !s.connected)
    &&& (!s.connected ==> s.wifi_strength == 0)
    &&& (s.network_type != NetworkType::Wifi ==> s.wifi_strength == 0)
    &&& s.wifi_strength <= 100
}

/// Every state that the `ip` outputs decide, and every state after `iw`
/// has answered, hangs together.
pub proof fn law_network_state_consistent(link: Seq<char>, route: Seq<char>, name: Seq<char>, has_default_route: bool, iw: Option<Seq<char>>)
    ensures
        plan_of(link, route) matches PlanView::Done(Some(s)) ==> state_consistent(s),
        state_consistent(state_after_iw(name, has_default_route, iw)),
{
    if let Some(out) = iw {
        if let Some(d) = signal_dbm(out) {
            law_strength_monotone(d as int, d as int);
        }
    }
}

/// What the `ip` outputs decide.
pub enum NetworkPlan {
    Done(Option<NetworkState>),
    QueryIw { interface: String, has_default_route: bool },
}

impl View for NetworkPlan {
    type V = PlanView;

    open spec fn view(&self) -> PlanView {
        match self {
            NetworkPlan::Done(Some(s)) => PlanView::Done(Some(s@)),
            NetworkPlan::Done(None) => PlanView::Done(None),
            NetworkPlan::QueryIw { interface, has_default_route } => PlanView::QueryIw(
                interface@,
                *has_default_route,
            ),
        }
    }
}

fn first_line_exec(ls: &Vec<Vec<char>>, wired: bool, g: Ghost<Seq<Seq<char>>>) -> (r: Option<
    usize,
>)
    requires
        ls@.len() == g@.len(),
        forall|i: int| 0 <= i < ls@.len() ==> #[trigger] ls@[i]@ == g@[i],
    ensures
        match r {
            Some(i) => i < ls@.len() && first_line(g@, wired, 0) == Some(g@[i as int]),
            None => first_line(g@, wired, 0) is None,
        },
{
    let lo = chars_of("lo");
    let eth = chars_of("eth");
    let enp = chars_of("enp");
    let eno = chars_of("eno");
    let wlan = chars_of("wlan");
    let wlp = chars_of("wlp");
    let mut k: usize = 0;
    while k < ls.len()
        invariant
            ls@.len() == g@.len(),
            forall|i: int| 0 <= i < ls@.len() ==> #[trigger] ls@[i]@ == g@[i],
            lo@ == "lo"@,
            eth@ == "eth"@,
            enp@ == "enp"@,
            eno@ == "eno"@,
            wlan@ == "wlan"@,
            wlp@ == "wlp"@,
            k <= ls@.len(),
            first_line(g@, wired, 0) == first_line(g@, wired, k as int),
        decreases ls.len() - k,
    {
        let l = ls[k].as_slice();
        assert(ls@[k as int]@ == g@[k as int]);
        let not_lo = !starts_with_text(l, lo.as_slice());
        let hit = if wired {
            not_lo && (contains_text(l, eth.as_slice()) || contains_text(l, enp.as_slice())
                || contains_text(l, eno.as_slice()))
        } else {
            not_lo && (contains_text(l, wlan.as_slice()) || contains_text(l, wlp.as_slice()))
        };
        if hit {
            return Some(k);
        }
        k = k + 1;
    }
    None
}

fn first_word_exec(l: &[char]) -> (r: Option<String>)
    ensures
        opt_text(r) == first_word(l@),
{
    let ws = split_words(l);
    if ws.len() > 0 {
        Some(string_of(ws[0].as_slice()))
    } else {
        None
    }
}

/// NetworkService: the cached network state.
pub struct NetworkService {
    network_type: NetworkType,
    connected: bool,
    wifi_strength: u8,
    interface: Option<String>,
}

impl NetworkService {
    pub closed spec fn state(&self) -> NetworkStateView {
        state_of(self.network_type, self.connected, self.wifi_strength, opt_text(self.interface))
    }

    /// Create the service; the probed state, if any, replaces the initial
    /// "no network" state.
    pub fn new(probe: Option<NetworkState>) -> (s: Self)
        ensures
            s.state() == match probe {
                Some(p) => p@,
                None => no_network(),
            },
    {
        let mut s = NetworkService {
            network_type: NetworkType::Disconnected,
            connected: false,
            wifi_strength: 0,
            interface: None,
        };
        s.refresh_state(probe);
        s
    }

    /// Get current network state.
    pub fn get_state(&self) -> (s: NetworkState)
        ensures
            s@ == self.state(),
    {
        let interface = match &self.interface {
            Some(i) => Some(i.clone()),
            None => None,
        };
        NetworkState {
            network_type: self.network_type,
            connected: self.connected,
            wifi_strength: self.wifi_strength,
            interface,
        }
    }

    /// Store a freshly probed state; `None` (the probe failed) keeps the old
    /// one. Returns whether a state was stored.
    pub fn refresh_state(&mut self, probe: Option<NetworkState>) -> (ok: bool)
        ensures
            ok == probe is Some,
            probe is None ==> *final(self) == *old(self),
            final(self).state() == match probe {
                Some(p) => p@,
                None => old(self).state(),
            },
    {
        match probe {
            Some(p) => {
                self.network_type = p.network_type;
                self.connected = p.connected;
                self.wifi_strength = p.wifi_strength;
                self.interface = p.interface;
                true
            },
            None => false,
        }
    }

    /// A service holding the same state.
    pub fn clone_service(&self) -> (s: Self)
        ensures
            s.state() == self.state(),
    {
        let st = self.get_state();
        let mut s = NetworkService {
            network_type: NetworkType::Disconnected,
            connected: false,
            wifi_strength: 0,
            interface: None,
        };
        s.refresh_state(Some(st));
        s
    }

    /// Create a monitor that reports changes, starting from the current state.
    pub fn monitor_network(&self) -> (m: NetworkMonitor)
        ensures
            m.service().state() == self.state(),
            m.last() == (self.state().network_type, self.state().connected, self.state().wifi_strength),
    {
        NetworkMonitor {
            service: self.clone_service(),
            last_type: self.network_type,
            last_connected: self.connected,
            last_strength: self.wifi_strength,
        }
    }

    /// Decide from the outputs of `ip -br link show up` and `ip route show default`.
    pub fn plan(link_output: &str, route_output: &str) -> (p: NetworkPlan)
        ensures
            p@ == plan_of(link_output@, route_output@),
    {
        let link = chars_of(link_output);
        let trimmed_link = trim_text(link.as_slice());
        let ls = split_text(trimmed_link.as_slice(), '\n');
        let ghost gl = link_lines(link_output@);
        let route = chars_of(route_output);
        let trimmed_route = trim_text(route.as_slice());
        let has_default_route = trimmed_route.len() > 0;
        let wifi = first_line_exec(&ls, false, Ghost(gl));
        let wired = first_line_exec(&ls, true, Ghost(gl));
        if !has_default_route {
            match wifi {
                Some(i) => {
                    assert(ls@[i as int]@ == gl[i as int]);
                    match first_word_exec(ls[i].as_slice()) {
                        Some(name) => NetworkPlan::QueryIw { interface: name, has_default_route: false },
                        None => NetworkPlan::Done(None),
                    }
                },
                None => match wired {
                    Some(i) => {
                        assert(ls@[i as int]@ == gl[i as int]);
                        match first_word_exec(ls[i].as_slice()) {
                            Some(name) => NetworkPlan::Done(
                                Some(
                                    NetworkState {
                                        network_type: NetworkType::Wired,
                                        connected: false,
                                        wifi_strength: 0,
                                        interface: Some(name),
                                    },
                                ),
                            ),
                            None => NetworkPlan::Done(None),
                        }
                    },
                    None => NetworkPlan::Done(
                        Some(
                            NetworkState {
                                network_type: NetworkType::Disconnected,
                                connected: false,
                                wifi_strength: 0,
                                interface: None,
                            },
                        ),
                    ),
                },
            }
        } else {
            let eth = chars_of("eth");
            let enp = chars_of("enp");
            let eno = chars_of("eno");
            let route_wired = contains_text(route.as_slice(), eth.as_slice()) || contains_text(
                route.as_slice(),
                enp.as_slice(),
            ) || contains_text(route.as_slice(), eno.as_slice());
            if wired.is_some() && route_wired {
                let i = wired.unwrap();
                assert(ls@[i as int]@ == gl[i as int]);
                match first_word_exec(ls[i].as_slice()) {
                    Some(name) => NetworkPlan::Done(
                        Some(
                            NetworkState {
                                network_type: NetworkType::Wired,
                                connected: true,
                                wifi_strength: 0,
                                interface: Some(name),
                            },
                        ),
                    ),
                    None => NetworkPlan::Done(None),
                }
            } else {
                match wifi {
                    Some(i) => {
                        assert(ls@[i as int]@ == gl[i as int]);
                        match first_word_exec(ls[i].as_slice()) {
                            Some(name) => NetworkPlan::QueryIw {
                                interface: name,
                                has_default_route: true,
                            },
                            None => NetworkPlan::Done(None),
                        }
                    },
                    None => NetworkPlan::Done(
                        Some(
                            NetworkState {
                                network_type: NetworkType::Disconnected,
                                connected: false,
                                wifi_strength: 0,
                                interface: None,
                            },
                        ),
                    ),
                }
            }
        }
    }

    /// Finish the decision once `iw dev <interface> link` has answered
    /// (`None`: the command could not run).
    pub fn after_iw(interface: String, has_default_route: bool, iw_output: Option<String>) -> (s:
        NetworkState)
        ensures
            s@ == state_after_iw(interface@, has_default_route, opt_text(iw_output)),
    {
        let not_connected = chars_of("Not connected");
        let connected_to = chars_of("Connected to");
        match iw_output {
            Some(out) => {
                let o = chars_of(out.as_str());
                let nc = contains_text(o.as_slice(), not_connected.as_slice());
                if !has_default_route {
                    if !nc && contains_text(o.as_slice(), connected_to.as_slice()) {
                        let strength = Self::parse_wifi_strength(out.as_str());
                        NetworkState {
                            network_type: NetworkType::Wifi,
                            connected: true,
                            wifi_strength: strength,
                            interface: Some(interface),
                        }
                    } else {
                        NetworkState {
                            network_type: NetworkType::Wifi,
                            connected: false,
                            wifi_strength: 0,
                            interface: Some(interface),
                        }
                    }
                } else if nc {
                    NetworkState {
                        network_type: NetworkType::Wifi,
                        connected: false,
                        wifi_strength: 0,
                        interface: Some(interface),
                    }
                } else {
                    let strength = Self::parse_wifi_strength(out.as_str());
                    NetworkState {
                        network_type: NetworkType::Wifi,
                        connected: true,
                        wifi_strength: strength,
                        interface: Some(interface),
                    }
                }
            },
            None => NetworkState {
                network_type: NetworkType::Wifi,
                connected: has_default_route,
                wifi_strength: if has_default_route {
                    50
                } else {
                    0
                },
                interface: Some(interface),
            },
        }
    }

    /// Whether the wifi strength should be polled in this state.
    pub fn wifi_polling_wanted(state: &NetworkState) -> (b: bool)
        ensures
            b == (state.network_type == NetworkType::Wifi && state.connected),
    {
        state.network_type == NetworkType::Wifi && state.connected
    }

    /// Whether an iwd `PropertiesChanged` signal on `interface_name` with these
    /// changed properties calls for a refresh.
    pub fn iwd_change_is_relevant(interface_name: &str, changed: &Vec<String>) -> (b: bool)
        ensures
            b == ((interface_name@ == "net.connman.iwd.Station"@ && names_contain(changed@, "State"@))
                || (interface_name@ == "net.connman.iwd.Network"@ && names_contain(
                changed@,
                "Connected"@,
            )) || (interface_name@ == "net.connman.iwd.Adapter"@ && names_contain(
                changed@,
                "Powered"@,
            ))),
    {
        (str_eq(interface_name, "net.connman.iwd.Station") && contains_name(changed, "State")) || (
        str_eq(interface_name, "net.connman.iwd.Network") && contains_name(changed, "Connected"))
            || (str_eq(interface_name, "net.connman.iwd.Adapter") && contains_name(
            changed,
            "Powered",
        ))
    }
}

/// One of `names` is `n`.
pub open spec fn names_contain(names: Seq<String>, n: Seq<char>) -> bool {
    exists|i: int| 0 <= i < names.len() && #[trigger] names[i]@ == n
}

/// Whether one of `names` is `n`.
pub fn contains_name(names: &Vec<String>, n: &str) -> (b: bool)
    ensures
        b == names_contain(names@, n@),
{
    let mut i: usize = 0;
    while i < names.len()
        invariant
            i <= names@.len(),
            forall|j: int| 0 <= j < i ==> #[trigger] names@[j]@ != n@,
        decreases names.len() - i,
    {
        if str_eq(names[i].as_str(), n) {
            return true;
        }
        i = i + 1;
    }
    false
}

/// Whether a strength moved by more than 5 points.
pub open spec fn strength_moved(a: u8, b: u8) -> bool {
    if a >= b {
        a - b > 5
    } else {
        b - a > 5
    }
}

/// Monitor for network state changes.
pub struct NetworkMonitor {
    service: NetworkService,
    last_type: NetworkType,
    last_connected: bool,
    last_strength: u8,
}

impl NetworkMonitor {
    pub closed spec fn service(&self) -> NetworkService {
        self.service
    }

    /// The last reported type, connection and strength.
    pub closed spec fn last(&self) -> (NetworkType, bool, u8) {
        (self.last_type, self.last_connected, self.last_strength)
    }

    /// Store a freshly probed state and report it when the type or the
    /// connection changed or the strength moved by more than 5 points since the
    /// last report. A failed probe reports nothing and changes nothing.
    pub fn check(&mut self, probe: Option<NetworkState>) -> (report: Option<(NetworkType, bool, u8)>)
        ensures
            probe is None ==> report is None && *final(self) == *old(self),
            probe matches Some(p) ==> {
                let changed = state_changed(
                    old(self).last(),
                    (p.network_type, p.connected, p.wifi_strength),
                );
                &&& final(self).service().state() == p@
                &&& changed ==> report == Some((p.network_type, p.connected, p.wifi_strength))
                    && final(self).last() == (p.network_type, p.connected, p.wifi_strength)
                &&& !changed ==> report is None && final(self).last() == old(self).last()
            },
    {
        if !self.service.refresh_state(probe) {
            return None;
        }
        let state = self.service.get_state();
        let type_changed = state.network_type != self.last_type;
        let connected_changed = state.connected != self.last_connected;
        let diff = if state.wifi_strength >= self.last_strength {
            state.wifi_strength - self.last_strength
        } else {
            self.last_strength - state.wifi_strength
        };
        let strength_changed = diff > 5;
        if type_changed || connected_changed || strength_changed {
            self.last_type = state.network_type;
            self.last_connected = state.connected;
            self.last_strength = state.wifi_strength;
            Some((state.network_type, state.connected, state.wifi_strength))
        } else {
            None
        }
    }
}

/// Whether a probed (type, connected, strength) differs enough from the last
/// report to be reported.
pub open spec fn state_changed(last: (NetworkType, bool, u8), now: (NetworkType, bool, u8)) -> bool {
    now.0 != last.0 || now.1 != last.1 || strength_moved(now.2, last.2)
}

/// A report settles the monitor: once a state has been reported, the same
/// state probed again is no change.
pub proof fn law_report_settles(last: (NetworkType, bool, u8), now: (NetworkType, bool, u8))
    ensures
        !state_changed(now, now),
{
}

/// The hybrid monitor's decisions: whether the three-second poll is on,
/// which follows the state refreshed after the last relevant iwd change.
pub struct HybridMonitor {
    polling: bool,
}

impl HybridMonitor {
    pub closed spec fn spec_polling(&self) -> bool {
        self.polling
    }

    /// A monitor that does not poll until an iwd change says so.
    pub fn new() -> (m: Self)
        ensures
            !m.spec_polling(),
    {
        HybridMonitor { polling: false }
    }

    /// Whether the poll is on.
    pub fn polling(&self) -> (b: bool)
        ensures
            b == self.spec_polling(),
    {
        self.polling
    }

    /// A relevant iwd change was followed by a refresh that read `state`: the
    /// state is reported, and the poll is on from now exactly while it is a
    /// connected wireless network.
    pub fn changed(&mut self, state: &NetworkState) -> (report: bool)
        ensures
            report,
            final(self).spec_polling() == (state.network_type == NetworkType::Wifi && state.connected),
    {
        self.polling = NetworkService::wifi_polling_wanted(state);
        true
    }

    /// The poll timer fired and the state was refreshed to `state`: it is
    /// reported only while the poll is on and it is still a connected
    /// wireless network.
    pub fn polled(&self, state: &NetworkState) -> (report: bool)
        ensures
            report == (self.spec_polling() && state.network_type == NetworkType::Wifi && state.connected),
    {
        self.polling && NetworkService::wifi_polling_wanted(state)
    }
}

} // verus!
