//! A desktop notification.
use vstd::prelude::*;
use crate::notifications::action::Action;
use crate::notifications::types::{ClosedReason, HintValue, State, Urgency, urgency_of, urgency_byte};
use crate::signal::{emitted, Signal, SignalHandler};

verus! {

/// The hint first stored under `name`.
pub open spec fn hint_lookup(hints: Seq<(String, HintValue)>, name: Seq<char>) -> Option<HintValue>
    decreases hints.len(),
{
    if hints.len() == 0 {
        None
    } else if hints[0].0@ == name {
        Some(hints[0].1)
    } else {
        hint_lookup(hints.drop_first(), name)
    }
}

/// The text hint under `name`, or the empty text.
pub open spec fn str_hint(hints: Seq<(String, HintValue)>, name: Seq<char>) -> Seq<char> {
    match hint_lookup(hints, name) {
        Some(HintValue::Str(s)) => s@,
        _ => Seq::empty(),
    }
}

/// The integer hint under `name`, or 0.
pub open spec fn int_hint(hints: Seq<(String, HintValue)>, name: Seq<char>) -> i32 {
    match hint_lookup(hints, name) {
        Some(HintValue::Int(i)) => i,
        _ => 0,
    }
}

/// The boolean hint under `name`, or `false`.
pub open spec fn bool_hint(hints: Seq<(String, HintValue)>, name: Seq<char>) -> bool {
    match hint_lookup(hints, name) {
        Some(HintValue::Bool(b)) => b,
        _ => false,
    }
}

/// The urgency that the hints carry: the `urgency` byte, or normal.
pub open spec fn urgency_hint(hints: Seq<(String, HintValue)>) -> Urgency {
    match hint_lookup(hints, "urgency"@) {
        Some(HintValue::Byte(b)) => urgency_of(b as int),
        _ => Urgency::Normal,
    }
}

/// What a notification holds.
pub struct NotificationView {
    pub id: u32,
    pub app_name: Seq<char>,
    pub app_icon: Seq<char>,
    pub summary: Seq<char>,
    pub body: Seq<char>,
    pub hints: Seq<(String, HintValue)>,
    pub expire_timeout: i32,
    pub actions: Seq<(Seq<char>, Seq<char>)>,
    pub state: State,
    pub time: i64,
}

/// A desktop notification. Its fields can be set while it is a draft.
pub struct Notification {
    id: u32,
    app_name: String,
    app_icon: String,
    summary: String,
    body: String,
    hints: Vec<(String, HintValue)>,
    expire_timeout: i32,
    actions: Vec<Action>,
    state: State,
    time: i64,
    resolved: Signal<ClosedReason>,
    invoked: Signal<String>,
    dismissed: Signal<()>,
    expired: Signal<()>,
}

impl View for Notification {
    type V = NotificationView;

    closed spec fn view(&self) -> NotificationView {
        NotificationView {
            id: self.id,
            app_name: self.app_name@,
            app_icon: self.app_icon@,
            summary: self.summary@,
            body: self.body@,
            hints: self.hints@,
            expire_timeout: self.expire_timeout,
            actions: self.actions@.map_values(|a: Action| (a.spec_id(), a.spec_label())),
            state: self.state,
            time: self.time,
        }
    }
}

/// The notification after setting a hint: `name` now holds `value`, every
/// other name what it held.
pub open spec fn hint_set(before: Seq<(String, HintValue)>, after: Seq<(String, HintValue)>, name: Seq<char>, value: HintValue) -> bool {
    forall|n: Seq<char>| #[trigger] hint_lookup(after, n) == if n == name {
        Some(value)
    } else {
        hint_lookup(before, n)
    }
}

proof fn lemma_lookup_push(s: Seq<(String, HintValue)>, x: (String, HintValue), n: Seq<char>)
    requires
        forall|i: int| 0 <= i < s.len() ==> (#[trigger] s[i]).0@ != x.0@,
    ensures
        hint_lookup(s.push(x), n) == if n == x.0@ {
            Some(x.1)
        } else {
            hint_lookup(s, n)
        },
    decreases s.len(),
{
    if s.len() > 0 {
        assert(s.push(x).drop_first() =~= s.drop_first().push(x));
        lemma_lookup_push(s.drop_first(), x, n);
    } else {
        assert(s.push(x).drop_first() =~= s);
    }
}

proof fn lemma_lookup_update(s: Seq<(String, HintValue)>, k: int, x: (String, HintValue), n: Seq<char>)
    requires
        0 <= k < s.len(),
        s[k].0@ == x.0@,
        forall|i: int| 0 <= i < k ==> (#[trigger] s[i]).0@ != x.0@,
    ensures
        hint_lookup(s.update(k, x), n) == if n == x.0@ {
            Some(x.1)
        } else {
            hint_lookup(s, n)
        },
    decreases s.len(),
{
    if k > 0 {
        assert(s.update(k, x).drop_first() =~= s.drop_first().update(k - 1, x));
        assert(s.update(k, x)[0] == s[0]);
        lemma_lookup_update(s.drop_first(), k - 1, x, n);
    } else {
        assert(s.update(k, x).drop_first() =~= s.drop_first());
    }
}

proof fn lemma_lookup_absent(s: Seq<(String, HintValue)>, n: Seq<char>)
    requires
        forall|i: int| 0 <= i < s.len() ==> (#[trigger] s[i]).0@ != n,
    ensures
        hint_lookup(s, n) is None,
    decreases s.len(),
{
    if s.len() > 0 {
        lemma_lookup_absent(s.drop_first(), n);
    }
}

proof fn lemma_lookup_found(s: Seq<(String, HintValue)>, k: int, n: Seq<char>)
    requires
        0 <= k < s.len(),
        s[k].0@ == n,
        forall|i: int| 0 <= i < k ==> (#[trigger] s[i]).0@ != n,
    ensures
        hint_lookup(s, n) == Some(s[k].1),
    decreases k,
{
    if k > 0 {
        lemma_lookup_found(s.drop_first(), k - 1, n);
    }
}

/// The first position of a hint name.
fn hint_index(hints: &Vec<(String, HintValue)>, name: &str) -> (r: Option<usize>)
    ensures
        match r {
            Some(k) => k < hints@.len() && hints@[k as int].0@ == name@ && forall|i: int| 0 <= i < k ==> (#[trigger] hints@[i]).0@ != name@,
            None => forall|i: int| 0 <= i < hints@.len() ==> (#[trigger] hints@[i]).0@ != name@,
        },
{
    let mut k: usize = 0;
    while k < hints.len()
        invariant
            k <= hints@.len(),
            forall|i: int| 0 <= i < k ==> (#[trigger] hints@[i]).0@ != name@,
        decreases hints.len() - k,
    {
        if crate::text::str_eq(hints[k].0.as_str(), name) {
            return Some(k);
        }
        k = k + 1;
    }
    None
}

/// The hint stored under `name`.
pub fn lookup_hint(hints: &Vec<(String, HintValue)>, name: &str) -> (r: Option<HintValue>)
    ensures
        r == hint_lookup(hints@, name@),
{
    match hint_index(hints, name) {
        Some(k) => {
            proof {
                lemma_lookup_found(hints@, k as int, name@);
            }
            Some(copy_hint(&hints[k].1))
        },
        None => {
            proof {
                lemma_lookup_absent(hints@, name@);
            }
            None
        },
    }
}

/// A copy of a hint value.
pub fn copy_hint(v: &HintValue) -> (r: HintValue)
    ensures
        r == *v,
{
    match v {
        HintValue::Str(s) => HintValue::Str(s.clone()),
        HintValue::Bool(b) => HintValue::Bool(*b),
        HintValue::Int(i) => HintValue::Int(*i),
        HintValue::Byte(b) => HintValue::Byte(*b),
        HintValue::Other => HintValue::Other,
    }
}

/// Stores `value` under `name`, replacing what the name held.
pub fn store_hint(hints: &mut Vec<(String, HintValue)>, name: &str, value: HintValue)
    ensures
        hint_set(old(hints)@, final(hints)@, name@, value),
{
    let ghost before = hints@;
    let entry = (name.to_string(), value);
    match hint_index(hints, name) {
        Some(k) => {
            hints.set(k, entry);
            proof {
                assert forall|n: Seq<char>| #[trigger] hint_lookup(hints@, n) == if n == name@ {
                    Some(value)
                } else {
                    hint_lookup(before, n)
                } by {
                    lemma_lookup_update(before, k as int, entry, n);
                }
            }
        },
        None => {
            hints.push(entry);
            proof {
                assert forall|n: Seq<char>| #[trigger] hint_lookup(hints@, n) == if n == name@ {
                    Some(value)
                } else {
                    hint_lookup(before, n)
                } by {
                    lemma_lookup_push(before, entry, n);
                }
            }
        },
    }
}

impl Notification {
    /// A new draft: every text empty, id 0, no hint, no action, timeout -1.
    pub fn new() -> (n: Notification)
        ensures
            n@.id == 0,
            n@.app_name == Seq::<char>::empty(),
            n@.app_icon == Seq::<char>::empty(),
            n@.summary == Seq::<char>::empty(),
            n@.body == Seq::<char>::empty(),
            n@.hints == Seq::<(String, HintValue)>::empty(),
            n@.expire_timeout == -1,
            n@.actions == Seq::<(Seq<char>, Seq<char>)>::empty(),
            n@.state == State::Draft,
            n@.time == 0,
    {
        let n = Notification {
            id: 0,
            app_name: String::new(),
            app_icon: String::new(),
            summary: String::new(),
            body: String::new(),
            hints: Vec::new(),
            expire_timeout: -1,
            actions: Vec::new(),
            state: State::Draft,
            time: 0,
            resolved: Signal::new(),
            invoked: Signal::new(),
            dismissed: Signal::new(),
            expired: Signal::new(),
        };
        assert(n@.actions =~= Seq::<(Seq<char>, Seq<char>)>::empty());
        n
    }

    pub fn id(&self) -> (r: u32)
        ensures
            r == self@.id,
    {
        self.id
    }

    pub fn app_name(&self) -> (r: String)
        ensures
            r@ == self@.app_name,
    {
        self.app_name.clone()
    }

    pub fn app_icon(&self) -> (r: String)
        ensures
            r@ == self@.app_icon,
    {
        self.app_icon.clone()
    }

    pub fn summary(&self) -> (r: String)
        ensures
            r@ == self@.summary,
    {
        self.summary.clone()
    }

    pub fn body(&self) -> (r: String)
        ensures
            r@ == self@.body,
    {
        self.body.clone()
    }

    pub fn expire_timeout(&self) -> (r: i32)
        ensures
            r == self@.expire_timeout,
    {
        self.expire_timeout
    }

    /// The (id, label) pairs of the actions, in order.
    pub fn action_pairs(&self) -> (r: Vec<(String, String)>)
        ensures
            r@.len() == self@.actions.len(),
            forall|k: int| 0 <= k < r@.len() ==> ((#[trigger] r@[k]).0@, r@[k].1@) == self@.actions[k],
    {
        let mut out: Vec<(String, String)> = Vec::new();
        let mut k: usize = 0;
        while k < self.actions.len()
            invariant
                k <= self.actions@.len(),
                out@.len() == k,
                forall|j: int| 0 <= j < k ==> ((#[trigger] out@[j]).0@, out@[j].1@) == self@.actions[j],
            decreases self.actions.len() - k,
        {
            let a = &self.actions[k];
            out.push((a.id().to_string(), a.label().to_string()));
            k = k + 1;
        }
        out
    }

    /// The hints, name and value, in the order their names were first set.
    pub fn hints(&self) -> (r: &Vec<(String, HintValue)>)
        ensures
            r@ == self@.hints,
    {
        &self.hints
    }

    pub fn state(&self) -> (r: State)
        ensures
            r == self@.state,
    {
        self.state
    }

    pub fn time(&self) -> (r: i64)
        ensures
            r == self@.time,
    {
        self.time
    }

    /// The signal emitted with the close reason when the notification is
    /// resolved.
    pub closed spec fn resolved_signal(&self) -> Signal<ClosedReason> {
        self.resolved
    }

    /// The signal emitted with an action's id when it is invoked.
    pub closed spec fn invoked_signal(&self) -> Signal<String> {
        self.invoked
    }

    /// The signal emitted when a received notification is asked to be
    /// dismissed.
    pub closed spec fn dismissed_signal(&self) -> Signal<()> {
        self.dismissed
    }

    /// The signal emitted when a received notification is asked to expire.
    pub closed spec fn expired_signal(&self) -> Signal<()> {
        self.expired
    }

    /// The invoked signals of the stored actions, in order.
    pub closed spec fn action_signals(&self) -> Seq<Signal<()>> {
        self.actions@.map_values(|a: Action| a.invoked_signal())
    }

    pub fn set_id(&mut self, value: u32)
        ensures
            final(self)@ == if old(self)@.state == State::Draft {
                NotificationView { id: value, ..old(self)@ }
            } else {
                old(self)@
            },
    {
        if self.state == State::Draft {
            self.id = value;
        }
    }

    pub fn set_app_name(&mut self, value: String)
        ensures
            final(self)@ == if old(self)@.state == State::Draft {
                NotificationView { app_name: value@, ..old(self)@ }
            } else {
                old(self)@
            },
    {
        if self.state == State::Draft {
            self.app_name = value;
        }
    }

    pub fn set_app_icon(&mut self, value: String)
        ensures
            final(self)@ == if old(self)@.state == State::Draft {
                NotificationView { app_icon: value@, ..old(self)@ }
            } else {
                old(self)@
            },
    {
        if self.state == State::Draft {
            self.app_icon = value;
        }
    }

    pub fn set_summary(&mut self, value: String)
        ensures
            final(self)@ == if old(self)@.state == State::Draft {
                NotificationView { summary: value@, ..old(self)@ }
            } else {
                old(self)@
            },
    {
        if self.state == State::Draft {
            self.summary = value;
        }
    }

    pub fn set_body(&mut self, value: String)
        ensures
            final(self)@ == if old(self)@.state == State::Draft {
                NotificationView { body: value@, ..old(self)@ }
            } else {
                old(self)@
            },
    {
        if self.state == State::Draft {
            self.body = value;
        }
    }

    pub fn set_expire_timeout(&mut self, value: i32)
        ensures
            final(self)@ == if old(self)@.state == State::Draft {
                NotificationView { expire_timeout: value, ..old(self)@ }
            } else {
                old(self)@
            },
    {
        if self.state == State::Draft {
            self.expire_timeout = value;
        }
    }

    /// Sets a hint; only a draft changes.
    pub fn set_hint(&mut self, name: &str, value: HintValue)
        ensures
            old(self)@.state == State::Draft ==> {
                &&& hint_set(old(self)@.hints, final(self)@.hints, name@, value)
                &&& final(self)@ == (NotificationView { hints: final(self)@.hints, ..old(self)@ })
            },
            old(self)@.state != State::Draft ==> final(self)@ == old(self)@,
    {
        if self.state == State::Draft {
            store_hint(&mut self.hints, name, value);
        }
    }

    /// The hint stored under `name`.
    pub fn get_hint(&self, name: &str) -> (r: Option<HintValue>)
        ensures
            r == hint_lookup(self@.hints, name@),
    {
        lookup_hint(&self.hints, name)
    }

    fn get_str_hint(&self, name: &str) -> (r: String)
        ensures
            r@ == str_hint(self@.hints, name@),
    {
        match self.get_hint(name) {
            Some(HintValue::Str(s)) => s,
            _ => String::new(),
        }
    }

    fn get_int_hint(&self, name: &str) -> (r: i32)
        ensures
            r == int_hint(self@.hints, name@),
    {
        match self.get_hint(name) {
            Some(HintValue::Int(i)) => i,
            _ => 0,
        }
    }

    fn get_bool_hint(&self, name: &str) -> (r: bool)
        ensures
            r == bool_hint(self@.hints, name@),
    {
        match self.get_hint(name) {
            Some(HintValue::Bool(b)) => b,
            _ => false,
        }
    }

    /// `image-path`.
    pub fn image(&self) -> (r: String)
        ensures
            r@ == str_hint(self@.hints, "image-path"@),
    {
        self.get_str_hint("image-path")
    }

    pub fn set_image(&mut self, value: String)
        ensures
            old(self)@.state == State::Draft ==> hint_set(old(self)@.hints, final(self)@.hints, "image-path"@, HintValue::Str(value)),
            old(self)@.state != State::Draft ==> final(self)@ == old(self)@,
    {
        self.set_hint("image-path", HintValue::Str(value));
    }

    /// `action-icons`.
    pub fn action_icons(&self) -> (r: bool)
        ensures
            r == bool_hint(self@.hints, "action-icons"@),
    {
        self.get_bool_hint("action-icons")
    }

    pub fn set_action_icons(&mut self, value: bool)
        ensures
            old(self)@.state == State::Draft ==> hint_set(old(self)@.hints, final(self)@.hints, "action-icons"@, HintValue::Bool(value)),
            old(self)@.state != State::Draft ==> final(self)@ == old(self)@,
    {
        self.set_hint("action-icons", HintValue::Bool(value));
    }

    /// `category`.
    pub fn category(&self) -> (r: String)
        ensures
            r@ == str_hint(self@.hints, "category"@),
    {
        self.get_str_hint("category")
    }

    pub fn set_category(&mut self, value: String)
        ensures
            old(self)@.state == State::Draft ==> hint_set(old(self)@.hints, final(self)@.hints, "category"@, HintValue::Str(value)),
            old(self)@.state != State::Draft ==> final(self)@ == old(self)@,
    {
        self.set_hint("category", HintValue::Str(value));
    }

    /// `desktop-entry`.
    pub fn desktop_entry(&self) -> (r: String)
        ensures
            r@ == str_hint(self@.hints, "desktop-entry"@),
    {
        self.get_str_hint("desktop-entry")
    }

    pub fn set_desktop_entry(&mut self, value: String)
        ensures
            old(self)@.state == State::Draft ==> hint_set(old(self)@.hints, final(self)@.hints, "desktop-entry"@, HintValue::Str(value)),
            old(self)@.state != State::Draft ==> final(self)@ == old(self)@,
    {
        self.set_hint("desktop-entry", HintValue::Str(value));
    }

    /// `resident`.
    pub fn resident(&self) -> (r: bool)
        ensures
            r == bool_hint(self@.hints, "resident"@),
    {
        self.get_bool_hint("resident")
    }

    pub fn set_resident(&mut self, value: bool)
        ensures
            old(self)@.state == State::Draft ==> hint_set(old(self)@.hints, final(self)@.hints, "resident"@, HintValue::Bool(value)),
            old(self)@.state != State::Draft ==> final(self)@ == old(self)@,
    {
        self.set_hint("resident", HintValue::Bool(value));
    }

    /// `sound-file`.
    pub fn sound_file(&self) -> (r: String)
        ensures
            r@ == str_hint(self@.hints, "sound-file"@),
    {
        self.get_str_hint("sound-file")
    }

    pub fn set_sound_file(&mut self, value: String)
        ensures
            old(self)@.state == State::Draft ==> hint_set(old(self)@.hints, final(self)@.hints, "sound-file"@, HintValue::Str(value)),
            old(self)@.state != State::Draft ==> final(self)@ == old(self)@,
    {
        self.set_hint("sound-file", HintValue::Str(value));
    }

    /// `sound-name`.
    pub fn sound_name(&self) -> (r: String)
        ensures
            r@ == str_hint(self@.hints, "sound-name"@),
    {
        self.get_str_hint("sound-name")
    }

    pub fn set_sound_name(&mut self, value: String)
        ensures
            old(self)@.state == State::Draft ==> hint_set(old(self)@.hints, final(self)@.hints, "sound-name"@, HintValue::Str(value)),
            old(self)@.state != State::Draft ==> final(self)@ == old(self)@,
    {
        self.set_hint("sound-name", HintValue::Str(value));
    }

    /// `suppress-sound`.
    pub fn suppress_sound(&self) -> (r: bool)
        ensures
            r == bool_hint(self@.hints, "suppress-sound"@),
    {
        self.get_bool_hint("suppress-sound")
    }

    pub fn set_suppress_sound(&mut self, value: bool)
        ensures
            old(self)@.state == State::Draft ==> hint_set(old(self)@.hints, final(self)@.hints, "suppress-sound"@, HintValue::Bool(value)),
            old(self)@.state != State::Draft ==> final(self)@ == old(self)@,
    {
        self.set_hint("suppress-sound", HintValue::Bool(value));
    }

    /// `transient`.
    pub fn transient(&self) -> (r: bool)
        ensures
            r == bool_hint(self@.hints, "transient"@),
    {
        self.get_bool_hint("transient")
    }

    pub fn set_transient(&mut self, value: bool)
        ensures
            old(self)@.state == State::Draft ==> hint_set(old(self)@.hints, final(self)@.hints, "transient"@, HintValue::Bool(value)),
            old(self)@.state != State::Draft ==> final(self)@ == old(self)@,
    {
        self.set_hint("transient", HintValue::Bool(value));
    }

    /// `x`.
    pub fn x(&self) -> (r: i32)
        ensures
            r == int_hint(self@.hints, "x"@),
    {
        self.get_int_hint("x")
    }

    pub fn set_x(&mut self, value: i32)
        ensures
            old(self)@.state == State::Draft ==> hint_set(old(self)@.hints, final(self)@.hints, "x"@, HintValue::Int(value)),
            old(self)@.state != State::Draft ==> final(self)@ == old(self)@,
    {
        self.set_hint("x", HintValue::Int(value));
    }

    /// `y`.
    pub fn y(&self) -> (r: i32)
        ensures
            r == int_hint(self@.hints, "y"@),
    {
        self.get_int_hint("y")
    }

    pub fn set_y(&mut self, value: i32)
        ensures
            old(self)@.state == State::Draft ==> hint_set(old(self)@.hints, final(self)@.hints, "y"@, HintValue::Int(value)),
            old(self)@.state != State::Draft ==> final(self)@ == old(self)@,
    {
        self.set_hint("y", HintValue::Int(value));
    }

    /// The urgency that the `urgency` hint carries; normal without one.
    pub fn urgency(&self) -> (r: Urgency)
        ensures
            r == urgency_hint(self@.hints),
    {
        match self.get_hint("urgency") {
            Some(HintValue::Byte(b)) => Urgency::from_u8(b),
            _ => Urgency::Normal,
        }
    }

    pub fn set_urgency(&mut self, value: Urgency)
        ensures
            old(self)@.state == State::Draft ==> hint_set(old(self)@.hints, final(self)@.hints, "urgency"@, HintValue::Byte(urgency_byte(value))),
            old(self)@.state != State::Draft ==> final(self)@ == old(self)@,
    {
        self.set_hint("urgency", HintValue::Byte(value.as_u8()));
    }

    /// Adds an action; only a draft changes.
    pub fn add_action(&mut self, action: Action)
        ensures
            old(self)@.state == State::Draft ==> final(self)@ == (NotificationView {
                actions: old(self)@.actions.push((action.spec_id(), action.spec_label())),
                ..old(self)@
            }),
            old(self)@.state != State::Draft ==> final(self)@ == old(self)@,
    {
        if self.state == State::Draft {
            let ghost before = self.actions@;
            let ghost pair = (action.spec_id(), action.spec_label());
            self.actions.push(action);
            proof {
                assert(self.actions@.map_values(|a: Action| (a.spec_id(), a.spec_label())) =~= before.map_values(
                    |a: Action| (a.spec_id(), a.spec_label()),
                ).push(pair));
            }
        }
    }

    /// Invokes the action stored at `index`: the action's own handlers run,
    /// then the notification's invoked handlers with the action's id, as
    /// for an action that was added to it. Returns whether there is such an
    /// action; where there is none nothing is emitted.
    pub fn activate_action(&mut self, index: usize) -> (ok: bool)
        ensures
            ok == (index < old(self)@.actions.len()),
            final(self)@ == old(self)@,
            final(self).action_signals().len() == old(self).action_signals().len(),
            ok ==> emitted(
                old(self).action_signals()[index as int],
                final(self).action_signals()[index as int],
                (),
            ),
            ok ==> exists|s: String|
                s@ == old(self)@.actions[index as int].0 && #[trigger] emitted(
                    old(self).invoked_signal(),
                    final(self).invoked_signal(),
                    s,
                ),
            !ok ==> final(self).invoked_signal() == old(self).invoked_signal(),
            forall|k: int|
                0 <= k < old(self).action_signals().len() && (!ok || k != index) ==> final(self).action_signals()[k]
                    == old(self).action_signals()[k],
            final(self).resolved_signal() == old(self).resolved_signal(),
            final(self).dismissed_signal() == old(self).dismissed_signal(),
            final(self).expired_signal() == old(self).expired_signal(),
    {
        if index < self.actions.len() {
            let ghost before = self.actions@;
            let mut action = self.actions.remove(index);
            action.invoke();
            let id = action.id().to_string();
            self.actions.insert(index, action);
            proof {
                let after = self.actions@;
                assert(after =~= before.update(index as int, action));
                assert(after.map_values(|a: Action| (a.spec_id(), a.spec_label())) =~= before.map_values(
                    |a: Action| (a.spec_id(), a.spec_label()),
                ));
            }
            let ghost g = id;
            proof {
                assert(old(self)@.actions[index as int] == (before[index as int].spec_id(), before[index as int].spec_label()));
            }
            self.invoked.emit_sync(id);
            assert(emitted(old(self).invoked_signal(), self.invoked_signal(), g));
            true
        } else {
            false
        }
    }

    /// Asks to dismiss a received notification; returns whether it was one.
    /// Only then is the dismissed signal emitted.
    pub fn dismiss(&mut self) -> (ok: bool)
        ensures
            ok == (old(self)@.state == State::Received),
            ok ==> emitted(old(self).dismissed_signal(), final(self).dismissed_signal(), ()),
            !ok ==> final(self).dismissed_signal() == old(self).dismissed_signal(),
            final(self)@ == old(self)@,
            final(self).action_signals() == old(self).action_signals(),
            final(self).resolved_signal() == old(self).resolved_signal(),
            final(self).invoked_signal() == old(self).invoked_signal(),
            final(self).expired_signal() == old(self).expired_signal(),
    {
        if self.state == State::Received {
            self.dismissed.emit_sync(());
            true
        } else {
            false
        }
    }

    /// Asks to expire a received notification; returns whether it was one.
    /// Only then is the expired signal emitted.
    pub fn expire(&mut self) -> (ok: bool)
        ensures
            ok == (old(self)@.state == State::Received),
            ok ==> emitted(old(self).expired_signal(), final(self).expired_signal(), ()),
            !ok ==> final(self).expired_signal() == old(self).expired_signal(),
            final(self)@ == old(self)@,
            final(self).action_signals() == old(self).action_signals(),
            final(self).resolved_signal() == old(self).resolved_signal(),
            final(self).invoked_signal() == old(self).invoked_signal(),
            final(self).dismissed_signal() == old(self).dismissed_signal(),
    {
        if self.state == State::Received {
            self.expired.emit_sync(());
            true
        } else {
            false
        }
    }

    /// Invokes an action of a received notification: the invoked signal is
    /// emitted with its id. Returns whether the notification was received.
    pub fn invoke(&mut self, action_id: &str) -> (ok: bool)
        ensures
            ok == (old(self)@.state == State::Received),
            ok ==> exists|s: String|
                s@ == action_id@ && #[trigger] emitted(old(self).invoked_signal(), final(self).invoked_signal(), s),
            !ok ==> final(self).invoked_signal() == old(self).invoked_signal(),
            final(self)@ == old(self)@,
            final(self).action_signals() == old(self).action_signals(),
            final(self).resolved_signal() == old(self).resolved_signal(),
            final(self).dismissed_signal() == old(self).dismissed_signal(),
            final(self).expired_signal() == old(self).expired_signal(),
    {
        if self.state == State::Received {
            let id = action_id.to_string();
            let ghost g = id;
            self.invoked.emit_sync(id);
            assert(g@ == action_id@);
            assert(emitted(old(self).invoked_signal(), self.invoked_signal(), g));
            true
        } else {
            false
        }
    }

    /// Emits the invoked signal with an action's id, whatever the state.
    pub fn emit_invoked(&mut self, action_id: String)
        ensures
            emitted(old(self).invoked_signal(), final(self).invoked_signal(), action_id),
            final(self)@ == old(self)@,
            final(self).action_signals() == old(self).action_signals(),
            final(self).resolved_signal() == old(self).resolved_signal(),
            final(self).dismissed_signal() == old(self).dismissed_signal(),
            final(self).expired_signal() == old(self).expired_signal(),
    {
        self.invoked.emit_sync(action_id);
    }

    /// Emits the resolved signal with a reason.
    pub fn emit_resolved(&mut self, reason: ClosedReason)
        ensures
            emitted(old(self).resolved_signal(), final(self).resolved_signal(), reason),
            final(self)@ == old(self)@,
            final(self).action_signals() == old(self).action_signals(),
            final(self).invoked_signal() == old(self).invoked_signal(),
            final(self).dismissed_signal() == old(self).dismissed_signal(),
            final(self).expired_signal() == old(self).expired_signal(),
    {
        self.resolved.emit_sync(reason);
    }

    /// Connects a handler to the resolved signal.
    pub fn connect_resolved<F: Fn(ClosedReason) + Send + 'static>(&mut self, callback: F) -> (h: SignalHandler)
        requires
            old(self).resolved_signal().next_id() < u64::MAX,
            forall|v: ClosedReason| call_requires(callback, (v,)),
        ensures
            h.spec_id() == old(self).resolved_signal().next_id(),
            final(self).resolved_signal().ids() == old(self).resolved_signal().ids().push(h.spec_id()),
            final(self)@ == old(self)@,
    {
        self.resolved.connect(callback)
    }

    /// Connects a handler to the invoked signal.
    pub fn connect_invoked<F: Fn(String) + Send + 'static>(&mut self, callback: F) -> (h: SignalHandler)
        requires
            old(self).invoked_signal().next_id() < u64::MAX,
            forall|v: String| call_requires(callback, (v,)),
        ensures
            h.spec_id() == old(self).invoked_signal().next_id(),
            final(self).invoked_signal().ids() == old(self).invoked_signal().ids().push(h.spec_id()),
            final(self)@ == old(self)@,
    {
        self.invoked.connect(callback)
    }

    /// Moves the notification to a state (the daemon and the sender do).
    pub fn set_state(&mut self, state: State)
        ensures
            final(self)@ == (NotificationView { state, ..old(self)@ }),
    {
        self.state = state;
    }

    /// Records when the notification was sent or received.
    pub fn set_time(&mut self, time: i64)
        ensures
            final(self)@ == (NotificationView { time, ..old(self)@ }),
    {
        self.time = time;
    }
}

impl Default for Notification {
    fn default() -> (n: Self)
        ensures
            n@.state == State::Draft,
            n@.id == 0,
            n@.hints == Seq::<(String, HintValue)>::empty(),
    {
        Notification::new()
    }
}

} // verus!
