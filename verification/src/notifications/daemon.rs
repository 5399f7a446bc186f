//! The notification daemon: what it does with `Notify`, `CloseNotification`,
//! `GetNotification` and the resolution of its notifications.
use vstd::prelude::*;
use crate::notifications::action::{Action, action_pairs};
use crate::notifications::notification::{
    Notification, NotificationView, bool_hint, copy_hint, hint_lookup,
};
use crate::notifications::types::{ClosedReason, HintValue, State};
use crate::signal::{emitted, Signal, SignalHandler};

verus! {

pub const DAEMON_NAME: &'static str = "agwaita-notifications";
pub const DAEMON_VENDOR: &'static str = "agwaita";
pub const DAEMON_VERSION: &'static str = "0.1";
pub const SPEC_VERSION: &'static str = "1.2";

/// Timeout used for `expire_timeout == 0`, in milliseconds.
pub const DEFAULT_TIMEOUT: i32 = 5000;

/// Hints that the daemon does not keep: inline image data.
pub open spec fn dropped_hint(n: Seq<char>) -> bool {
    n == "image-data"@ || n == "image_data"@ || n == "icon_data"@
}

/// The hint that a `Notify` call leaves under `n`: the last one sent under
/// it, unless it is image data.
pub open spec fn incoming_hint(hints: Seq<(String, HintValue)>, n: Seq<char>) -> Option<HintValue>
    decreases hints.len(),
{
    if dropped_hint(n) || hints.len() == 0 {
        None
    } else if hints.last().0@ == n {
        Some(hints.last().1)
    } else {
        incoming_hint(hints.drop_last(), n)
    }
}

/// Of hints sent under one name the last one is kept, a hint sent under
/// another name leaves it as it was, and inline image data is never kept.
pub proof fn law_last_hint_kept(hints: Seq<(String, HintValue)>, name: String, value: HintValue, n: Seq<char>)
    ensures
        name@ == n && !dropped_hint(n) ==> incoming_hint(hints.push((name, value)), n) == Some(value),
        name@ != n ==> incoming_hint(hints.push((name, value)), n) == incoming_hint(hints, n),
        (n == "image-data"@ || n == "image_data"@ || n == "icon_data"@) ==> incoming_hint(hints, n) is None,
{
    assert(hints.push((name, value)).drop_last() =~= hints);
}

/// The timeout that a notification gets: `0` asks for the default.
pub open spec fn effective_timeout(expire_timeout: i32, default_timeout: i32) -> i32 {
    if expire_timeout == 0 {
        default_timeout
    } else {
        expire_timeout
    }
}

/// A requested timeout is kept as the caller gave it, whatever the default:
/// a positive one stands as is, a negative one (never expire) stays
/// negative, and only `0` is replaced by the default.
pub proof fn law_requested_timeout_kept(expire_timeout: i32, default_timeout: i32)
    ensures
        expire_timeout != 0 ==> effective_timeout(expire_timeout, default_timeout) == expire_timeout,
        expire_timeout > 0 ==> effective_timeout(expire_timeout, default_timeout) > 0,
        expire_timeout < 0 ==> effective_timeout(expire_timeout, default_timeout) < 0,
        expire_timeout == 0 ==> effective_timeout(expire_timeout, default_timeout) == default_timeout,
{
}

/// What the daemon did with a `Notify` call.
#[derive(Debug, Clone, Copy, PartialEq, Eq, Structural)]
pub struct NotifyOutcome {
    /// The notification's id.
    pub id: u32,
    /// Whether it replaced a notification with that id.
    pub replaced: bool,
    /// After how many milliseconds it expires, where it does.
    pub expire_after_ms: Option<u64>,
}

/// What `GetNotification` answers.
pub struct NotificationData {
    pub id: u32,
    pub app_name: String,
    pub app_icon: String,
    pub summary: String,
    pub body: String,
    pub expire_timeout: i32,
    pub time: i64,
    /// Action ids and labels, alternating.
    pub actions: Vec<String>,
    pub hints: Vec<(String, HintValue)>,
}

/// The notification daemon.
pub struct Daemon {
    next_id: u32,
    notifications: Vec<Notification>,
    notified: Signal<(u32, bool)>,
    resolved: Signal<(u32, ClosedReason)>,
    ignore_timeout: bool,
    default_timeout: i32,
    server_capabilities: Vec<String>,
}

/// The ids of a list of notifications.
pub open spec fn ids_of(s: Seq<NotificationView>) -> Seq<u32> {
    s.map_values(|n: NotificationView| n.id)
}

/// Ids distinct, all below the next id, which is at least 1.
pub open spec fn ids_fresh(s: Seq<NotificationView>, next_id: u32) -> bool {
    &&& next_id >= 1
    &&& forall|i: int, j: int| 0 <= i < j < s.len() ==> (#[trigger] s[i]).id != (#[trigger] s[j]).id
    &&& forall|i: int| 0 <= i < s.len() ==> (#[trigger] s[i]).id < next_id
}

/// The first position of a notification with id `id`.
pub open spec fn index_of_id(s: Seq<NotificationView>, id: u32) -> Option<int> {
    if exists|i: int| 0 <= i < s.len() && s[i].id == id {
        Some(choose|i: int| 0 <= i < s.len() && s[i].id == id)
    } else {
        None
    }
}

/// The notifications without the one with id `id`, in order.
pub open spec fn without_notification(s: Seq<NotificationView>, id: u32) -> Seq<NotificationView>
    decreases s.len(),
{
    if s.len() == 0 {
        s
    } else if s.last().id == id {
        without_notification(s.drop_last(), id)
    } else {
        without_notification(s.drop_last(), id).push(s.last())
    }
}

/// The notification stored by a `Notify` call.
pub open spec fn notified_view(
    n: NotificationView,
    id: u32,
    app_name: Seq<char>,
    app_icon: Seq<char>,
    summary: Seq<char>,
    body: Seq<char>,
    actions: Seq<Seq<char>>,
    hints: Seq<(String, HintValue)>,
    timeout: i32,
    now: i64,
) -> bool {
    &&& n.id == id
    &&& n.app_name == app_name
    &&& n.app_icon == app_icon
    &&& n.summary == summary
    &&& n.body == body
    &&& n.expire_timeout == timeout
    &&& n.time == now
    &&& n.state == State::Received
    &&& n.actions == action_pairs(actions)
    &&& forall|k: Seq<char>| #[trigger] hint_lookup(n.hints, k) == incoming_hint(hints, k)
}

/// The current time in seconds since the epoch, through
/// `SystemTime::now().duration_since(UNIX_EPOCH)`; nothing is stated of it.
/// A clock before the epoch reads as 0.
#[verifier::external_body]
fn unix_now() -> i64 {
    match std::time::SystemTime::now().duration_since(std::time::UNIX_EPOCH) {
        Ok(d) => d.as_secs() as i64,
        Err(_) => 0,
    }
}

proof fn lemma_without_absent(s: Seq<NotificationView>, id: u32)
    requires
        forall|i: int| 0 <= i < s.len() ==> (#[trigger] s[i]).id != id,
    ensures
        without_notification(s, id) == s,
    decreases s.len(),
{
    if s.len() > 0 {
        lemma_without_absent(s.drop_last(), id);
        assert(s.drop_last().push(s.last()) =~= s);
    }
}

proof fn lemma_without_at(s: Seq<NotificationView>, k: int, id: u32)
    requires
        0 <= k < s.len(),
        s[k].id == id,
        forall|i: int| 0 <= i < s.len() && i != k ==> (#[trigger] s[i]).id != id,
    ensures
        without_notification(s, id) == s.remove(k),
    decreases s.len(),
{
    if k == s.len() - 1 {
        lemma_without_absent(s.drop_last(), id);
        assert(s.remove(k) =~= s.drop_last());
    } else {
        lemma_without_at(s.drop_last(), k, id);
        assert(s.remove(k) =~= s.drop_last().remove(k).push(s.last()));
    }
}

impl Daemon {
    #[verifier::type_invariant]
    closed spec fn well_formed(&self) -> bool {
        ids_fresh(self.notifications@.map_values(|n: Notification| n@), self.next_id)
    }

    /// The stored notifications, in the order they arrived.
    pub closed spec fn views(&self) -> Seq<NotificationView> {
        self.notifications@.map_values(|n: Notification| n@)
    }

    /// The id that the next new notification gets.
    pub closed spec fn spec_next_id(&self) -> u32 {
        self.next_id
    }

    pub closed spec fn spec_ignore_timeout(&self) -> bool {
        self.ignore_timeout
    }

    pub closed spec fn spec_default_timeout(&self) -> i32 {
        self.default_timeout
    }

    pub closed spec fn notified_signal(&self) -> Signal<(u32, bool)> {
        self.notified
    }

    pub closed spec fn resolved_signal(&self) -> Signal<(u32, ClosedReason)> {
        self.resolved
    }

    /// A daemon with no notification; the first id is 1, the default
    /// timeout 5000 ms.
    pub fn new() -> (d: Daemon)
        ensures
            d.views() == Seq::<NotificationView>::empty(),
            d.spec_next_id() == 1,
            d.spec_default_timeout() == DEFAULT_TIMEOUT,
            !d.spec_ignore_timeout(),
            d.notified_signal().next_id() == 0,
            d.resolved_signal().next_id() == 0,
            d.notified_signal().emissions().len() == 0,
            d.resolved_signal().emissions().len() == 0,
    {
        let mut caps: Vec<String> = Vec::new();
        caps.push("actions".to_string());
        caps.push("body".to_string());
        caps.push("body-markup".to_string());
        caps.push("icon-static".to_string());
        let d = Daemon {
            next_id: 1,
            notifications: Vec::new(),
            notified: Signal::new(),
            resolved: Signal::new(),
            ignore_timeout: false,
            default_timeout: DEFAULT_TIMEOUT,
            server_capabilities: caps,
        };
        assert(d.views() =~= Seq::<NotificationView>::empty());
        d
    }

    /// The id that the next new notification gets.
    pub fn next_id(&self) -> (r: u32)
        ensures
            r == self.spec_next_id(),
    {
        self.next_id
    }

    /// Whether a notification with this id is stored.
    pub fn has_notification(&self, id: u32) -> (b: bool)
        ensures
            b == ids_of(self.views()).contains(id),
    {
        match self.position(id) {
            Some(k) => {
                assert(ids_of(self.views())[k as int] == id);
                true
            },
            None => {
                proof {
                    if ids_of(self.views()).contains(id) {
                        let i = choose|i: int| 0 <= i < ids_of(self.views()).len() && ids_of(self.views())[i] == id;
                        assert(self.views()[i].id == id);
                    }
                }
                false
            },
        }
    }

    /// `GetCapabilities`.
    pub fn get_capabilities(&self) -> (r: Vec<String>)
        ensures
            r@.len() == 4,
            r@[0]@ == "actions"@,
            r@[1]@ == "body"@,
            r@[2]@ == "body-markup"@,
            r@[3]@ == "icon-static"@,
    {
        let mut caps: Vec<String> = Vec::new();
        caps.push("actions".to_string());
        caps.push("body".to_string());
        caps.push("body-markup".to_string());
        caps.push("icon-static".to_string());
        caps
    }

    /// `GetServerInformation`: name, vendor, version and spec version.
    pub fn get_server_information(&self) -> (r: (String, String, String, String))
        ensures
            r.0@ == DAEMON_NAME@,
            r.1@ == DAEMON_VENDOR@,
            r.2@ == DAEMON_VERSION@,
            r.3@ == SPEC_VERSION@,
    {
        (
            DAEMON_NAME.to_string(),
            DAEMON_VENDOR.to_string(),
            DAEMON_VERSION.to_string(),
            SPEC_VERSION.to_string(),
        )
    }

    fn position(&self, id: u32) -> (r: Option<usize>)
        ensures
            match r {
                Some(k) => k < self.views().len() && self.views()[k as int].id == id,
                None => forall|i: int| 0 <= i < self.views().len() ==> (#[trigger] self.views()[i]).id != id,
            },
    {
        let mut k: usize = 0;
        while k < self.notifications.len()
            invariant
                k <= self.notifications@.len(),
                forall|i: int| 0 <= i < k ==> (#[trigger] self.views()[i]).id != id,
            decreases self.notifications.len() - k,
        {
            if self.notifications[k].id() == id {
                return Some(k);
            }
            k = k + 1;
        }
        None
    }

    /// The notification with an id.
    pub fn get_notif(&self, id: u32) -> (r: Option<&Notification>)
        ensures
            match r {
                Some(n) => n@.id == id && self.views().contains(n@),
                None => forall|i: int| 0 <= i < self.views().len() ==> (#[trigger] self.views()[i]).id != id,
            },
    {
        match self.position(id) {
            Some(k) => {
                assert(self.views()[k as int] == self.notifications@[k as int]@);
                Some(&self.notifications[k])
            },
            None => None,
        }
    }

    /// The stored notifications, in the order they arrived.
    pub fn notifications(&self) -> (r: &Vec<Notification>)
        ensures
            r@.map_values(|n: Notification| n@) == self.views(),
    {
        &self.notifications
    }

    /// Connects a handler called with (id, replaced) for every notification.
    pub fn connect_notified<F: Fn((u32, bool)) + Send + 'static>(&mut self, callback: F) -> (h: SignalHandler)
        requires
            old(self).notified_signal().next_id() < u64::MAX,
            forall|v: (u32, bool)| call_requires(callback, (v,)),
        ensures
            h.spec_id() == old(self).notified_signal().next_id(),
            final(self).notified_signal().ids() == old(self).notified_signal().ids().push(h.spec_id()),
            final(self).notified_signal().emissions() == old(self).notified_signal().emissions(),
            final(self).resolved_signal() == old(self).resolved_signal(),
            final(self).views() == old(self).views(),
            final(self).spec_next_id() == old(self).spec_next_id(),
    {
        proof {
            use_type_invariant(&*self);
        }
        let mut sig: Signal<(u32, bool)> = Signal::new();
        std::mem::swap(&mut sig, &mut self.notified);
        let h = sig.connect(callback);
        self.notified = sig;
        h
    }

    /// Connects a handler called with (id, reason) for every resolution.
    pub fn connect_resolved<F: Fn((u32, ClosedReason)) + Send + 'static>(&mut self, callback: F) -> (h: SignalHandler)
        requires
            old(self).resolved_signal().next_id() < u64::MAX,
            forall|v: (u32, ClosedReason)| call_requires(callback, (v,)),
        ensures
            h.spec_id() == old(self).resolved_signal().next_id(),
            final(self).resolved_signal().ids() == old(self).resolved_signal().ids().push(h.spec_id()),
            final(self).resolved_signal().emissions() == old(self).resolved_signal().emissions(),
            final(self).notified_signal() == old(self).notified_signal(),
            final(self).views() == old(self).views(),
            final(self).spec_next_id() == old(self).spec_next_id(),
    {
        proof {
            use_type_invariant(&*self);
        }
        let mut sig: Signal<(u32, ClosedReason)> = Signal::new();
        std::mem::swap(&mut sig, &mut self.resolved);
        let h = sig.connect(callback);
        self.resolved = sig;
        h
    }

    /// Resolves a notification: it is removed, and its resolved signal and
    /// the daemon's are emitted with the reason. Returns whether there was a
    /// notification with that id; without one nothing changes.
    pub fn resolve(&mut self, id: u32, reason: ClosedReason) -> (found: bool)
        ensures
            found == ids_of(old(self).views()).contains(id),
            final(self).views() == without_notification(old(self).views(), id),
            found ==> emitted(old(self).resolved_signal(), final(self).resolved_signal(), (id, reason)),
            !found ==> final(self).resolved_signal() == old(self).resolved_signal(),
            final(self).notified_signal() == old(self).notified_signal(),
            final(self).spec_next_id() == old(self).spec_next_id(),
            final(self).spec_ignore_timeout() == old(self).spec_ignore_timeout(),
            final(self).spec_default_timeout() == old(self).spec_default_timeout(),
    {
        proof {
            use_type_invariant(&*self);
        }
        let ghost before = self.views();
        match self.position(id) {
            Some(k) => {
                let mut list: Vec<Notification> = Vec::new();
                std::mem::swap(&mut list, &mut self.notifications);
                let mut n = list.remove(k);
                proof {
                    assert(list@.map_values(|n: Notification| n@) =~= before.remove(k as int));
                    lemma_without_at(before, k as int, id);
                    assert(ids_of(before)[k as int] == id);
                    let rest = before.remove(k as int);
                    assert forall|i: int, j: int| 0 <= i < j < rest.len() implies (#[trigger] rest[i]).id != (#[trigger] rest[j]).id by {
                        let i0 = if i < k { i } else { i + 1 };
                        let j0 = if j < k { j } else { j + 1 };
                        assert(rest[i] == before[i0]);
                        assert(rest[j] == before[j0]);
                    }
                    assert forall|i: int| 0 <= i < rest.len() implies (#[trigger] rest[i]).id < self.next_id by {
                        let i0 = if i < k { i } else { i + 1 };
                        assert(rest[i] == before[i0]);
                    }
                }
                self.notifications = list;
                n.emit_resolved(reason);
                let mut sig: Signal<(u32, ClosedReason)> = Signal::new();
                std::mem::swap(&mut sig, &mut self.resolved);
                sig.emit_sync((id, reason));
                self.resolved = sig;
                true
            },
            None => {
                proof {
                    lemma_without_absent(before, id);
                    if ids_of(before).contains(id) {
                        let i = choose|i: int| 0 <= i < ids_of(before).len() && ids_of(before)[i] == id;
                        assert(before[i].id == id);
                    }
                }
                false
            },
        }
    }

    /// `CloseNotification`: resolves the notification as closed.
    pub fn close_notification(&mut self, id: u32)
        ensures
            final(self).views() == without_notification(old(self).views(), id),
            ids_of(old(self).views()).contains(id) ==> emitted(
                old(self).resolved_signal(),
                final(self).resolved_signal(),
                (id, ClosedReason::Closed),
            ),
            !ids_of(old(self).views()).contains(id) ==> final(self).resolved_signal() == old(self).resolved_signal(),
            final(self).spec_next_id() == old(self).spec_next_id(),
    {
        self.resolve(id, ClosedReason::Closed);
    }

    /// The user dismissed a notification: it is resolved as dismissed.
    pub fn dismiss_notification(&mut self, id: u32) -> (found: bool)
        ensures
            found == ids_of(old(self).views()).contains(id),
            final(self).views() == without_notification(old(self).views(), id),
            found ==> emitted(old(self).resolved_signal(), final(self).resolved_signal(), (id, ClosedReason::DismissedByUser)),
            !found ==> final(self).resolved_signal() == old(self).resolved_signal(),
            final(self).spec_next_id() == old(self).spec_next_id(),
    {
        self.resolve(id, ClosedReason::DismissedByUser)
    }

    /// A notification's timeout ran out: it is resolved as expired, unless
    /// timeouts are ignored.
    pub fn expire_timed_out(&mut self, id: u32) -> (found: bool)
        ensures
            old(self).spec_ignore_timeout() ==> !found && final(self).views() == old(self).views(),
            !old(self).spec_ignore_timeout() ==> found == ids_of(old(self).views()).contains(id)
                && final(self).views() == without_notification(old(self).views(), id),
            found ==> emitted(old(self).resolved_signal(), final(self).resolved_signal(), (id, ClosedReason::Expired)),
            !found ==> final(self).resolved_signal() == old(self).resolved_signal(),
            final(self).spec_next_id() == old(self).spec_next_id(),
    {
        if self.ignore_timeout {
            return false;
        }
        self.resolve(id, ClosedReason::Expired)
    }

    /// An action of a notification was invoked: the notification's invoked
    /// signal is emitted with the action's id, and a notification that is not
    /// resident is resolved as closed. Returns whether there was such a
    /// notification (the daemon then announces `ActionInvoked`).
    pub fn invoke_action(&mut self, id: u32, action_id: &str) -> (found: bool)
        ensures
            found == ids_of(old(self).views()).contains(id),
            found ==> {
                let n = old(self).views()[index_of_id(old(self).views(), id).unwrap()];
                if bool_hint(n.hints, "resident"@) {
                    final(self).views() == old(self).views()
                } else {
                    final(self).views() == without_notification(old(self).views(), id)
                }
            },
            found ==> {
                let n = old(self).views()[index_of_id(old(self).views(), id).unwrap()];
                if bool_hint(n.hints, "resident"@) {
                    final(self).resolved_signal() == old(self).resolved_signal()
                } else {
                    emitted(old(self).resolved_signal(), final(self).resolved_signal(), (id, ClosedReason::Closed))
                }
            },
            !found ==> final(self).views() == old(self).views(),
            !found ==> final(self).resolved_signal() == old(self).resolved_signal(),
            final(self).spec_next_id() == old(self).spec_next_id(),
    {
        proof {
            use_type_invariant(&*self);
        }
        match self.position(id) {
            Some(k) => {
                let resident = self.notifications[k].resident();
                let ghost before = self.views();
                let mut store: Vec<Notification> = Vec::new();
                std::mem::swap(&mut store, &mut self.notifications);
                let mut target = store.remove(k);
                target.invoke(action_id);
                store.insert(k, target);
                proof {
                    assert(store@.map_values(|x: Notification| x@) =~= before);
                }
                self.notifications = store;
                proof {
                    let vs = self.views();
                    assert(ids_of(vs)[k as int] == id);
                    let j = index_of_id(vs, id).unwrap();
                    assert(vs[j].id == id);
                    assert(j == k);
                }
                if !resident {
                    self.resolve(id, ClosedReason::Closed);
                }
                true
            },
            None => {
                proof {
                    if ids_of(self.views()).contains(id) {
                        let i = choose|i: int| 0 <= i < ids_of(self.views()).len() && ids_of(self.views())[i] == id;
                        assert(self.views()[i].id == id);
                    }
                }
                false
            },
        }
    }

    /// `Notify` at time `now` (seconds since the epoch).
    ///
    /// A notification whose `replaces_id` is stored replaces it in place and
    /// keeps its id; any other gets the next id. Its timeout is
    /// `expire_timeout`, or the default for 0. Hints are kept but for inline
    /// image data; the last hint sent under a name wins. Actions come in
    /// id/label pairs. The notified signal is emitted with the id and whether
    /// it replaced one; where timeouts are honoured and the timeout is
    /// positive, the outcome says after how many milliseconds it expires.
    pub fn notify_at(
        &mut self,
        app_name: String,
        replaces_id: u32,
        app_icon: String,
        summary: String,
        body: String,
        actions: Vec<String>,
        hints: Vec<(String, HintValue)>,
        expire_timeout: i32,
        now: i64,
    ) -> (o: NotifyOutcome)
        requires
            ids_of(old(self).views()).contains(replaces_id) || old(self).spec_next_id() < u32::MAX,
        ensures
            o.replaced == ids_of(old(self).views()).contains(replaces_id),
            o.id == if o.replaced {
                replaces_id
            } else {
                old(self).spec_next_id()
            },
            final(self).spec_next_id() == if o.replaced {
                old(self).spec_next_id()
            } else {
                (old(self).spec_next_id() + 1) as u32
            },
            o.expire_after_ms == if !old(self).spec_ignore_timeout() && effective_timeout(
                expire_timeout,
                old(self).spec_default_timeout(),
            ) > 0 {
                Some(effective_timeout(expire_timeout, old(self).spec_default_timeout()) as u64)
            } else {
                None
            },
            o.replaced ==> {
                let k = index_of_id(old(self).views(), replaces_id).unwrap();
                &&& final(self).views().len() == old(self).views().len()
                &&& forall|i: int| 0 <= i < old(self).views().len() && i != k ==> #[trigger] final(self).views()[i] == old(self).views()[i]
                &&& notified_view(final(self).views()[k], o.id, app_name@, app_icon@, summary@, body@,
                    actions@.map_values(|s: String| s@), hints@,
                    effective_timeout(expire_timeout, old(self).spec_default_timeout()), now)
            },
            !o.replaced ==> {
                &&& final(self).views().drop_last() == old(self).views()
                &&& final(self).views().len() == old(self).views().len() + 1
                &&& notified_view(final(self).views().last(), o.id, app_name@, app_icon@, summary@, body@,
                    actions@.map_values(|s: String| s@), hints@,
                    effective_timeout(expire_timeout, old(self).spec_default_timeout()), now)
            },
            ids_fresh(final(self).views(), final(self).spec_next_id()),
            final(self).spec_ignore_timeout() == old(self).spec_ignore_timeout(),
            final(self).spec_default_timeout() == old(self).spec_default_timeout(),
            emitted(old(self).notified_signal(), final(self).notified_signal(), (o.id, o.replaced)),
            final(self).resolved_signal() == old(self).resolved_signal(),
    {
        proof {
            use_type_invariant(&*self);
        }
        let ghost before = self.views();
        let ghost strv = actions@.map_values(|s: String| s@);
        let ghost sent = hints@;
        let ghost g_app_name = app_name@;
        let ghost g_app_icon = app_icon@;
        let ghost g_summary = summary@;
        let ghost g_body = body@;
        let timeout = if expire_timeout == 0 {
            self.default_timeout
        } else {
            expire_timeout
        };
        let pos = self.position(replaces_id);
        let replaced = pos.is_some();
        let id = if replaced {
            replaces_id
        } else {
            self.next_id
        };
        let mut n = Notification::new();
        n.set_id(id);
        n.set_app_name(app_name);
        n.set_app_icon(app_icon);
        n.set_summary(summary);
        n.set_body(body);
        n.set_expire_timeout(timeout);
        n.set_time(now);
        let mut i: usize = 0;
        while i < hints.len()
            invariant
                i <= hints@.len(),
                sent == hints@,
                n@.state == State::Draft,
                forall|k: Seq<char>| #[trigger] hint_lookup(n@.hints, k) == incoming_hint(hints@.take(i as int), k),
                n@.id == id,
                n@.time == now,
                n@.expire_timeout == timeout,
                n@.app_name == g_app_name,
                n@.app_icon == g_app_icon,
                n@.summary == g_summary,
                n@.body == g_body,
                n@.actions == Seq::<(Seq<char>, Seq<char>)>::empty(),
            decreases hints.len() - i,
        {
            let name = hints[i].0.as_str();
            let skip = crate::text::str_eq(name, "image-data") || crate::text::str_eq(name, "image_data")
                || crate::text::str_eq(name, "icon_data");
            let ghost pre = n@.hints;
            if !skip {
                n.set_hint(name, copy_hint(&hints[i].1));
            }
            proof {
                let t = hints@.take(i + 1);
                assert(t.drop_last() =~= hints@.take(i as int));
                assert(t.last() == hints@[i as int]);
                assert forall|k: Seq<char>| #[trigger] hint_lookup(n@.hints, k) == incoming_hint(t, k) by {
                    if skip && k == name@ {
                        assert(dropped_hint(k));
                    }
                }
            }
            i = i + 1;
        }
        assert(hints@.take(hints@.len() as int) =~= hints@);
        let mut list = Action::new_list(actions);
        let ghost all = list@;
        assert(all.len() == list.len());
        let mut j: usize = 0;
        while list.len() > 0
            invariant
                j + list@.len() == all.len(),
                list@ == all.skip(j as int),
                all.len() == strv.len() / 2,
                forall|q: int| 0 <= q < all.len() ==> (#[trigger] all[q]).spec_id() == strv[2 * q] && all[q].spec_label() == strv[2 * q + 1],
                n@.state == State::Draft,
                n@.actions == action_pairs(strv).take(j as int),
                forall|k: Seq<char>| #[trigger] hint_lookup(n@.hints, k) == incoming_hint(sent, k),
                n@.id == id,
                n@.time == now,
                n@.expire_timeout == timeout,
                n@.app_name == g_app_name,
                n@.app_icon == g_app_icon,
                n@.summary == g_summary,
                n@.body == g_body,
                all.len() <= usize::MAX,
            decreases list@.len(),
        {
            let a = list.remove(0);
            proof {
                assert(a == all[j as int]);
                assert(action_pairs(strv).take(j + 1) =~= action_pairs(strv).take(j as int).push((a.spec_id(), a.spec_label())));
                assert(all.skip(j + 1) =~= all.skip(j as int).drop_first());
            }
            n.add_action(a);
            j = j + 1;
        }
        assert(action_pairs(strv).take(j as int) =~= action_pairs(strv));
        n.set_state(State::Received);
        let ghost v = n@;
        let mut store: Vec<Notification> = Vec::new();
        std::mem::swap(&mut store, &mut self.notifications);
        match pos {
            Some(k) => {
                store.set(k, n);
                proof {
                    assert(store@.map_values(|x: Notification| x@) =~= before.update(k as int, v));
                    let s = before.update(k as int, v);
                    assert forall|a: int, b: int| 0 <= a < b < s.len() implies (#[trigger] s[a]).id != (#[trigger] s[b]).id by {
                        if a != k && b != k {
                            assert(s[a] == before[a] && s[b] == before[b]);
                        } else if a == k {
                            assert(s[b] == before[b]);
                            assert(before[k as int].id == replaces_id);
                        } else {
                            assert(s[a] == before[a]);
                            assert(before[k as int].id == replaces_id);
                        }
                    }
                    assert forall|a: int| 0 <= a < s.len() implies (#[trigger] s[a]).id < self.next_id by {
                        if a != k {
                            assert(s[a] == before[a]);
                        }
                    }
                    let kk = index_of_id(before, replaces_id).unwrap();
                    assert(before[kk].id == replaces_id);
                    assert(kk == k);
                    assert(ids_of(before)[k as int] == replaces_id);
                }
                self.notifications = store;
            },
            None => {
                self.next_id = id + 1;
                store.push(n);
                proof {
                    assert(store@.map_values(|x: Notification| x@) =~= before.push(v));
                    let s = before.push(v);
                    assert forall|a: int, b: int| 0 <= a < b < s.len() implies (#[trigger] s[a]).id != (#[trigger] s[b]).id by {
                        if b < before.len() {
                            assert(s[a] == before[a] && s[b] == before[b]);
                        } else {
                            assert(s[a] == before[a]);
                        }
                    }
                    if ids_of(before).contains(replaces_id) {
                        let q = choose|q: int| 0 <= q < ids_of(before).len() && ids_of(before)[q] == replaces_id;
                        assert(before[q].id == replaces_id);
                    }
                }
                self.notifications = store;
            },
        }
        let mut sig: Signal<(u32, bool)> = Signal::new();
        std::mem::swap(&mut sig, &mut self.notified);
        sig.emit_sync((id, replaced));
        self.notified = sig;
        let expire_after_ms = if !self.ignore_timeout && timeout > 0 {
            Some(timeout as u64)
        } else {
            None
        };
        NotifyOutcome { id, replaced, expire_after_ms }
    }

    /// `Notify`, stamped with the current time.
    pub fn notify(
        &mut self,
        app_name: String,
        replaces_id: u32,
        app_icon: String,
        summary: String,
        body: String,
        actions: Vec<String>,
        hints: Vec<(String, HintValue)>,
        expire_timeout: i32,
    ) -> (o: NotifyOutcome)
        requires
            ids_of(old(self).views()).contains(replaces_id) || old(self).spec_next_id() < u32::MAX,
        ensures
            o.replaced == ids_of(old(self).views()).contains(replaces_id),
            o.id == if o.replaced {
                replaces_id
            } else {
                old(self).spec_next_id()
            },
            final(self).spec_next_id() == if o.replaced {
                old(self).spec_next_id()
            } else {
                (old(self).spec_next_id() + 1) as u32
            },
            o.expire_after_ms == if !old(self).spec_ignore_timeout() && effective_timeout(
                expire_timeout,
                old(self).spec_default_timeout(),
            ) > 0 {
                Some(effective_timeout(expire_timeout, old(self).spec_default_timeout()) as u64)
            } else {
                None
            },
            o.replaced ==> {
                let k = index_of_id(old(self).views(), replaces_id).unwrap();
                &&& final(self).views().len() == old(self).views().len()
                &&& forall|i: int| 0 <= i < old(self).views().len() && i != k ==> #[trigger] final(self).views()[i] == old(self).views()[i]
                &&& notified_view(final(self).views()[k], o.id, app_name@, app_icon@, summary@, body@,
                    actions@.map_values(|s: String| s@), hints@,
                    effective_timeout(expire_timeout, old(self).spec_default_timeout()),
                    final(self).views()[k].time)
            },
            !o.replaced ==> {
                &&& final(self).views().drop_last() == old(self).views()
                &&& final(self).views().len() == old(self).views().len() + 1
                &&& notified_view(final(self).views().last(), o.id, app_name@, app_icon@, summary@, body@,
                    actions@.map_values(|s: String| s@), hints@,
                    effective_timeout(expire_timeout, old(self).spec_default_timeout()),
                    final(self).views().last().time)
            },
            ids_fresh(final(self).views(), final(self).spec_next_id()),
            final(self).spec_ignore_timeout() == old(self).spec_ignore_timeout(),
            final(self).spec_default_timeout() == old(self).spec_default_timeout(),
            emitted(old(self).notified_signal(), final(self).notified_signal(), (o.id, o.replaced)),
            final(self).resolved_signal() == old(self).resolved_signal(),
    {
        let now = unix_now();
        self.notify_at(app_name, replaces_id, app_icon, summary, body, actions, hints, expire_timeout, now)
    }

    /// `GetNotification`: the data of the notification with an id, or
    /// `notification not found`.
    pub fn get_notification(&self, id: u32) -> (r: Result<NotificationData, String>)
        ensures
            match r {
                Ok(d) => exists|i: int| #![trigger self.views()[i]] 0 <= i < self.views().len() && {
                    let n = self.views()[i];
                    &&& n.id == id
                    &&& d.id == id
                    &&& d.app_name@ == n.app_name
                    &&& d.app_icon@ == n.app_icon
                    &&& d.summary@ == n.summary
                    &&& d.body@ == n.body
                    &&& d.expire_timeout == n.expire_timeout
                    &&& d.time == n.time
                    &&& d.hints@ == n.hints
                    &&& d.actions@.len() == 2 * n.actions.len()
                    &&& forall|k: int| 0 <= k < n.actions.len() ==> d.actions@[2 * k]@ == (#[trigger] n.actions[k]).0
                        && d.actions@[2 * k + 1]@ == n.actions[k].1
                },
                Err(e) => e@ == "notification not found"@ && forall|i: int|
                    0 <= i < self.views().len() ==> (#[trigger] self.views()[i]).id != id,
            },
    {
        match self.position(id) {
            Some(k) => {
                let n = &self.notifications[k];
                assert(self.views()[k as int] == n@);
                let pairs = n.action_pairs();
                let mut actions: Vec<String> = Vec::new();
                let mut j: usize = 0;
                while j < pairs.len()
                    invariant
                        j <= pairs@.len(),
                        actions@.len() == 2 * j,
                        forall|m: int| 0 <= m < j ==> actions@[2 * m]@ == (#[trigger] pairs@[m]).0@ && actions@[2 * m + 1]@ == pairs@[m].1@,
                    decreases pairs.len() - j,
                {
                    actions.push(pairs[j].0.clone());
                    actions.push(pairs[j].1.clone());
                    j = j + 1;
                }
                let hs = n.hints();
                let mut hints: Vec<(String, HintValue)> = Vec::new();
                let mut m: usize = 0;
                while m < hs.len()
                    invariant
                        m <= hs@.len(),
                        hints@ == hs@.take(m as int),
                    decreases hs.len() - m,
                {
                    let name = hs[m].0.clone();
                    let value = copy_hint(&hs[m].1);
                    hints.push((name, value));
                    proof {
                        assert(hs@.take(m + 1) =~= hs@.take(m as int).push(hs@[m as int]));
                    }
                    m = m + 1;
                }
                assert(hs@.take(hs@.len() as int) =~= hs@);
                let d = NotificationData {
                    id: n.id(),
                    app_name: n.app_name(),
                    app_icon: n.app_icon(),
                    summary: n.summary(),
                    body: n.body(),
                    expire_timeout: n.expire_timeout(),
                    time: n.time(),
                    actions,
                    hints,
                };
                proof {
                    let v = self.views()[k as int];
                    assert forall|q: int| 0 <= q < v.actions.len() implies d.actions@[2 * q]@ == (#[trigger] v.actions[q]).0
                        && d.actions@[2 * q + 1]@ == v.actions[q].1 by {
                        assert(((pairs@[q]).0@, pairs@[q].1@) == v.actions[q]);
                    }
                }
                Ok(d)
            },
            None => Err("notification not found".to_string()),
        }
    }
}

/// A new notification's id is the id of no stored notification: the ids
/// that the daemon hands out are never reused while a notification holds one.
pub proof fn law_new_id_is_fresh(s: Seq<NotificationView>, next_id: u32)
    requires
        ids_fresh(s, next_id),
    ensures
        !ids_of(s).contains(next_id),
{
    if ids_of(s).contains(next_id) {
        let k = choose|k: int| 0 <= k < ids_of(s).len() && ids_of(s)[k] == next_id;
        assert(s[k].id == next_id);
    }
}

/// Resolving removes: once a notification is resolved no stored
/// notification has its id, so resolving it again finds nothing.
pub proof fn law_resolve_removes(s: Seq<NotificationView>, id: u32)
    ensures
        !ids_of(without_notification(s, id)).contains(id),
        forall|i: int| 0 <= i < without_notification(s, id).len() ==> (#[trigger] without_notification(s, id)[i]).id != id,
    decreases s.len(),
{
    if s.len() > 0 {
        law_resolve_removes(s.drop_last(), id);
    }
    let w = without_notification(s, id);
    if ids_of(w).contains(id) {
        let k = choose|k: int| 0 <= k < ids_of(w).len() && ids_of(w)[k] == id;
        assert(w[k].id == id);
    }
}

/// Resolving keeps every other notification, in order.
pub proof fn law_resolve_keeps_others(s: Seq<NotificationView>, id: u32, n: NotificationView)
    requires
        n.id != id,
    ensures
        s.contains(n) <==> without_notification(s, id).contains(n),
    decreases s.len(),
{
    if s.len() > 0 {
        law_resolve_keeps_others(s.drop_last(), id, n);
        let d = s.drop_last();
        let w = without_notification(s, id);
        let wd = without_notification(d, id);
        if s.contains(n) {
            let k = choose|k: int| 0 <= k < s.len() && s[k] == n;
            if k < s.len() - 1 {
                assert(d[k] == n);
                assert(d.contains(n));
                let j = choose|j: int| 0 <= j < wd.len() && wd[j] == n;
                assert(w[j] == n);
            } else {
                assert(w[w.len() - 1] == n);
            }
        }
        if w.contains(n) {
            let j = choose|j: int| 0 <= j < w.len() && w[j] == n;
            if j < wd.len() {
                assert(wd[j] == n);
                assert(wd.contains(n));
                let k = choose|k: int| 0 <= k < d.len() && d[k] == n;
                assert(s[k] == n);
            } else {
                assert(s[s.len() - 1] == n);
            }
        }
    }
}

} // verus!
