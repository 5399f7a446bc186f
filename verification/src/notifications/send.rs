//! What a sender hands to a notification server, and what it does with the
//! server's answers.
use vstd::prelude::*;
use crate::notifications::action::Action;
use crate::notifications::notification::{Notification, NotificationView, copy_hint, hint_set};
use crate::notifications::types::{ClosedReason, HintValue, State, Urgency, reason_of, urgency_byte};
use crate::signal::emitted;

verus! {

/// The arguments of a `Notify` call.
pub struct OutgoingNotification {
    pub app_name: String,
    pub replaces_id: u32,
    pub app_icon: String,
    pub summary: String,
    pub body: String,
    /// Action ids and labels, alternating.
    pub actions: Vec<String>,
    pub hints: Vec<(String, HintValue)>,
    pub expire_timeout: i32,
}

/// Why a notification cannot be sent.
pub const NOT_A_DRAFT: &'static str = "cannot send notification: not a draft";

/// The `Notify` arguments for a draft. An empty application name is replaced
/// by `fallback_app_name`. A notification that is no longer a draft is
/// refused.
pub fn prepare_send(n: &Notification, fallback_app_name: String) -> (r: Result<OutgoingNotification, String>)
    ensures
        n@.state != State::Draft <==> r is Err,
        r matches Err(e) ==> e@ == NOT_A_DRAFT@,
        r matches Ok(o) ==> {
            &&& o.app_name@ == if n@.app_name.len() == 0 {
                fallback_app_name@
            } else {
                n@.app_name
            }
            &&& o.replaces_id == n@.id
            &&& o.app_icon@ == n@.app_icon
            &&& o.summary@ == n@.summary
            &&& o.body@ == n@.body
            &&& o.hints@ == n@.hints
            &&& o.expire_timeout == n@.expire_timeout
            &&& o.actions@.len() == 2 * n@.actions.len()
            &&& forall|k: int| 0 <= k < n@.actions.len() ==> o.actions@[2 * k]@ == (#[trigger] n@.actions[k]).0
                && o.actions@[2 * k + 1]@ == n@.actions[k].1
        },
{
    if n.state() != State::Draft {
        return Err(NOT_A_DRAFT.to_string());
    }
    let pairs = n.action_pairs();
    let mut actions: Vec<String> = Vec::new();
    let mut j: usize = 0;
    while j < pairs.len()
        invariant
            j <= pairs@.len(),
            actions@.len() == 2 * j,
            forall|m: int| 0 <= m < j ==> actions@[2 * m]@ == (#[trigger] pairs@[m]).0@ && actions@[2 * m + 1]@ == pairs@[m].1@,
        decreases pairs.len() - j,
    {
        actions.push(pairs[j].0.clone());
        actions.push(pairs[j].1.clone());
        j = j + 1;
    }
    proof {
        assert forall|k: int| 0 <= k < n@.actions.len() implies actions@[2 * k]@ == (#[trigger] n@.actions[k]).0
            && actions@[2 * k + 1]@ == n@.actions[k].1 by {
            assert((pairs@[k].0@, pairs@[k].1@) == n@.actions[k]);
        }
    }
    let hs = n.hints();
    let mut hints: Vec<(String, HintValue)> = Vec::new();
    let mut m: usize = 0;
    while m < hs.len()
        invariant
            m <= hs@.len(),
            hints@ == hs@.take(m as int),
        decreases hs.len() - m,
    {
        hints.push((hs[m].0.clone(), copy_hint(&hs[m].1)));
        proof {
            assert(hs@.take(m + 1) =~= hs@.take(m as int).push(hs@[m as int]));
        }
        m = m + 1;
    }
    assert(hs@.take(hs@.len() as int) =~= hs@);
    let own = n.app_name();
    let app_name = if own.as_str().unicode_len() == 0 {
        fallback_app_name
    } else {
        own
    };
    Ok(OutgoingNotification {
        app_name,
        replaces_id: n.id(),
        app_icon: n.app_icon(),
        summary: n.summary(),
        body: n.body(),
        actions,
        hints,
        expire_timeout: n.expire_timeout(),
    })
}

/// The server accepted a draft under `id` at time `now`: the notification
/// takes the id and the time and is sent.
pub fn mark_sent(n: &mut Notification, id: u32, now: i64)
    requires
        old(n)@.state == State::Draft,
    ensures
        final(n)@ == (NotificationView { id, time: now, state: State::Sent, ..old(n)@ }),
{
    n.set_id(id);
    n.set_time(now);
    n.set_state(State::Sent);
}

/// The server closed a notification: where it is the one sent under
/// `sent_id`, its resolved signal is emitted with the reason of the code.
/// Returns whether it was (the sender then stops listening).
pub fn on_notification_closed(n: &mut Notification, sent_id: u32, closed_id: u32, reason: u32) -> (done: bool)
    ensures
        done == (closed_id == sent_id),
        done ==> emitted(old(n).resolved_signal(), final(n).resolved_signal(), reason_of(reason)),
        !done ==> final(n).resolved_signal() == old(n).resolved_signal(),
        final(n)@ == old(n)@,
        final(n).invoked_signal() == old(n).invoked_signal(),
{
    if closed_id == sent_id {
        n.emit_resolved(ClosedReason::from_u32(reason));
        true
    } else {
        false
    }
}

/// The server announced an invoked action: where it belongs to the
/// notification sent under `sent_id`, its invoked signal is emitted with the
/// action's id. Returns whether it did.
pub fn on_action_invoked(n: &mut Notification, sent_id: u32, id: u32, action: String) -> (mine: bool)
    ensures
        mine == (id == sent_id),
        mine ==> emitted(old(n).invoked_signal(), final(n).invoked_signal(), action),
        !mine ==> final(n).invoked_signal() == old(n).invoked_signal(),
        final(n)@ == old(n)@,
        final(n).resolved_signal() == old(n).resolved_signal(),
{
    if id == sent_id {
        n.emit_invoked(action);
        true
    } else {
        false
    }
}

/// Builds a draft notification for sending.
pub struct NotificationSender {
    notification: Notification,
}

impl NotificationSender {
    pub closed spec fn draft(&self) -> NotificationView {
        self.notification@
    }

    /// A sender of a new draft.
    pub fn new() -> (s: Self)
        ensures
            s.draft().state == State::Draft,
            s.draft().id == 0,
            s.draft().expire_timeout == -1,
    {
        NotificationSender { notification: Notification::new() }
    }

    pub fn summary(self, summary: String) -> (s: Self)
        ensures
            old_state_draft(self.draft()) ==> s.draft() == (NotificationView { summary: summary@, ..self.draft() }),
    {
        let mut n = self.notification;
        n.set_summary(summary);
        NotificationSender { notification: n }
    }

    pub fn body(self, body: String) -> (s: Self)
        ensures
            old_state_draft(self.draft()) ==> s.draft() == (NotificationView { body: body@, ..self.draft() }),
    {
        let mut n = self.notification;
        n.set_body(body);
        NotificationSender { notification: n }
    }

    pub fn app_name(self, app_name: String) -> (s: Self)
        ensures
            old_state_draft(self.draft()) ==> s.draft() == (NotificationView { app_name: app_name@, ..self.draft() }),
    {
        let mut n = self.notification;
        n.set_app_name(app_name);
        NotificationSender { notification: n }
    }

    pub fn app_icon(self, app_icon: String) -> (s: Self)
        ensures
            old_state_draft(self.draft()) ==> s.draft() == (NotificationView { app_icon: app_icon@, ..self.draft() }),
    {
        let mut n = self.notification;
        n.set_app_icon(app_icon);
        NotificationSender { notification: n }
    }

    pub fn urgency(self, urgency: Urgency) -> (s: Self)
        ensures
            old_state_draft(self.draft()) ==> hint_set(self.draft().hints, s.draft().hints, "urgency"@, HintValue::Byte(urgency_byte(urgency))),
    {
        let mut n = self.notification;
        n.set_urgency(urgency);
        NotificationSender { notification: n }
    }

    pub fn timeout(self, timeout: i32) -> (s: Self)
        ensures
            old_state_draft(self.draft()) ==> s.draft() == (NotificationView { expire_timeout: timeout, ..self.draft() }),
    {
        let mut n = self.notification;
        n.set_expire_timeout(timeout);
        NotificationSender { notification: n }
    }

    pub fn add_action(self, action: Action) -> (s: Self)
        ensures
            old_state_draft(self.draft()) ==> s.draft() == (NotificationView {
                actions: self.draft().actions.push((action.spec_id(), action.spec_label())),
                ..self.draft()
            }),
    {
        let mut n = self.notification;
        n.add_action(action);
        NotificationSender { notification: n }
    }

    pub fn hint(self, name: String, value: HintValue) -> (s: Self)
        ensures
            old_state_draft(self.draft()) ==> hint_set(self.draft().hints, s.draft().hints, name@, value),
    {
        let mut n = self.notification;
        n.set_hint(name.as_str(), value);
        NotificationSender { notification: n }
    }

    pub fn category(self, category: String) -> (s: Self)
        ensures
            old_state_draft(self.draft()) ==> hint_set(self.draft().hints, s.draft().hints, "category"@, HintValue::Str(category)),
    {
        let mut n = self.notification;
        n.set_category(category);
        NotificationSender { notification: n }
    }

    pub fn transient(self, transient: bool) -> (s: Self)
        ensures
            old_state_draft(self.draft()) ==> hint_set(self.draft().hints, s.draft().hints, "transient"@, HintValue::Bool(transient)),
    {
        let mut n = self.notification;
        n.set_transient(transient);
        NotificationSender { notification: n }
    }

    /// The draft to send.
    pub fn into_notification(self) -> (n: Notification)
        ensures
            n@ == self.draft(),
    {
        self.notification
    }
}

/// The notification is still a draft.
pub open spec fn old_state_draft(v: NotificationView) -> bool {
    v.state == State::Draft
}

impl Default for NotificationSender {
    fn default() -> (s: Self)
        ensures
            s.draft().state == State::Draft,
    {
        NotificationSender::new()
    }
}

} // verus!
