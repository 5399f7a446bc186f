//! Notification actions.
use vstd::prelude::*;
use crate::signal::{emitted, Signal, SignalHandler};

verus! {

/// An action that can be invoked on a notification.
pub struct Action {
    id: String,
    label: String,
    invoked: Signal<()>,
}

/// The (id, label) pairs of a flat list: items two by two, an odd last item
/// dropped.
pub open spec fn action_pairs(strv: Seq<Seq<char>>) -> Seq<(Seq<char>, Seq<char>)> {
    Seq::new(strv.len() / 2, |k: int| (strv[2 * k], strv[2 * k + 1]))
}

impl Action {
    pub closed spec fn spec_id(&self) -> Seq<char> {
        self.id@
    }

    pub closed spec fn spec_label(&self) -> Seq<char> {
        self.label@
    }

    /// The signal emitted when the action is invoked.
    pub closed spec fn invoked_signal(&self) -> Signal<()> {
        self.invoked
    }

    /// An action with no handler.
    pub fn new(id: String, label: String) -> (a: Action)
        ensures
            a.spec_id() == id@,
            a.spec_label() == label@,
            a.invoked_signal().ids() == Seq::<u64>::empty(),
            a.invoked_signal().next_id() == 0,
            a.invoked_signal().emissions() == Seq::<(Seq<u64>, ())>::empty(),
    {
        Action { id, label, invoked: Signal::new() }
    }

    /// The action's identifier.
    pub fn id(&self) -> (s: &str)
        ensures
            s@ == self.spec_id(),
    {
        self.id.as_str()
    }

    /// The action's label.
    pub fn label(&self) -> (s: &str)
        ensures
            s@ == self.spec_label(),
    {
        self.label.as_str()
    }

    /// Invokes the action: every handler connected to this action is called
    /// once; handlers of other actions are not.
    pub fn invoke(&mut self)
        ensures
            emitted(old(self).invoked_signal(), final(self).invoked_signal(), ()),
            final(self).spec_id() == old(self).spec_id(),
            final(self).spec_label() == old(self).spec_label(),
    {
        self.invoked.emit_sync(());
    }

    /// Connects a handler that is called on every invocation.
    pub fn connect_invoked<F: Fn(()) + Send + 'static>(&mut self, callback: F) -> (h: SignalHandler)
        requires
            old(self).invoked_signal().next_id() < u64::MAX,
            forall|v: ()| call_requires(callback, (v,)),
        ensures
            h.spec_id() == old(self).invoked_signal().next_id(),
            final(self).invoked_signal().ids() == old(self).invoked_signal().ids().push(h.spec_id()),
            final(self).invoked_signal().next_id() == old(self).invoked_signal().next_id() + 1,
            final(self).invoked_signal().emissions() == old(self).invoked_signal().emissions(),
            final(self).spec_id() == old(self).spec_id(),
            final(self).spec_label() == old(self).spec_label(),
    {
        self.invoked.connect(callback)
    }

    /// Actions from a flat list of ids and labels, two by two; an odd last
    /// item is dropped.
    pub fn new_list(strv: Vec<String>) -> (r: Vec<Action>)
        ensures
            r@.len() == strv@.len() / 2,
            forall|k: int| 0 <= k < r@.len() ==> {
                &&& (#[trigger] r@[k]).spec_id() == strv@[2 * k]@
                &&& r@[k].spec_label() == strv@[2 * k + 1]@
            },
    {
        let mut out: Vec<Action> = Vec::new();
        let mut i: usize = 0;
        while i + 1 < strv.len()
            invariant
                i % 2 == 0,
                i <= strv@.len(),
                out@.len() == i / 2,
                forall|k: int| 0 <= k < out@.len() ==> {
                    &&& (#[trigger] out@[k]).spec_id() == strv@[2 * k]@
                    &&& out@[k].spec_label() == strv@[2 * k + 1]@
                },
            decreases strv.len() - i,
        {
            let a = Action::new(strv[i].clone(), strv[i + 1].clone());
            out.push(a);
            i = i + 2;
        }
        out
    }
}

} // verus!
