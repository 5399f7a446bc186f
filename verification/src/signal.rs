//! A lightweight signal/slot mechanism for event-driven service notifications.
//!
//! A [`Signal`] keeps its connected handlers in connection order, each under an
//! identifier that is unique among the identifiers it has handed out. Emitting
//! the signal calls every connected handler with a clone of the emitted value.
use vstd::prelude::*;

verus! {

/// Something that can be connected to a [`Signal`] and called with its values.
pub trait Callback<T>: Send {
    fn call(&self, value: T);
}

/// A closure that accepts every value of `T`.
#[verifier::reject_recursive_types(T)]
pub struct TotalFn<T, F: Fn(T)> {
    f: F,
    marker: std::marker::PhantomData<T>,
}

impl<T, F: Fn(T)> TotalFn<T, F> {
    #[verifier::type_invariant]
    closed spec fn total(&self) -> bool {
        forall|v: T| call_requires(self.f, (v,))
    }

    /// The closure that calls are handed to.
    pub closed spec fn func(&self) -> F {
        self.f
    }

    /// Wraps a closure; calls go to `f`.
    pub fn new(f: F) -> (r: Self)
        requires
            forall|v: T| call_requires(f, (v,)),
        ensures
            r.func() == f,
    {
        TotalFn { f, marker: std::marker::PhantomData }
    }
}

impl<T: Send, F: Fn(T) + Send> Callback<T> for TotalFn<T, F> {
    fn call(&self, value: T) {
        proof {
            use_type_invariant(self);
        }
        (self.f)(value)
    }
}

/// Handle returned by [`Signal::connect`]; hand it to [`Signal::disconnect`]
/// to remove the handler again.
#[derive(Debug)]
pub struct SignalHandler {
    id: u64,
}

impl SignalHandler {
    pub closed spec fn spec_id(&self) -> u64 {
        self.id
    }

    /// The identifier of the connected handler.
    pub fn id(&self) -> (r: u64)
        ensures
            r == self.spec_id(),
    {
        self.id
    }
}

/// `s` is strictly increasing and every element is below `bound`.
pub open spec fn ids_ok(s: Seq<u64>, bound: u64) -> bool {
    &&& forall|i: int, j: int| 0 <= i < j < s.len() ==> s[i] < s[j]
    &&& forall|i: int| 0 <= i < s.len() ==> s[i] < bound
}

/// The identifiers of `s` without `id`, in order.
pub open spec fn without_id(s: Seq<u64>, id: u64) -> Seq<u64>
    decreases s.len(),
{
    if s.len() == 0 {
        s
    } else if s.last() == id {
        without_id(s.drop_last(), id)
    } else {
        without_id(s.drop_last(), id).push(s.last())
    }
}

proof fn lemma_without_absent(s: Seq<u64>, id: u64)
    requires
        !s.contains(id),
    ensures
        without_id(s, id) == s,
    decreases s.len(),
{
    if s.len() > 0 {
        assert(!s.drop_last().contains(id)) by {
            if s.drop_last().contains(id) {
                let k = choose|k: int| 0 <= k < s.drop_last().len() && s.drop_last()[k] == id;
                assert(s[k] == id);
            }
        }
        assert(s.last() != id) by {
            assert(s[s.len() - 1] == s.last());
        }
        lemma_without_absent(s.drop_last(), id);
        assert(s.drop_last().push(s.last()) =~= s);
    }
}

proof fn lemma_without_at(s: Seq<u64>, id: u64, i: int)
    requires
        0 <= i < s.len(),
        s[i] == id,
        forall|j: int| 0 <= j < s.len() && j != i ==> s[j] != id,
    ensures
        without_id(s, id) =~= s.remove(i),
    decreases s.len(),
{
    if i == s.len() - 1 {
        assert(!s.drop_last().contains(id)) by {
            if s.drop_last().contains(id) {
                let k = choose|k: int| 0 <= k < s.drop_last().len() && s.drop_last()[k] == id;
                assert(s[k] == id);
            }
        }
        lemma_without_absent(s.drop_last(), id);
        assert(s.remove(i) =~= s.drop_last());
    } else {
        lemma_without_at(s.drop_last(), id, i);
        assert(s.last() != id) by {
            assert(s[s.len() - 1] == s.last());
        }
        assert(s.remove(i) =~= s.drop_last().remove(i).push(s.last()));
    }
}

proof fn lemma_ids_ok_unique(s: Seq<u64>, bound: u64, i: int)
    requires
        ids_ok(s, bound),
        0 <= i < s.len(),
    ensures
        forall|j: int| 0 <= j < s.len() && j != i ==> s[j] != s[i],
{
    assert forall|j: int| 0 <= j < s.len() && j != i implies s[j] != s[i] by {
        if j < i {
            assert(s[j] < s[i]);
        } else {
            assert(s[i] < s[j]);
        }
    }
}

/// One connected handler, under its identifier.
#[verifier::reject_recursive_types(T)]
struct Slot<T> {
    id: u64,
    callback: Box<dyn Callback<T>>,
}

impl<T> Slot<T> {
    /// Calls the handler with `value`; returns the handler's identifier.
    fn fire(&self, value: T) -> (id: u64)
        ensures
            id == self.id,
    {
        self.callback.call(value);
        self.id
    }
}

/// The handlers with one more appended.
fn with_slot<T>(v: Vec<Slot<T>>, x: Slot<T>) -> (r: Vec<Slot<T>>)
    ensures
        r@.len() == v@.len() + 1,
        forall|k: int| 0 <= k < v@.len() ==> r@[k] == v@[k],
        r@[v@.len() as int].id == x.id,
{
    let mut v = v;
    v.push(x);
    v
}

/// A signal that emits values of type `T` to its connected handlers.
///
/// `ids[k]` is the identifier of the handler `callbacks[k]`; both vectors grow
/// and shrink together. `emitted` records every emission: the identifiers of
/// the handlers that were called, in the order they were called, and the value.
#[verifier::reject_recursive_types(T)]
pub struct Signal<T> {
    ids: Vec<u64>,
    callbacks: Vec<Slot<T>>,
    next_id: u64,
    emitted: Ghost<Seq<(Seq<u64>, T)>>,
}

impl<T> Signal<T> {
    /// The identifiers of the connected handlers, in connection order.
    pub closed spec fn ids(&self) -> Seq<u64> {
        self.ids@
    }

    /// The identifier that the next connected handler receives.
    pub closed spec fn next_id(&self) -> u64 {
        self.next_id
    }

    /// Every emission so far, oldest first: the identifiers of the handlers
    /// that were called, in calling order, and the emitted value.
    pub closed spec fn emissions(&self) -> Seq<(Seq<u64>, T)> {
        self.emitted@
    }

    #[verifier::type_invariant]
    closed spec fn well_formed(&self) -> bool {
        &&& ids_ok(self.ids@, self.next_id)
        &&& self.ids@.len() == self.callbacks@.len()
        &&& forall|k: int| 0 <= k < self.ids@.len() ==> (#[trigger] self.callbacks@[k]).id == self.ids@[k]
    }

    /// Create a signal with no handler.
    pub fn new() -> (s: Self)
        ensures
            s.ids() == Seq::<u64>::empty(),
            s.next_id() == 0,
            s.emissions() == Seq::<(Seq<u64>, T)>::empty(),
            ids_ok(s.ids(), s.next_id()),
    {
        let s = Signal {
            ids: Vec::new(),
            callbacks: Vec::new(),
            next_id: 0,
            emitted: Ghost(Seq::empty()),
        };
        assert(s.ids() =~= Seq::<u64>::empty());
        s
    }

    /// Appends a handler under the next identifier.
    fn attach(&mut self, boxed: Box<dyn Callback<T>>)
        requires
            old(self).next_id() < u64::MAX,
        ensures
            final(self).ids() == old(self).ids().push(old(self).next_id()),
            final(self).next_id() == old(self).next_id() + 1,
            final(self).emissions() == old(self).emissions(),
    {
        proof {
            use_type_invariant(&*self);
        }
        let id = self.next_id;
        let ghost old_ids = self.ids@;
        let mut current = Signal::new();
        std::mem::swap(&mut current, self);
        proof {
            use_type_invariant(&current);
        }
        let Signal { mut ids, callbacks, next_id: _, emitted } = current;
        assert(ids@ == old_ids);
        let ghost old_cbs = callbacks@;
        assert(forall|k: int| 0 <= k < old_ids.len() ==> (#[trigger] old_cbs[k]).id == old_ids[k]);
        ids.push(id);
        let slot = Slot { id, callback: boxed };
        let callbacks = with_slot(callbacks, slot);
        proof {
            assert forall|a: int, b: int| 0 <= a < b < ids@.len() implies ids@[a] < ids@[b] by {
                if b == ids@.len() - 1 {
                    assert(old_ids[a] < id);
                } else {
                    assert(ids@[a] == old_ids[a] && ids@[b] == old_ids[b]);
                }
            }
            assert forall|a: int| 0 <= a < ids@.len() implies ids@[a] < id + 1 by {
                if a < old_ids.len() {
                    assert(ids@[a] == old_ids[a]);
                }
            }
            assert forall|k: int| 0 <= k < ids@.len() implies (#[trigger] callbacks@[k]).id == ids@[k] by {
                if k < old_ids.len() {
                    assert(callbacks@[k] == old_cbs[k] && ids@[k] == old_ids[k]);
                }
            }
        }
        *self = Signal { ids, callbacks, next_id: id + 1, emitted };
    }

    /// Connect a callback; it is called on every later emission until it is
    /// disconnected.
    pub fn connect<F: Fn(T) + Send + 'static>(&mut self, callback: F) -> (h: SignalHandler) where
        T: Send + 'static,

        requires
            old(self).next_id() < u64::MAX,
            forall|v: T| call_requires(callback, (v,)),
        ensures
            h.spec_id() == old(self).next_id(),
            !old(self).ids().contains(h.spec_id()),
            final(self).ids() == old(self).ids().push(h.spec_id()),
            final(self).next_id() == old(self).next_id() + 1,
            final(self).emissions() == old(self).emissions(),
            ids_ok(final(self).ids(), final(self).next_id()),
    {
        proof {
            use_type_invariant(&*self);
        }
        let id = self.next_id;
        let ghost old_ids = self.ids@;
        assert(!old_ids.contains(id)) by {
            if old_ids.contains(id) {
                let k = choose|k: int| 0 <= k < old_ids.len() && old_ids[k] == id;
                assert(old_ids[k] < self.next_id);
            }
        }
        let boxed: Box<dyn Callback<T>> = Box::new(TotalFn::new(callback));
        self.attach(boxed);
        SignalHandler { id }
    }

    /// Emit a value: every connected handler is called once, in connection
    /// order, with a clone of `value`, and the emission is recorded.
    pub fn emit_sync(&mut self, value: T) where T: Clone
        ensures
            final(self).ids() == old(self).ids(),
            final(self).next_id() == old(self).next_id(),
            final(self).emissions() == old(self).emissions().push((old(self).ids(), value)),
            ids_ok(final(self).ids(), final(self).next_id()),
    {
        proof {
            use_type_invariant(&*self);
        }
        let ghost mut called: Seq<u64> = Seq::empty();
        let mut i: usize = 0;
        while i < self.callbacks.len()
            invariant
                i <= self.callbacks@.len(),
                self.callbacks@.len() == self.ids@.len(),
                forall|k: int| 0 <= k < self.ids@.len() ==> (#[trigger] self.callbacks@[k]).id == self.ids@[k],
                self.ids@ == old(self).ids(),
                called == self.ids@.take(i as int),
            decreases self.callbacks.len() - i,
        {
            let v = value.clone();
            let fired = self.callbacks[i].fire(v);
            proof {
                assert(self.ids@.take(i + 1) =~= self.ids@.take(i as int).push(self.ids@[i as int]));
                called = called.push(fired);
            }
            i = i + 1;
        }
        assert(called =~= self.ids@);
        self.emitted = Ghost(self.emitted@.push((called, value)));
    }

    /// Disconnect the handler that `handler` was returned for; a handler that is
    /// no longer connected leaves the signal unchanged.
    pub fn disconnect(&mut self, handler: SignalHandler)
        ensures
            final(self).ids() == without_id(old(self).ids(), handler.spec_id()),
            final(self).next_id() == old(self).next_id(),
            final(self).emissions() == old(self).emissions(),
            ids_ok(final(self).ids(), final(self).next_id()),
    {
        proof {
            use_type_invariant(&*self);
        }
        let id = handler.id;
        let ghost old_ids = self.ids@;
        let n = self.ids.len();
        let mut i: usize = 0;
        while i < n
            invariant
                n == self.ids@.len(),
                old_ids == self.ids@,
                old_ids == old(self).ids(),
                id == handler.spec_id(),
                self.next_id == old(self).next_id(),
                self.emitted@ == old(self).emissions(),
                self.callbacks@.len() == n,
                ids_ok(old_ids, self.next_id),
                i <= n,
                forall|j: int| 0 <= j < i ==> old_ids[j] != id,
            decreases n - i,
        {
            if self.ids[i] == id {
                proof {
                    lemma_ids_ok_unique(old_ids, self.next_id, i as int);
                    lemma_without_at(old_ids, id, i as int);
                }
                let mut current = Signal::new();
                std::mem::swap(&mut current, self);
                proof {
                    use_type_invariant(&current);
                }
                let Signal { mut ids, mut callbacks, next_id, emitted } = current;
                let _removed = ids.remove(i);
                let _cb = callbacks.remove(i);
                proof {
                    assert forall|a: int, b: int| 0 <= a < b < ids@.len() implies ids@[a] < ids@[b] by {
                        let a2 = if a < i { a } else { a + 1 };
                        let b2 = if b < i { b } else { b + 1 };
                        assert(ids@[a] == old_ids[a2]);
                        assert(ids@[b] == old_ids[b2]);
                    }
                    assert forall|a: int| 0 <= a < ids@.len() implies ids@[a] < next_id by {
                        let a2 = if a < i { a } else { a + 1 };
                        assert(ids@[a] == old_ids[a2]);
                    }
                }
                *self = Signal { ids, callbacks, next_id, emitted };
                assert(self.ids@ =~= old_ids.remove(i as int));
                assert(without_id(old_ids, id) =~= old_ids.remove(i as int));
                return ;
            }
            i = i + 1;
        }
        proof {
            assert(!old_ids.contains(id)) by {
                if old_ids.contains(id) {
                    let k = choose|k: int| 0 <= k < old_ids.len() && old_ids[k] == id;
                }
            }
            lemma_without_absent(old_ids, id);
        }
    }

    /// The number of connected handlers. Every signal's identifiers are
    /// distinct, increasing, and below the next identifier.
    pub fn handler_count(&self) -> (n: usize)
        ensures
            n == self.ids().len(),
            ids_ok(self.ids(), self.next_id()),
    {
        proof {
            use_type_invariant(self);
        }
        self.ids.len()
    }
}

impl<T> Default for Signal<T> {
    fn default() -> (s: Self)
        ensures
            s.ids() == Seq::<u64>::empty(),
            s.next_id() == 0,
            s.emissions() == Seq::<(Seq<u64>, T)>::empty(),
    {
        Self::new()
    }
}

proof fn lemma_without_contains(s: Seq<u64>, id: u64, k: u64)
    ensures
        without_id(s, id).contains(k) <==> (s.contains(k) && k != id),
    decreases s.len(),
{
    if s.len() > 0 {
        lemma_without_contains(s.drop_last(), id, k);
        let rest = without_id(s.drop_last(), id);
        if s.contains(k) && k != id {
            let j = choose|j: int| 0 <= j < s.len() && s[j] == k;
            if j < s.len() - 1 {
                assert(s.drop_last()[j] == k);
            }
        }
        if s.drop_last().contains(k) {
            let j = choose|j: int| 0 <= j < s.drop_last().len() && s.drop_last()[j] == k;
            assert(s[j] == k);
        }
        if s.last() != id && rest.push(s.last()).contains(k) {
            let j = choose|j: int| 0 <= j < rest.push(s.last()).len() && rest.push(s.last())[j] == k;
            if j < rest.len() {
                assert(rest[j] == k);
            }
        }
        if s.last() != id {
            assert(rest.push(s.last())[rest.len() as int] == s.last());
            if rest.contains(k) {
                let j = choose|j: int| 0 <= j < rest.len() && rest[j] == k;
                assert(rest.push(s.last())[j] == k);
            }
        }
    }
}

/// `after` is `before` with one more emission of `value`, which reached the
/// handlers connected to `before`; the handlers themselves are unchanged.
pub open spec fn emitted<T>(before: Signal<T>, after: Signal<T>, value: T) -> bool {
    &&& after.ids() == before.ids()
    &&& after.next_id() == before.next_id()
    &&& after.emissions() == before.emissions().push((before.ids(), value))
}

/// `after` has the handlers of `before` and no emission more.
pub open spec fn quiet<T>(before: Signal<T>, after: Signal<T>) -> bool {
    &&& after.ids() == before.ids()
    &&& after.next_id() == before.next_id()
    &&& after.emissions() == before.emissions()
}

/// Disconnecting the handler that a connection returned restores the
/// identifiers that were connected before it.
pub proof fn law_disconnect_undoes_connect(before: Seq<u64>, next: u64)
    requires
        ids_ok(before, next),
    ensures
        without_id(before.push(next), next) == before,
{
    assert(!before.contains(next)) by {
        if before.contains(next) {
            let k = choose|k: int| 0 <= k < before.len() && before[k] == next;
        }
    }
    assert(before.push(next).drop_last() =~= before);
    lemma_without_absent(before, next);
}

/// Connecting keeps the identifiers strictly increasing and below the counter:
/// every connected handler has an identifier of its own.
pub proof fn law_connect_keeps_ids_distinct(before: Seq<u64>, next: u64)
    requires
        ids_ok(before, next),
        next < u64::MAX,
    ensures
        ids_ok(before.push(next), (next + 1) as u64),
{
}

/// Disconnecting a connected handler removes exactly one identifier.
pub proof fn law_disconnect_count(before: Seq<u64>, bound: u64, id: u64)
    requires
        ids_ok(before, bound),
    ensures
        before.contains(id) ==> without_id(before, id).len() == before.len() - 1,
        !before.contains(id) ==> without_id(before, id) == before,
{
    if before.contains(id) {
        let k = choose|k: int| 0 <= k < before.len() && before[k] == id;
        lemma_ids_ok_unique(before, bound, k);
        lemma_without_at(before, id, k);
    } else {
        lemma_without_absent(before, id);
    }
}

/// The emission law: an emission reaches exactly the connected handlers. A
/// handler just connected is reached by the next emission; once
/// disconnected it is reached by none, while every other connected handler
/// still is. Each handler is reached once, as the identifiers are distinct.
pub proof fn law_emission_reaches_connected(before: Seq<u64>, next: u64, id: u64, other: u64)
    requires
        ids_ok(before, next),
    ensures
        before.push(next).contains(next),
        !without_id(before, id).contains(id),
        other != id ==> (without_id(before, id).contains(other) <==> before.contains(other)),
        forall|i: int, j: int| 0 <= i < j < before.len() ==> before[i] != before[j],
{
    assert(before.push(next)[before.len() as int] == next);
    lemma_without_contains(before, id, id);
    lemma_without_contains(before, id, other);
}

} // verus!
