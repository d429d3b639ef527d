//! Reactive cells: a value, and the observers that hear of its reads and writes.
use crate::identity::same_allocation;
use crate::observer::ObserverSlot;
use crate::scope::Tracker;
use std::sync::Arc;
use vstd::prelude::*;
use vstd::rwlock::RwLock;
use vstd::rwlock::RwLockPredicate;
use vstd::std_specs::cmp::PartialEqSpec;
use vstd::std_specs::cmp::PartialEqSpecImpl;

verus! {

/// The identity of a cell: a number behind a shared handle.
pub type ReactiveId = Arc<u64>;

/// What a cell guards: the value and the observers, in the order in which they
/// were registered. Observers are only ever added.
#[verifier::reject_recursive_types(T)]
pub struct ReactiveInner<T> {
    value: T,
    observers: Vec<ObserverSlot<T>>,
}

impl<T> ReactiveInner<T> {
    /// The value held.
    pub closed spec fn current(&self) -> T {
        self.value
    }

    /// The observers, oldest first.
    pub closed spec fn observers(&self) -> Seq<ObserverSlot<T>> {
        self.observers@
    }

    /// Every observer has been told of a read of `value`.
    pub open spec fn all_read_seen(&self, value: &T) -> bool {
        forall|i: int|
            0 <= i < self.observers().len() ==> (#[trigger] self.observers()[i]).read_seen(value)
    }

    /// Every observer has been told of the write from `old_value` to `new_value`.
    pub open spec fn all_write_seen(&self, new_value: &T, old_value: &T) -> bool {
        forall|i: int|
            0 <= i < self.observers().len() ==> (#[trigger] self.observers()[i]).write_seen(
                new_value,
                old_value,
            )
    }

    /// What a write leaves behind. `candidate` is the value offered, `before` and
    /// `after` the cell around the write, `previous` what the write hands back:
    /// the replaced value where the candidate was stored, nothing where the
    /// candidate equalled the value held and the cell was left alone.
    pub open spec fn settles(
        before: Self,
        candidate: T,
        after: Self,
        previous: Option<T>,
    ) -> bool where T: PartialEq {
        &&& after.observers() == before.observers()
        &&& match previous {
            Some(replaced) => replaced == before.current() && after.current() == candidate,
            None => after.current() == before.current(),
        }
        &&& T::obeys_eq_spec() ==> (previous is None <==> candidate.eq_spec(&before.current()))
    }

    /// `after` is `before` with `slot` registered behind its observers, and
    /// with the same value.
    pub open spec fn gained(before: Self, slot: ObserverSlot<T>, after: Self) -> bool {
        &&& after.observers() == before.observers().push(slot)
        &&& after.current() == before.current()
    }

    /// `after` is `before` with one observer more, registered behind the
    /// others, and with the same value. The new observer reports a read to
    /// `getter` and a write to `setter`.
    pub open spec fn gained_pair<G: Fn(&T), S: Fn(&T, &T)>(
        before: Self,
        getter: G,
        setter: S,
        after: Self,
    ) -> bool {
        &&& after.observers().len() == before.observers().len() + 1
        &&& after.observers().drop_last() == before.observers()
        &&& after.current() == before.current()
        &&& forall|value: &T| #[trigger]
            after.observers().last().read_seen(value) <==> call_ensures(getter, (value,), ())
        &&& forall|new_value: &T, old_value: &T| #[trigger]
            after.observers().last().write_seen(new_value, old_value) <==> call_ensures(
                setter,
                (new_value, old_value),
                (),
            )
    }

    /// A cell holding `value`, with no observer.
    pub fn new(value: T) -> (res: Self)
        ensures
            res.current() == value,
            res.observers() == Seq::<ObserverSlot<T>>::empty(),
    {
        ReactiveInner { value, observers: Vec::new() }
    }

    /// Registers `slot` behind the observers already there.
    pub fn attach(&mut self, slot: ObserverSlot<T>)
        ensures
            final(self).observers() == old(self).observers().push(slot),
            final(self).current() == old(self).current(),
    {
        self.observers.push(slot);
    }

    /// Registers a read callback and a write callback as one observer, behind
    /// the observers already there.
    pub fn add_observer<G, S>(&mut self, getter_observer: G, setter_observer: S) where
        T: Send + Sync + 'static,
        G: Fn(&T) + Send + Sync + 'static,
        S: Fn(&T, &T) + Send + Sync + 'static,

        requires
            forall|value: &T| call_requires(getter_observer, (value,)),
            forall|new_value: &T, old_value: &T|
                call_requires(setter_observer, (new_value, old_value)),
        ensures
            final(self).observers().len() == old(self).observers().len() + 1,
            final(self).observers().drop_last() == old(self).observers(),
            final(self).current() == old(self).current(),
            forall|value: &T| #[trigger]
                final(self).observers().last().read_seen(value) <==> call_ensures(
                    getter_observer,
                    (value,),
                    (),
                ),
            forall|new_value: &T, old_value: &T| #[trigger]
                final(self).observers().last().write_seen(new_value, old_value) <==> call_ensures(
                    setter_observer,
                    (new_value, old_value),
                    (),
                ),
    {
        let slot = ObserverSlot::from_fns(getter_observer, setter_observer);
        self.attach(slot);
        assert(self.observers().drop_last() =~= old(self).observers());
        assert(self.observers().last() == slot);
    }

    /// Tells every observer, oldest first, that the value was read.
    pub fn traverse_getter_observers(&self)
        ensures
            self.all_read_seen(&self.current()),
    {
        let mut i: usize = 0;
        while i < self.observers.len()
            invariant
                i <= self.observers@.len(),
                forall|j: int|
                    0 <= j < i ==> (#[trigger] self.observers@[j]).read_seen(&self.value),
            decreases self.observers@.len() - i,
        {
            self.observers[i].on_read(&self.value);
            i += 1;
        }
    }

    /// Tells every observer, oldest first, that the value held replaced
    /// `old_value`.
    pub fn traverse_setter_observers(&self, old_value: &T)
        ensures
            self.all_write_seen(&self.current(), old_value),
    {
        let mut i: usize = 0;
        while i < self.observers.len()
            invariant
                i <= self.observers@.len(),
                forall|j: int|
                    0 <= j < i ==> (#[trigger] self.observers@[j]).write_seen(
                        &self.value,
                        old_value,
                    ),
            decreases self.observers@.len() - i,
        {
            self.observers[i].on_write(&self.value, old_value);
            i += 1;
        }
    }

    /// Tells the observers of a write, if there was one: `change` is what
    /// `update` handed back. Returns how many observers were told.
    pub fn notify(&self, change: &Option<T>) -> (told: usize)
        ensures
            match change {
                Some(old_value) => told == self.observers().len() && self.all_write_seen(
                    &self.current(),
                    old_value,
                ),
                None => told == 0,
            },
    {
        match change {
            Some(old_value) => {
                self.traverse_setter_observers(old_value);
                self.observers.len()
            },
            None => 0,
        }
    }
}

impl<T: Clone> ReactiveInner<T> {
    /// Reads the value: every observer is told of the read, then a clone of
    /// the value is returned.
    pub fn value(&self) -> (res: T)
        ensures
            cloned(self.current(), res),
            self.all_read_seen(&self.current()),
    {
        self.traverse_getter_observers();
        self.value.clone()
    }
}

impl<T: PartialEq> ReactiveInner<T> {
    /// Stores `candidate` if it differs from the value held, and hands back the
    /// value it replaced; leaves the cell alone if the two are equal.
    pub fn replace_if_changed(&mut self, candidate: T) -> (res: Option<T>)
        ensures
            Self::settles(*old(self), candidate, *final(self), res),
    {
        if candidate != self.value {
            let mut old_value = candidate;
            std::mem::swap(&mut self.value, &mut old_value);
            Some(old_value)
        } else {
            None
        }
    }

    /// Writes `f` of the value held, as `replace_if_changed` does. Tells no
    /// observer.
    pub fn update<F: Fn(&T) -> T>(&mut self, f: F) -> (res: Option<T>)
        requires
            call_requires(f, (&old(self).current(),)),
        ensures
            exists|candidate: T|
                {
                    &&& #[trigger] call_ensures(f, (&old(self).current(),), candidate)
                    &&& Self::settles(*old(self), candidate, *final(self), res)
                },
    {
        let new_value = f(&self.value);
        self.replace_if_changed(new_value)
    }
}

impl<T: Default> Default for ReactiveInner<T> {
    /// A cell holding the default value of `T`, with no observer.
    fn default() -> (res: Self)
        ensures
            call_ensures(T::default, (), res.current()),
            res.observers() == Seq::<ObserverSlot<T>>::empty(),
    {
        ReactiveInner::new(T::default())
    }
}

/// What the lock of a cell admits. A cell that a scope has made is followed by
/// that scope from its first moment to its last: the listeners of the scope are
/// the first of its observers. A cell of its own holds any observers.
pub struct AnyCell {
    /// The listeners of the scope that made the cell; none for a cell of its
    /// own.
    pub listener: Option<Tracker>,
}

impl<T> RwLockPredicate<ReactiveInner<T>> for AnyCell {
    open spec fn inv(self, inner: ReactiveInner<T>) -> bool {
        match self.listener {
            Some(tracker) => inner.observers().len() > 0 && inner.observers()[0]
                == ObserverSlot::<T>::Listener(tracker),
            None => true,
        }
    }
}

/// A handle on a reactive cell. Clones share the value, the observers and the
/// identity. What a cell holds at a given moment is known only under its lock,
/// to `ReactiveInner`, whose contracts say what a read and a write do.
///
/// Two handles are equal when they are handles on one cell. The number of a
/// cell is what the scope that made it knows it by: a scope numbers its cells
/// apart, and a cell made by `new` belongs to no scope and carries the number 0.
#[verifier::reject_recursive_types(T)]
pub struct Reactive<T> {
    inner: Arc<RwLock<ReactiveInner<T>, AnyCell>>,
    id: ReactiveId,
}

impl<T> Reactive<T> {
    /// The number behind the identity of the cell.
    pub closed spec fn number(&self) -> u64 {
        *self.id
    }

    /// The listeners of the scope that made the cell; none for a cell of its
    /// own.
    pub closed spec fn listener(&self) -> Option<Tracker> {
        self.inner.pred().listener
    }

    /// What the cell may hold at any moment: where a scope made the cell, the
    /// listeners of that scope are the first of the observers.
    pub open spec fn admits(&self, inner: ReactiveInner<T>) -> bool {
        match self.listener() {
            Some(tracker) => inner.observers().len() > 0 && inner.observers()[0]
                == ObserverSlot::<T>::Listener(tracker),
            None => true,
        }
    }

    /// A cell of its own, outside every scope, holding `value`.
    pub fn new(value: T) -> (res: Self)
        ensures
            res.number() == 0,
            res.listener() is None,
    {
        Reactive::with_number(value, 0)
    }

    /// A cell holding `value`, with `number` for its identity.
    pub fn with_number(value: T, number: u64) -> (res: Self)
        ensures
            res.number() == number,
            res.listener() is None,
    {
        let inner = RwLock::new(ReactiveInner::new(value), Ghost(AnyCell { listener: None }));
        Reactive { inner: Arc::new(inner), id: Arc::new(number) }
    }

    /// A cell holding `value`, with `id` for its identity, that reports every
    /// read and every changing write to `tracker` before any other observer.
    pub fn listened(value: T, id: ReactiveId, tracker: Tracker) -> (res: Self)
        ensures
            res.number() == *id,
            res.listener() == Some(tracker),
    {
        let ghost listener = tracker;
        let mut inner = ReactiveInner::new(value);
        inner.attach(ObserverSlot::Listener(tracker));
        let inner = RwLock::new(inner, Ghost(AnyCell { listener: Some(listener) }));
        Reactive { inner: Arc::new(inner), id }
    }

    /// The identity of the cell.
    pub fn id(&self) -> (res: ReactiveId)
        ensures
            *res == self.number(),
    {
        Arc::clone(&self.id)
    }

    /// Registers `slot` behind the observers of the cell, under its exclusive
    /// lock.
    ///
    /// What the cell holds is known only under the lock. Whatever it held,
    /// it holds the same with `slot` behind the other observers when the lock
    /// is given up.
    pub fn attach(&self, slot: ObserverSlot<T>)
        ensures
            exists|before: ReactiveInner<T>, after: ReactiveInner<T>|
                {
                    &&& self.admits(before)
                    &&& self.admits(after)
                    &&& #[trigger] ReactiveInner::gained(before, slot, after)
                },
    {
        let (inner, handle) = self.inner.acquire_write();
        let ghost before = inner;
        let mut inner = inner;
        inner.attach(slot);
        let ghost after = inner;
        handle.release_write(inner);
        assert(self.admits(before) && self.admits(after) && ReactiveInner::gained(
            before,
            slot,
            after,
        ));
    }

    /// Registers a read callback and a write callback as one observer, behind
    /// the observers of the cell.
    pub fn add_observer<G, S>(&self, getter_observer: G, setter_observer: S) where
        T: Send + Sync + 'static,
        G: Fn(&T) + Send + Sync + 'static,
        S: Fn(&T, &T) + Send + Sync + 'static,

        requires
            forall|value: &T| call_requires(getter_observer, (value,)),
            forall|new_value: &T, old_value: &T|
                call_requires(setter_observer, (new_value, old_value)),
        ensures
            exists|before: ReactiveInner<T>, after: ReactiveInner<T>|
                {
                    &&& self.admits(before)
                    &&& self.admits(after)
                    &&& #[trigger] ReactiveInner::gained_pair(
                        before,
                        getter_observer,
                        setter_observer,
                        after,
                    )
                },
    {
        let (inner, handle) = self.inner.acquire_write();
        let ghost before = inner;
        let mut inner = inner;
        inner.add_observer(getter_observer, setter_observer);
        let ghost after = inner;
        handle.release_write(inner);
        assert(self.admits(before) && self.admits(after) && ReactiveInner::gained_pair(
            before,
            getter_observer,
            setter_observer,
            after,
        ));
    }
}

impl<T: Clone> Reactive<T> {
    /// Reads the cell under its shared lock: every observer is told of the
    /// read, then a clone of the value is returned.
    ///
    /// What the cell holds is known only under the lock. Whatever it held,
    /// the result is a clone of the value, and each observer, the listeners
    /// of the cell's scope among them, was told of the read of that value.
    pub fn value(&self) -> (res: T)
        ensures
            exists|held: ReactiveInner<T>|
                {
                    &&& self.admits(held)
                    &&& #[trigger] cloned(held.current(), res)
                    &&& held.all_read_seen(&held.current())
                },
    {
        let handle = self.inner.acquire_read();
        let res = handle.borrow().value();
        assert(self.admits(handle.view()));
        handle.release_read();
        res
    }
}

impl<T: PartialEq> Reactive<T> {
    /// Writes `f` of the value held, under the exclusive lock of the cell. If
    /// that changed the value, the lock is given up and every observer is told
    /// of the write, under the shared lock; if not, no observer is told.
    ///
    /// What the cell holds is known only under the lock. Whatever it held,
    /// `before`: `f` was applied to the value, and the write left the cell as
    /// `settles` says, `after`. Where that handed back a replaced value, the
    /// cell was then found as some `told`, and every observer of `told` was
    /// told of the write from the replaced value to the value of `told`.
    pub fn update<F: Fn(&T) -> T>(&self, f: F)
        requires
            forall|value: &T| call_requires(f, (value,)),
        ensures
            exists|
                before: ReactiveInner<T>,
                candidate: T,
                after: ReactiveInner<T>,
                previous: Option<T>,
            |
                {
                    &&& self.admits(before)
                    &&& self.admits(after)
                    &&& call_ensures(f, (&before.current(),), candidate)
                    &&& #[trigger] ReactiveInner::settles(before, candidate, after, previous)
                    &&& previous matches Some(old_value) ==> exists|told: ReactiveInner<T>|
                        self.admits(told) && #[trigger] told.all_write_seen(
                            &told.current(),
                            &old_value,
                        )
                },
    {
        let (inner, handle) = self.inner.acquire_write();
        let ghost before = inner;
        let mut inner = inner;
        let change = inner.update(f);
        let ghost after = inner;
        let ghost candidate = choose|candidate: T|
            {
                &&& #[trigger] call_ensures(f, (&before.current(),), candidate)
                &&& ReactiveInner::settles(before, candidate, after, change)
            };
        handle.release_write(inner);
        if change.is_some() {
            let handle = self.inner.acquire_read();
            let ghost told = handle.view();
            handle.borrow().notify(&change);
            handle.release_read();
            assert(self.admits(told) && told.all_write_seen(&told.current(), &change->0));
        }
        assert(self.admits(before) && self.admits(after));
        assert(ReactiveInner::settles(before, candidate, after, change));
    }
}

impl<T: Default> Default for Reactive<T> {
    /// A cell of its own, outside every scope, holding the default value of
    /// `T`.
    fn default() -> (res: Self)
        ensures
            res.number() == 0,
            res.listener() is None,
    {
        Reactive::new(T::default())
    }
}

impl<T> Clone for Reactive<T> {
    /// Another handle on the same cell.
    fn clone(&self) -> (res: Self)
        ensures
            res == *self,
    {
        Reactive { inner: Arc::clone(&self.inner), id: Arc::clone(&self.id) }
    }
}

impl<T> PartialEq for Reactive<T> {
    /// Whether the two are handles on one cell.
    fn eq(&self, other: &Self) -> (res: bool)
        ensures
            res ==> self.number() == other.number(),
    {
        same_allocation(&self.id, &other.id)
    }
}

impl<T> Eq for Reactive<T> {}

impl<T> PartialEqSpecImpl for Reactive<T> {
    /// Which cell a handle is on is no part of what the handle holds: no
    /// predicate over two handles says what `==` returns.
    open spec fn obeys_eq_spec() -> bool {
        false
    }

    open spec fn eq_spec(&self, other: &Self) -> bool {
        *self == *other
    }
}

} // verus!
