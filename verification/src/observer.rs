//! The pair of callbacks through which a cell reports reads and writes.
use crate::held::Held;
use crate::scope::Tracker;
use std::marker::PhantomData;
use vstd::prelude::*;

verus! {

/// What a cell calls when its value is read, and when a write has changed it.
///
/// Both methods take every value: a cell hands over whatever it holds. The two
/// spec functions stand for what the observer has done once the call returns.
pub trait Observer<T>: Send + Sync {
    /// Holds of a value once `on_read` has returned for it.
    spec fn read_seen(&self, value: &T) -> bool;

    /// Holds of a pair of values once `on_write` has returned for it.
    spec fn write_seen(&self, new_value: &T, old_value: &T) -> bool;

    /// Reports that `value` was read.
    fn on_read(&self, value: &T)
        ensures
            self.read_seen(value),
    ;

    /// Reports that the cell went from `old_value` to `new_value`.
    fn on_write(&self, new_value: &T, old_value: &T)
        ensures
            self.write_seen(new_value, old_value),
    ;
}

/// Two closures taken together as one observer.
pub struct FnObserver<T, G: Fn(&T), S: Fn(&T, &T)> {
    getter: G,
    setter: S,
    marker: PhantomData<T>,
}

impl<T, G: Fn(&T), S: Fn(&T, &T)> FnObserver<T, G, S> {
    /// Both closures can be called with any values.
    #[verifier::type_invariant]
    spec fn total(&self) -> bool {
        &&& forall|value: &T| call_requires(self.getter, (value,))
        &&& forall|new_value: &T, old_value: &T| call_requires(self.setter, (new_value, old_value))
    }

    /// The closure that is called on a read.
    pub closed spec fn getter(&self) -> G {
        self.getter
    }

    /// The closure that is called on a write.
    pub closed spec fn setter(&self) -> S {
        self.setter
    }

    /// Pairs a read callback with a write callback.
    pub fn new(getter: G, setter: S) -> (res: Self)
        requires
            forall|value: &T| call_requires(getter, (value,)),
            forall|new_value: &T, old_value: &T| call_requires(setter, (new_value, old_value)),
        ensures
            res.getter() == getter,
            res.setter() == setter,
    {
        FnObserver { getter, setter, marker: PhantomData }
    }
}

impl<T, G, S> Observer<T> for FnObserver<T, G, S> where
    T: Send + Sync,
    G: Fn(&T) + Send + Sync,
    S: Fn(&T, &T) + Send + Sync,
 {
    open spec fn read_seen(&self, value: &T) -> bool {
        call_ensures(self.getter(), (value,), ())
    }

    open spec fn write_seen(&self, new_value: &T, old_value: &T) -> bool {
        call_ensures(self.setter(), (new_value, old_value), ())
    }

    fn on_read(&self, value: &T) {
        proof {
            use_type_invariant(self);
        }
        (self.getter)(value)
    }

    fn on_write(&self, new_value: &T, old_value: &T) {
        proof {
            use_type_invariant(self);
        }
        (self.setter)(new_value, old_value)
    }
}

/// An observer that passes each report on to the observer it holds. What is
/// known of that observer stays known of the relay once the relay stands
/// behind `dyn`.
pub struct Relay<O> {
    observer: O,
}

impl<O> Relay<O> {
    /// The observer that the reports go to.
    pub closed spec fn observer(&self) -> O {
        self.observer
    }
}

impl<T, O: Observer<T>> Observer<T> for Relay<O> {
    open spec fn read_seen(&self, value: &T) -> bool {
        self.observer().read_seen(value)
    }

    open spec fn write_seen(&self, new_value: &T, old_value: &T) -> bool {
        self.observer().write_seen(new_value, old_value)
    }

    fn on_read(&self, value: &T) {
        self.observer.on_read(value)
    }

    fn on_write(&self, new_value: &T, old_value: &T) {
        self.observer.on_write(new_value, old_value)
    }
}

/// One registered observer of a cell: the listeners of the scope that made
/// the cell, or any observer at all.
#[verifier::reject_recursive_types(T)]
pub enum ObserverSlot<T> {
    /// The two listeners through which a scope follows the cell.
    Listener(Tracker),
    /// An observer of any type.
    Callback(Held<Box<dyn Observer<T>>>),
}

impl<T> ObserverSlot<T> {
    /// Holds of a value once this observer has been told of a read of it.
    pub open spec fn read_seen(&self, value: &T) -> bool {
        match self {
            ObserverSlot::Listener(tracker) => tracker.read_seen(value),
            ObserverSlot::Callback(held) => held.item().read_seen(value),
        }
    }

    /// Holds of a pair of values once this observer has been told of that write.
    pub open spec fn write_seen(&self, new_value: &T, old_value: &T) -> bool {
        match self {
            ObserverSlot::Listener(tracker) => tracker.write_seen(new_value, old_value),
            ObserverSlot::Callback(held) => held.item().write_seen(new_value, old_value),
        }
    }

    /// Registers any observer: the slot tells it whatever the slot is told.
    pub fn new<O: Observer<T> + 'static>(observer: O) -> (res: Self)
        ensures
            res is Callback,
            forall|value: &T| #[trigger] res.read_seen(value) == observer.read_seen(value),
            forall|new_value: &T, old_value: &T| #[trigger]
                res.write_seen(new_value, old_value) == observer.write_seen(new_value, old_value),
    {
        let relay = Relay { observer };
        let boxed: Box<dyn Observer<T>> = Box::new(relay);
        let held = Held::new(boxed);
        assert(held.item() == boxed);
        let res = ObserverSlot::Callback(held);
        assert(res->Callback_0 == held);
        assert forall|value: &T| #[trigger] res.read_seen(value) == observer.read_seen(value) by {
            assert(boxed.read_seen(value) == relay.read_seen(value));
        }
        assert forall|new_value: &T, old_value: &T| #[trigger]
            res.write_seen(new_value, old_value) == observer.write_seen(
                new_value,
                old_value,
            ) by {
            assert(boxed.write_seen(new_value, old_value) == relay.write_seen(
                new_value,
                old_value,
            ));
        }
        res
    }

    /// Registers a pair of closures: a read is reported to `getter`, a write to
    /// `setter`.
    pub fn from_fns<G, S>(getter: G, setter: S) -> (res: Self) where
        T: Send + Sync + 'static,
        G: Fn(&T) + Send + Sync + 'static,
        S: Fn(&T, &T) + Send + Sync + 'static,

        requires
            forall|value: &T| call_requires(getter, (value,)),
            forall|new_value: &T, old_value: &T| call_requires(setter, (new_value, old_value)),
        ensures
            res is Callback,
            forall|value: &T| #[trigger]
                res.read_seen(value) <==> call_ensures(getter, (value,), ()),
            forall|new_value: &T, old_value: &T| #[trigger]
                res.write_seen(new_value, old_value) <==> call_ensures(
                    setter,
                    (new_value, old_value),
                    (),
                ),
    {
        ObserverSlot::new(FnObserver::new(getter, setter))
    }

    /// Tells the observer that `value` was read.
    pub fn on_read(&self, value: &T)
        ensures
            self.read_seen(value),
    {
        match self {
            ObserverSlot::Listener(tracker) => tracker.on_read(value),
            ObserverSlot::Callback(held) => held.get().on_read(value),
        }
    }

    /// Tells the observer that the cell went from `old_value` to `new_value`.
    pub fn on_write(&self, new_value: &T, old_value: &T)
        ensures
            self.write_seen(new_value, old_value),
    {
        match self {
            ObserverSlot::Listener(tracker) => tracker.on_write(new_value, old_value),
            ObserverSlot::Callback(held) => held.get().on_write(new_value, old_value),
        }
    }
}

} // verus!
