//! Effects: closures with an identity, run again when a cell they read changes.
use crate::held::Held;
use std::sync::Arc;
use vstd::prelude::*;
use vstd::std_specs::cmp::PartialEqSpecImpl;

verus! {

/// Something that can be run any number of times, with no argument and no
/// result.
pub trait Action: Send + Sync {
    /// Holds once `run` has returned.
    spec fn ran(&self) -> bool;

    /// Runs the action.
    fn run(&self)
        ensures
            self.ran(),
    ;
}

/// A shared closure taken as an action.
pub struct FnAction<F: Fn()> {
    f: Arc<F>,
}

impl<F: Fn()> FnAction<F> {
    /// The closure can be called.
    #[verifier::type_invariant]
    spec fn callable(&self) -> bool {
        call_requires(*self.f, ())
    }

    /// The closure that the action runs.
    pub closed spec fn closure(&self) -> Arc<F> {
        self.f
    }

    /// Takes `f` as an action.
    pub fn new(f: Arc<F>) -> (res: Self)
        requires
            call_requires(*f, ()),
        ensures
            res.closure() == f,
    {
        FnAction { f }
    }
}

impl<F: Fn() + Send + Sync> Action for FnAction<F> {
    open spec fn ran(&self) -> bool {
        call_ensures(*self.closure(), (), ())
    }

    fn run(&self) {
        proof {
            use_type_invariant(self);
        }
        let f: &F = &self.f;
        f()
    }
}

/// An action that runs the action it holds. What is known of that action stays
/// known of the delegate once the delegate stands behind `dyn`.
pub struct Delegate<A> {
    action: A,
}

impl<A> Delegate<A> {
    /// The action that is run.
    pub closed spec fn action(&self) -> A {
        self.action
    }
}

impl<A: Action> Action for Delegate<A> {
    open spec fn ran(&self) -> bool {
        self.action().ran()
    }

    fn run(&self) {
        self.action.run()
    }
}

/// The body of an effect, whatever its type.
pub struct Body {
    action: Held<Box<dyn Action>>,
}

impl Body {
    /// Holds once the body has been run.
    pub closed spec fn ran(&self) -> bool {
        self.action.item().ran()
    }

    /// Takes any action as a body: the body has run when the action has.
    pub fn new<A: Action + 'static>(action: A) -> (res: Self)
        ensures
            res.ran() == action.ran(),
    {
        let delegate = Delegate { action };
        let boxed: Box<dyn Action> = Box::new(delegate);
        let held = Held::new(boxed);
        assert(held.item() == boxed);
        assert(boxed.ran() == delegate.ran());
        Body { action: held }
    }

    /// Runs the body.
    pub fn run(&self)
        ensures
            self.ran(),
    {
        self.action.get().run()
    }
}

/// A closure and the number that tells it apart from every other effect of
/// its scope. Clones share the closure and the number; two effects are equal
/// when their numbers are.
pub struct Effect {
    body: Arc<Body>,
    id: u64,
}

impl Effect {
    /// The number of the effect.
    pub closed spec fn id(&self) -> u64 {
        self.id
    }

    /// Holds once the closure has been run.
    pub closed spec fn ran(&self) -> bool {
        self.body.ran()
    }

    /// An effect that runs `f` and carries the number `id`.
    pub fn new<F: Fn() + Send + Sync + 'static>(f: F, id: u64) -> (res: Self)
        requires
            call_requires(f, ()),
        ensures
            res.id() == id,
            res.ran() <==> call_ensures(f, (), ()),
    {
        Effect::sharing(Arc::new(f), id)
    }

    /// An effect that runs the closure behind `f` and carries the number `id`.
    pub fn sharing<F: Fn() + Send + Sync + 'static>(f: Arc<F>, id: u64) -> (res: Self)
        requires
            call_requires(*f, ()),
        ensures
            res.id() == id,
            res.ran() <==> call_ensures(*f, (), ()),
    {
        Effect { body: Arc::new(Body::new(FnAction::new(f))), id }
    }

    /// The number of the effect.
    pub fn number(&self) -> (res: u64)
        ensures
            res == self.id(),
    {
        self.id
    }

    /// Runs the closure once.
    pub fn call(&self)
        ensures
            self.ran(),
    {
        self.body.run()
    }
}

impl Clone for Effect {
    fn clone(&self) -> (res: Self)
        ensures
            res == *self,
    {
        Effect { body: Arc::clone(&self.body), id: self.id }
    }
}

impl PartialEq for Effect {
    fn eq(&self, other: &Self) -> (res: bool) {
        self.id == other.id
    }
}

impl Eq for Effect {}

impl PartialEqSpecImpl for Effect {
    open spec fn obeys_eq_spec() -> bool {
        true
    }

    open spec fn eq_spec(&self, other: &Self) -> bool {
        self.id() == other.id()
    }
}

} // verus!
