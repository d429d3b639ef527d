//! Scopes: who is running, and who depends on what.
use crate::dependencies::bindings;
use crate::dependencies::well_formed;
use crate::dependencies::DependencyTable;
use crate::effect::Effect;
use crate::identity::same_allocation;
use crate::observer::Observer;
use crate::reactive::Reactive;
use crate::reactive::ReactiveId;
use std::sync::atomic::AtomicU64;
use std::sync::Arc;
use vstd::prelude::*;
use vstd::rwlock::RwLock;
use vstd::rwlock::RwLockPredicate;
use vstd::std_specs::cmp::PartialEqSpecImpl;

verus! {

/// What the lock of the stack of running effects admits: any stack.
pub struct AnyStack;

impl RwLockPredicate<Vec<Effect>> for AnyStack {
    open spec fn inv(self, stack: Vec<Effect>) -> bool {
        true
    }
}

/// What the lock of the dependency table admits: tables in which every
/// binding holds each effect once.
pub struct EachOnce;

impl RwLockPredicate<DependencyTable> for EachOnce {
    open spec fn inv(self, table: DependencyTable) -> bool {
        well_formed(bindings(table))
    }
}

/// Where the scopes of one lineage take their numbers from: one counter for
/// scopes, one for cells, one for effects.
pub struct IdSource {
    scopes: AtomicU64,
    cells: AtomicU64,
    effects: AtomicU64,
}

/// The effect that is running at the moment: the last that entered the stack
/// and has not left it. None where the stack is empty.
pub open spec fn running(stack: Seq<Effect>) -> Option<Effect> {
    if stack.len() > 0 {
        Some(stack.last())
    } else {
        None
    }
}

/// The effect on top of the stack.
pub fn top(stack: &Vec<Effect>) -> (res: Option<Effect>)
    ensures
        res == running(stack@),
{
    if stack.len() > 0 {
        Some(stack[stack.len() - 1].clone())
    } else {
        None
    }
}

/// Runs every effect, first to last.
pub fn run_all(effects: &Vec<Effect>)
    ensures
        forall|i: int| 0 <= i < effects@.len() ==> (#[trigger] effects@[i]).ran(),
{
    let mut i: usize = 0;
    while i < effects.len()
        invariant
            i <= effects@.len(),
            forall|j: int| 0 <= j < i ==> (#[trigger] effects@[j]).ran(),
        decreases effects@.len() - i,
    {
        effects[i].call();
        i += 1;
    }
}

/// What a scope has a cell call on every read.
pub struct GetListen {
    functions: Arc<RwLock<Vec<Effect>, AnyStack>>,
    map: Arc<RwLock<DependencyTable, EachOnce>>,
    id: ReactiveId,
}

impl GetListen {
    /// The stack on which the listener looks for the effect that is running.
    pub closed spec fn stack(&self) -> Arc<RwLock<Vec<Effect>, AnyStack>> {
        self.functions
    }

    /// The table in which the listener subscribes that effect.
    pub closed spec fn table(&self) -> Arc<RwLock<DependencyTable, EachOnce>> {
        self.map
    }

    /// The cell that the listener subscribes it to.
    pub closed spec fn cell(&self) -> ReactiveId {
        self.id
    }

    /// Subscribes the effect that is running, if one is, to the cell. Each of
    /// the two locks is held for its own step only.
    pub fn call(&self) {
        let handle = self.functions.acquire_read();
        let active = top(handle.borrow());
        handle.release_read();
        if active.is_some() {
            let (table, handle) = self.map.acquire_write();
            let mut table = table;
            table.record(&self.id, active);
            handle.release_write(table);
        }
    }
}

/// What a scope has a cell call on every write that changed it.
pub struct SetListen {
    map: Arc<RwLock<DependencyTable, EachOnce>>,
    id: ReactiveId,
}

impl SetListen {
    /// The table in which the listener looks for the effects to run.
    pub closed spec fn table(&self) -> Arc<RwLock<DependencyTable, EachOnce>> {
        self.map
    }

    /// The cell whose subscribers the listener runs.
    pub closed spec fn cell(&self) -> ReactiveId {
        self.id
    }

    /// Runs every effect subscribed to the cell. The lock of the table is
    /// given up before the first of them runs.
    pub fn call(&self) {
        let handle = self.map.acquire_read();
        let effects = handle.borrow().subscribers(&self.id);
        handle.release_read();
        run_all(&effects);
    }
}

/// The two listeners of one cell, as its observer.
pub struct Tracker {
    get_listen: GetListen,
    set_listen: SetListen,
}

impl Tracker {
    /// The listener for reads.
    pub closed spec fn get_listen(&self) -> GetListen {
        self.get_listen
    }

    /// The listener for writes.
    pub closed spec fn set_listen(&self) -> SetListen {
        self.set_listen
    }
}

impl<T> Observer<T> for Tracker {
    open spec fn read_seen(&self, value: &T) -> bool {
        true
    }

    open spec fn write_seen(&self, new_value: &T, old_value: &T) -> bool {
        true
    }

    fn on_read(&self, value: &T) {
        self.get_listen.call();
    }

    fn on_write(&self, new_value: &T, old_value: &T) {
        self.set_listen.call();
    }
}

/// The context in which dependencies are tracked: the stack of the effects
/// that are running, the table of who reads what, and the scope that this one
/// was made under. A child shares nothing with its parent but the counters
/// that number scopes, cells and effects.
pub struct Scope {
    parent: Option<Arc<Scope>>,
    functions: Arc<RwLock<Vec<Effect>, AnyStack>>,
    map: Arc<RwLock<DependencyTable, EachOnce>>,
    ids: Arc<IdSource>,
    id: u64,
}

impl Scope {
    /// The scope that this one was made under; none for a root.
    pub closed spec fn parent(&self) -> Option<Arc<Scope>> {
        self.parent
    }

    /// The number of the scope.
    pub closed spec fn number(&self) -> u64 {
        self.id
    }

    /// The stack of the effects that are running in this scope.
    pub closed spec fn stack(&self) -> Arc<RwLock<Vec<Effect>, AnyStack>> {
        self.functions
    }

    /// The table of the effects subscribed to the cells of this scope.
    pub closed spec fn table(&self) -> Arc<RwLock<DependencyTable, EachOnce>> {
        self.map
    }

    /// `tracker` follows the cell of that number for this scope: its listener
    /// for reads looks on the stack of this scope and subscribes in the table
    /// of this scope, its listener for writes runs what that table holds, and
    /// both do so for that cell.
    pub open spec fn follows(&self, tracker: Tracker, number: u64) -> bool {
        &&& tracker.get_listen().stack() == self.stack()
        &&& tracker.get_listen().table() == self.table()
        &&& *tracker.get_listen().cell() == number
        &&& tracker.set_listen().table() == self.table()
        &&& *tracker.set_listen().cell() == number
    }

    /// The number of the scope, which tells it apart from the other scopes of
    /// its lineage.
    pub fn id(&self) -> (res: u64)
        ensures
            res == self.number(),
    {
        self.id
    }

    /// A root scope: nothing running, nothing subscribed, no parent.
    pub fn new() -> (res: Arc<Self>)
        ensures
            res.parent() is None,
    {
        let ids = IdSource {
            scopes: AtomicU64::new(0),
            cells: AtomicU64::new(0),
            effects: AtomicU64::new(0),
        };
        let id = ids.scopes.fetch_add(1, std::sync::atomic::Ordering::SeqCst);
        Arc::new(
            Scope {
                parent: None,
                functions: Arc::new(RwLock::new(Vec::new(), Ghost(AnyStack))),
                map: Arc::new(RwLock::new(DependencyTable::new(), Ghost(EachOnce))),
                ids: Arc::new(ids),
                id,
            },
        )
    }

    /// A scope under this one, with a stack and a table of its own.
    pub fn create_child(self: &Arc<Self>) -> (res: Arc<Self>)
        ensures
            res.parent() == Some(*self),
    {
        let id = self.ids.scopes.fetch_add(1, std::sync::atomic::Ordering::SeqCst);
        Arc::new(
            Scope {
                parent: Some(Arc::clone(self)),
                functions: Arc::new(RwLock::new(Vec::new(), Ghost(AnyStack))),
                map: Arc::new(RwLock::new(DependencyTable::new(), Ghost(EachOnce))),
                ids: Arc::clone(&self.ids),
                id,
            },
        )
    }

    /// The scope that this one was made under; none for a root.
    pub fn get_parent(self: &Arc<Self>) -> (res: Option<Arc<Self>>)
        ensures
            res == self.parent(),
    {
        match &self.parent {
            Some(parent) => Some(Arc::clone(parent)),
            None => None,
        }
    }

    fn create_get_listen(self: &Arc<Self>, id: ReactiveId) -> (res: GetListen)
        ensures
            res.stack() == self.stack(),
            res.table() == self.table(),
            res.cell() == id,
    {
        GetListen { functions: Arc::clone(&self.functions), map: Arc::clone(&self.map), id }
    }

    fn create_set_listen(self: &Arc<Self>, id: ReactiveId) -> (res: SetListen)
        ensures
            res.table() == self.table(),
            res.cell() == id,
    {
        SetListen { map: Arc::clone(&self.map), id }
    }

    /// A cell of this scope holding `value`: its reads subscribe the effect
    /// that is running, its writes run the effects subscribed. The two
    /// listeners that do so are the first observers of the cell, for as long
    /// as it lives.
    pub fn reactive<T: Clone + Send + Sync>(self: &mut Arc<Self>, value: T) -> (res: Reactive<T>)
        ensures
            *final(self) == *old(self),
            res.listener() matches Some(tracker) && old(self).follows(tracker, res.number()),
    {
        let number = self.ids.cells.fetch_add(1, std::sync::atomic::Ordering::SeqCst);
        let id: ReactiveId = Arc::new(number);
        let get_listen = self.create_get_listen(Arc::clone(&id));
        let set_listen = self.create_set_listen(Arc::clone(&id));
        Reactive::listened(value, id, Tracker { get_listen, set_listen })
    }

    /// Runs `f` once as an effect of this scope. While it runs, every cell of
    /// the scope that it reads subscribes it; afterwards a change of such a
    /// cell runs it again. Neither lock of the scope is held while `f` runs.
    pub fn effect<F: Fn() + Send + Sync + 'static>(self: &mut Arc<Self>, f: F)
        requires
            call_requires(f, ()),
        ensures
            call_ensures(f, (), ()),
            *final(self) == *old(self),
    {
        let number = self.ids.effects.fetch_add(1, std::sync::atomic::Ordering::SeqCst);
        let effect = Effect::new(f, number);
        let (stack, handle) = self.functions.acquire_write();
        let mut stack = stack;
        stack.push(effect.clone());
        handle.release_write(stack);
        effect.call();
        let (stack, handle) = self.functions.acquire_write();
        let mut stack = stack;
        stack.pop();
        handle.release_write(stack);
    }
}

impl PartialEq for Scope {
    /// Whether the two are one scope: whether they share their stack.
    fn eq(&self, other: &Self) -> (res: bool)
        ensures
            res ==> self.stack() == other.stack(),
    {
        same_allocation(&self.functions, &other.functions)
    }
}

impl PartialEqSpecImpl for Scope {
    /// Which scope a value is belongs to no field of it: no predicate over
    /// two scopes says what `==` returns.
    open spec fn obeys_eq_spec() -> bool {
        false
    }

    open spec fn eq_spec(&self, other: &Self) -> bool {
        *self == *other
    }
}

} // verus!
