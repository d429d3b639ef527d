//! Which effects depend on which cell.
//!
//! The table binds the number of a cell to the effects that read the cell
//! while they were running. It holds the cell's identity weakly: once the last
//! handle on a cell is gone, the binding of that cell is no longer found, and
//! the table discards it when it next makes room.
use crate::effect::Effect;
use crate::reactive::ReactiveId;
use std::sync::Arc;
use std::sync::Weak;
use vstd::prelude::*;
use weak_table::WeakKeyHashMap;

verus! {

/// The weak-keyed hash map of the `weak_table` crate, from the identities of
/// cells to the effects subscribed to each.
#[verifier::external_body]
pub struct DependencyTable {
    map: WeakKeyHashMap<Weak<u64>, Vec<Effect>>,
}

/// What the table holds: under the number of a cell, the effects most recently
/// stored for it, for every cell whose binding the table has not discarded.
pub uninterp spec fn bindings(table: DependencyTable) -> Map<u64, Seq<Effect>>;

/// No binding at all.
pub open spec fn no_bindings() -> Map<u64, Seq<Effect>> {
    Map::empty()
}

/// The effects bound to `number`; none where nothing is bound to it.
pub open spec fn subscribed_to(held: Map<u64, Seq<Effect>>, number: u64) -> Seq<Effect> {
    if held.contains_key(number) {
        held[number]
    } else {
        Seq::empty()
    }
}

/// Some effect among `effects` carries `number`.
pub open spec fn is_subscribed(effects: Seq<Effect>, number: u64) -> bool {
    exists|i: int| 0 <= i < effects.len() && (#[trigger] effects[i]).id() == number
}

/// `effect` itself is among `effects`.
pub open spec fn includes(effects: Seq<Effect>, effect: Effect) -> bool {
    exists|i: int| 0 <= i < effects.len() && #[trigger] effects[i] == effect
}

/// No two effects among `effects` carry the same number.
pub open spec fn distinct(effects: Seq<Effect>) -> bool {
    forall|i: int, j: int|
        0 <= i < j < effects.len() ==> (#[trigger] effects[i]).id() != (#[trigger] effects[j]).id()
}

/// `effects` with `effect` subscribed: unchanged where an effect of that number
/// is there already, with `effect` behind the others where none is.
pub open spec fn extended(effects: Seq<Effect>, effect: Effect) -> Seq<Effect> {
    if is_subscribed(effects, effect.id()) {
        effects
    } else {
        effects.push(effect)
    }
}

/// Every binding holds each effect once.
pub open spec fn well_formed(held: Map<u64, Seq<Effect>>) -> bool {
    forall|number: u64| held.contains_key(number) ==> distinct(#[trigger] held[number])
}

/// `after` is `before` with `effect` subscribed to `number`. Where the table
/// found the binding of `number`, the effect joined it; where it found none,
/// the binding is the effect alone. No other binding has changed, though the
/// table may have discarded some.
pub open spec fn records(
    before: Map<u64, Seq<Effect>>,
    number: u64,
    effect: Effect,
    after: Map<u64, Seq<Effect>>,
) -> bool {
    &&& after.contains_key(number)
    &&& after[number] == extended(subscribed_to(before, number), effect) || after[number]
        == extended(Seq::empty(), effect)
    &&& forall|other: u64|
        other != number && #[trigger] after.contains_key(other) ==> before.contains_key(other)
            && after[other] == before[other]
}

/// `WeakKeyHashMap::new`: the table it makes holds no binding.
#[verifier::external_body]
fn table_new() -> (res: DependencyTable)
    ensures
        bindings(res) == no_bindings(),
{
    DependencyTable { map: WeakKeyHashMap::new() }
}

/// `WeakKeyHashMap::get`: a lookup by the number behind `id`. What it finds is
/// what the table holds under that number. It finds nothing where nothing is
/// held, and it may find nothing where the cell that the binding was made for
/// is gone.
#[verifier::external_body]
fn table_get<'a>(table: &'a DependencyTable, id: &ReactiveId) -> (res: Option<&'a Vec<Effect>>)
    ensures
        res matches Some(found) ==> bindings(*table).contains_key(**id) && found@ == bindings(
            *table,
        )[**id],
        !bindings(*table).contains_key(**id) ==> res is None,
{
    table.map.get(&**id)
}

/// `WeakKeyHashMap::get_mut`: as `get`, for changing the effects in place.
/// What the table holds under the number afterwards is what the caller leaves
/// behind the reference; nothing else changes.
#[verifier::external_body]
fn table_get_mut<'a>(table: &'a mut DependencyTable, id: &ReactiveId) -> (res: Option<
    &'a mut Vec<Effect>,
>)
    ensures
        match res {
            Some(found) => {
                &&& bindings(*old(table)).contains_key(**id)
                &&& found@ == bindings(*old(table))[**id]
                &&& bindings(*final(table)) == bindings(*old(table)).insert(**id, final(found)@)
            },
            None => bindings(*final(table)) == bindings(*old(table)),
        },
        !bindings(*old(table)).contains_key(**id) ==> res is None,
{
    table.map.get_mut(&**id)
}

/// `WeakKeyHashMap::insert`: binds `effects` to the number behind `id`, in
/// place of what was bound to it. The other bindings stay as they were, but for
/// those of cells that are gone, which the table may discard to make room.
#[verifier::external_body]
fn table_insert(table: &mut DependencyTable, id: ReactiveId, effects: Vec<Effect>)
    ensures
        bindings(*final(table)).contains_key(*id),
        bindings(*final(table))[*id] == effects@,
        forall|other: u64|
            other != *id && #[trigger] bindings(*final(table)).contains_key(other) ==> bindings(
                *old(table),
            ).contains_key(other) && bindings(*final(table))[other] == bindings(*old(table))[other],
{
    table.map.insert(id, effects);
}

/// Whether an effect of that number is among `effects`.
pub fn holds(effects: &Vec<Effect>, number: u64) -> (res: bool)
    ensures
        res == is_subscribed(effects@, number),
{
    let mut i: usize = 0;
    while i < effects.len()
        invariant
            i <= effects@.len(),
            forall|j: int| 0 <= j < i ==> (#[trigger] effects@[j]).id() != number,
        decreases effects@.len() - i,
    {
        if effects[i].number() == number {
            return true;
        }
        i += 1;
    }
    false
}

/// Subscribes `effect`, unless an effect of its number is subscribed already.
pub fn subscribe(effects: &mut Vec<Effect>, effect: Effect)
    ensures
        final(effects)@ == extended(old(effects)@, effect),
{
    if !holds(effects, effect.number()) {
        effects.push(effect);
    }
}

/// The effects that a lookup found, for running them once the table is let
/// go: a copy of each, in their order; none where the lookup found nothing.
pub fn found_effects(found: Option<&Vec<Effect>>) -> (res: Vec<Effect>)
    ensures
        res@ == match found {
            Some(effects) => effects@,
            None => Seq::empty(),
        },
{
    let mut res: Vec<Effect> = Vec::new();
    match found {
        Some(effects) => {
            let mut i: usize = 0;
            while i < effects.len()
                invariant
                    i <= effects@.len(),
                    res@ == effects@.subrange(0, i as int),
                decreases effects@.len() - i,
            {
                res.push(effects[i].clone());
                assert(res@ =~= effects@.subrange(0, i + 1));
                i += 1;
            }
            assert(res@ =~= effects@);
        },
        None => {},
    }
    res
}

impl DependencyTable {
    /// A table with no binding.
    pub fn new() -> (res: Self)
        ensures
            bindings(res) == no_bindings(),
    {
        table_new()
    }

    /// Records that `active`, the effect running at the moment, has read the
    /// cell `id`. With no effect running, nothing is recorded.
    pub fn record(&mut self, id: &ReactiveId, active: Option<Effect>)
        requires
            well_formed(bindings(*old(self))),
        ensures
            well_formed(bindings(*final(self))),
            match active {
                Some(effect) => {
                    &&& records(bindings(*old(self)), **id, effect, bindings(*final(self)))
                    &&& is_subscribed(bindings(*final(self))[**id], effect.id())
                },
                None => bindings(*final(self)) == bindings(*old(self)),
            },
    {
        match active {
            Some(effect) => {
                match table_get_mut(self, id) {
                    Some(found) => {
                        proof {
                            lemma_extended(found@, effect);
                        }
                        subscribe(found, effect);
                    },
                    None => {
                        proof {
                            lemma_extended(Seq::empty(), effect);
                        }
                        let mut effects: Vec<Effect> = Vec::new();
                        subscribe(&mut effects, effect);
                        table_insert(self, Arc::clone(id), effects);
                    },
                }
            },
            None => {},
        }
    }

    /// The effects to run when the cell `id` has changed: those that the table
    /// finds under its number, in the order in which they subscribed. The
    /// table finds none where none is bound, and where the cell that the
    /// binding was made for is gone.
    pub fn subscribers(&self, id: &ReactiveId) -> (res: Vec<Effect>)
        ensures
            res@ == subscribed_to(bindings(*self), **id) || res@ == Seq::<Effect>::empty(),
            !bindings(*self).contains_key(**id) ==> res@ == Seq::<Effect>::empty(),
    {
        found_effects(table_get(self, id))
    }
}

/// Subscribing keeps what was subscribed, subscribes the effect, and adds no
/// number twice.
pub proof fn lemma_extended(effects: Seq<Effect>, effect: Effect)
    ensures
        is_subscribed(extended(effects, effect), effect.id()),
        forall|number: u64|
            is_subscribed(effects, number) ==> is_subscribed(extended(effects, effect), number),
        forall|number: u64|
            number != effect.id() && is_subscribed(extended(effects, effect), number)
                ==> is_subscribed(effects, number),
        distinct(effects) ==> distinct(extended(effects, effect)),
{
    let after = extended(effects, effect);
    if !is_subscribed(effects, effect.id()) {
        assert(after[effects.len() as int].id() == effect.id());
        assert forall|number: u64| is_subscribed(effects, number) implies is_subscribed(
            after,
            number,
        ) by {
            let i = choose|i: int| 0 <= i < effects.len() && (#[trigger] effects[i]).id() == number;
            assert(after[i].id() == number);
        }
        assert forall|number: u64|
            number != effect.id() && is_subscribed(after, number) implies is_subscribed(
            effects,
            number,
        ) by {
            let i = choose|i: int| 0 <= i < after.len() && (#[trigger] after[i]).id() == number;
            assert(effects[i].id() == number);
        }
        if distinct(effects) {
            assert forall|i: int, j: int| 0 <= i < j < after.len() implies (
            #[trigger] after[i]).id() != (#[trigger] after[j]).id() by {
                if j < effects.len() {
                    assert(effects[i].id() != effects[j].id());
                } else {
                    assert(effects[i].id() != effect.id());
                }
            }
        }
    }
}

/// Subscribing removes no effect, and puts the effect itself among the
/// others where none of its number was there.
pub proof fn lemma_extended_includes(effects: Seq<Effect>, effect: Effect)
    ensures
        forall|other: Effect|
            includes(effects, other) ==> includes(extended(effects, effect), other),
        !is_subscribed(effects, effect.id()) ==> includes(extended(effects, effect), effect),
        forall|other: Effect| includes(effects, other) ==> is_subscribed(effects, other.id()),
{
    let after = extended(effects, effect);
    assert forall|other: Effect| includes(effects, other) implies includes(after, other) by {
        let i = choose|i: int| 0 <= i < effects.len() && #[trigger] effects[i] == other;
        assert(after[i] == other);
    }
    if !is_subscribed(effects, effect.id()) {
        assert(after[effects.len() as int] == effect);
    }
    assert forall|other: Effect| includes(effects, other) implies is_subscribed(
        effects,
        other.id(),
    ) by {
        let i = choose|i: int| 0 <= i < effects.len() && #[trigger] effects[i] == other;
        assert(effects[i].id() == other.id());
    }
}

} // verus!
