//! What holds of cells, dependency tables and scopes, whatever the values.
use crate::dependencies::extended;
use crate::dependencies::includes;
use crate::dependencies::is_subscribed;
use crate::dependencies::lemma_extended;
use crate::dependencies::lemma_extended_includes;
use crate::dependencies::records;
use crate::dependencies::subscribed_to;
use crate::effect::Effect;
use crate::reactive::Reactive;
use crate::reactive::ReactiveInner;
use crate::scope::running;
use crate::scope::Scope;
use std::sync::Arc;
use vstd::prelude::*;
use vstd::std_specs::cmp::PartialEqSpec;

verus! {

/// A cell that has only been made reads as the value it was made with.
pub proof fn lemma_new_cell_reads_initial_value<T: Clone>(value: T, cell: ReactiveInner<T>, read: T)
    requires
        call_ensures(ReactiveInner::<T>::new, (value,), cell),
        call_ensures(ReactiveInner::<T>::value, (&cell,), read),
    ensures
        cloned(value, read),
{
}

/// A write of a value equal to the one held leaves the cell as it was, hands
/// nothing back, and has no observer told.
pub proof fn lemma_equal_write_is_silent<T: PartialEq>(
    before: ReactiveInner<T>,
    candidate: T,
    after: ReactiveInner<T>,
    previous: Option<T>,
    told: usize,
)
    requires
        T::obeys_eq_spec(),
        candidate.eq_spec(&before.current()),
        ReactiveInner::settles(before, candidate, after, previous),
        call_ensures(ReactiveInner::<T>::notify, (&after, &previous), told),
    ensures
        previous is None,
        after.current() == before.current(),
        after.observers() == before.observers(),
        told == 0,
{
}

/// A write of a value that differs from the one held stores it, hands back
/// the value replaced, and has every observer told of both, each once.
pub proof fn lemma_changing_write_is_told<T: PartialEq>(
    before: ReactiveInner<T>,
    candidate: T,
    after: ReactiveInner<T>,
    previous: Option<T>,
    told: usize,
)
    requires
        T::obeys_eq_spec(),
        !candidate.eq_spec(&before.current()),
        ReactiveInner::settles(before, candidate, after, previous),
        call_ensures(ReactiveInner::<T>::notify, (&after, &previous), told),
    ensures
        previous == Some(before.current()),
        after.current() == candidate,
        told == before.observers().len(),
        after.all_write_seen(&candidate, &before.current()),
{
}

/// A handle and its clone are handles on one cell, under one number.
pub proof fn lemma_clone_keeps_identity<T>(cell: Reactive<T>, other: Reactive<T>)
    requires
        call_ensures(Reactive::<T>::clone, (&cell,), other),
    ensures
        other == cell,
        other.number() == cell.number(),
{
}

/// An effect is the one running from the moment it enters the stack, also
/// when it enters while another is running; once it has left, the stack is
/// what it was.
pub proof fn lemma_entered_effect_is_running(stack: Seq<Effect>, effect: Effect)
    ensures
        running(stack.push(effect)) == Some(effect),
        stack.push(effect).drop_last() == stack,
        running(stack.push(effect).drop_last()) == running(stack),
{
    assert(stack.push(effect).drop_last() =~= stack);
}

/// Once a read of a cell by a running effect has been recorded, the effect is
/// subscribed to the cell.
pub proof fn lemma_reader_is_subscribed(
    before: Map<u64, Seq<Effect>>,
    number: u64,
    effect: Effect,
    after: Map<u64, Seq<Effect>>,
)
    requires
        records(before, number, effect, after),
    ensures
        is_subscribed(subscribed_to(after, number), effect.id()),
{
    lemma_extended(subscribed_to(before, number), effect);
    lemma_extended(Seq::empty(), effect);
}

/// A subscription outlives the reads recorded after it: as long as the table
/// keeps finding the binding of a cell, whoever was subscribed to the cell
/// stays subscribed.
pub proof fn lemma_subscription_stays(
    before: Map<u64, Seq<Effect>>,
    number: u64,
    effect: Effect,
    after: Map<u64, Seq<Effect>>,
    cell: u64,
    subscriber: u64,
)
    requires
        records(before, number, effect, after),
        is_subscribed(subscribed_to(before, cell), subscriber),
        after.contains_key(cell),
        cell == number ==> after[number] == extended(subscribed_to(before, number), effect),
    ensures
        is_subscribed(subscribed_to(after, cell), subscriber),
{
    lemma_extended(subscribed_to(before, number), effect);
}

/// What `lemma_subscription_stays` says of one recorded read, of any number of
/// them in a row: `tables` are the tables before, between and after the reads,
/// `reads` the cell and the effect of each.
pub proof fn lemma_subscription_stays_along(
    tables: Seq<Map<u64, Seq<Effect>>>,
    reads: Seq<(u64, Effect)>,
    cell: u64,
    subscriber: u64,
)
    requires
        tables.len() == reads.len() + 1,
        forall|i: int|
            0 <= i < reads.len() ==> records(
                #[trigger] tables[i],
                reads[i].0,
                reads[i].1,
                tables[i + 1],
            ),
        forall|i: int| 0 < i < tables.len() ==> (#[trigger] tables[i]).contains_key(cell),
        forall|i: int|
            0 <= i < reads.len() && (#[trigger] reads[i]).0 == cell ==> tables[i + 1][cell]
                == extended(subscribed_to(tables[i], cell), reads[i].1),
        is_subscribed(subscribed_to(tables[0], cell), subscriber),
    ensures
        is_subscribed(subscribed_to(tables.last(), cell), subscriber),
    decreases reads.len(),
{
    if reads.len() > 0 {
        let earlier_tables = tables.drop_last();
        let earlier_reads = reads.drop_last();
        assert forall|i: int| 0 <= i < earlier_reads.len() implies records(
            #[trigger] earlier_tables[i],
            earlier_reads[i].0,
            earlier_reads[i].1,
            earlier_tables[i + 1],
        ) by {
            assert(records(tables[i], reads[i].0, reads[i].1, tables[i + 1]));
        }
        assert forall|i: int| 0 <= i < earlier_reads.len() && (#[trigger] earlier_reads[i]).0
            == cell implies earlier_tables[i + 1][cell] == extended(
            subscribed_to(earlier_tables[i], cell),
            earlier_reads[i].1,
        ) by {
            assert(reads[i].0 == cell);
        }
        assert forall|i: int| 0 < i < earlier_tables.len() implies (
        #[trigger] earlier_tables[i]).contains_key(cell) by {
            assert(tables[i].contains_key(cell));
        }
        lemma_subscription_stays_along(earlier_tables, earlier_reads, cell, subscriber);
        let last = reads.len() - 1;
        assert(earlier_tables.last() == tables[last]);
        assert(records(tables[last], reads[last].0, reads[last].1, tables[last + 1]));
        assert(tables[last + 1].contains_key(cell));
        assert(reads[last].0 == cell ==> tables[last + 1][cell] == extended(
            subscribed_to(tables[last], cell),
            reads[last].1,
        ));
        lemma_subscription_stays(
            tables[last],
            reads[last].0,
            reads[last].1,
            tables[last + 1],
            cell,
            subscriber,
        );
    }
}

/// Recording a read subscribes nobody but the effect that read: an effect that
/// was not subscribed to a cell, and is not the reader, is not subscribed
/// afterwards, to that cell or to any other.
pub proof fn lemma_stranger_stays_out(
    before: Map<u64, Seq<Effect>>,
    number: u64,
    effect: Effect,
    after: Map<u64, Seq<Effect>>,
    cell: u64,
    stranger: u64,
)
    requires
        records(before, number, effect, after),
        !is_subscribed(subscribed_to(before, cell), stranger),
        stranger != effect.id() || cell != number,
    ensures
        !is_subscribed(subscribed_to(after, cell), stranger),
{
    lemma_extended(subscribed_to(before, number), effect);
    lemma_extended(Seq::empty(), effect);
}

/// What `lemma_stranger_stays_out` says of one recorded read, of any number
/// of them in a row: an effect that was not subscribed to a cell, and that
/// none of the reads of the cell was made by, is not subscribed in the end.
pub proof fn lemma_stranger_stays_out_along(
    tables: Seq<Map<u64, Seq<Effect>>>,
    reads: Seq<(u64, Effect)>,
    cell: u64,
    stranger: u64,
)
    requires
        tables.len() == reads.len() + 1,
        forall|i: int|
            0 <= i < reads.len() ==> records(
                #[trigger] tables[i],
                reads[i].0,
                reads[i].1,
                tables[i + 1],
            ),
        forall|i: int|
            0 <= i < reads.len() ==> (#[trigger] reads[i]).0 != cell || reads[i].1.id()
                != stranger,
        !is_subscribed(subscribed_to(tables[0], cell), stranger),
    ensures
        !is_subscribed(subscribed_to(tables.last(), cell), stranger),
    decreases reads.len(),
{
    if reads.len() > 0 {
        let earlier_tables = tables.drop_last();
        let earlier_reads = reads.drop_last();
        assert forall|i: int| 0 <= i < earlier_reads.len() implies records(
            #[trigger] earlier_tables[i],
            earlier_reads[i].0,
            earlier_reads[i].1,
            earlier_tables[i + 1],
        ) by {
            assert(records(tables[i], reads[i].0, reads[i].1, tables[i + 1]));
        }
        assert forall|i: int| 0 <= i < earlier_reads.len() implies (#[trigger] earlier_reads[i]).0
            != cell || earlier_reads[i].1.id() != stranger by {
            assert(reads[i].0 != cell || reads[i].1.id() != stranger);
        }
        lemma_stranger_stays_out_along(earlier_tables, earlier_reads, cell, stranger);
        let last = reads.len() - 1;
        assert(earlier_tables.last() == tables[last]);
        assert(records(tables[last], reads[last].0, reads[last].1, tables[last + 1]));
        assert(reads[last].0 != cell || reads[last].1.id() != stranger);
        lemma_stranger_stays_out(
            tables[last],
            reads[last].0,
            reads[last].1,
            tables[last + 1],
            cell,
            stranger,
        );
    }
}

/// The reads recorded one after the other that lead from the first of
/// `tables` to the last, the table finding the binding of `cell` at each of
/// them: `reads` holds the cell and the effect of each read.
pub open spec fn keeps_finding(
    tables: Seq<Map<u64, Seq<Effect>>>,
    reads: Seq<(u64, Effect)>,
    cell: u64,
) -> bool {
    &&& tables.len() == reads.len() + 1
    &&& forall|i: int|
        0 <= i < reads.len() ==> records(
            #[trigger] tables[i],
            reads[i].0,
            reads[i].1,
            tables[i + 1],
        )
    &&& forall|i: int| 0 < i < tables.len() ==> (#[trigger] tables[i]).contains_key(cell)
    &&& forall|i: int|
        0 <= i < reads.len() && (#[trigger] reads[i]).0 == cell ==> tables[i + 1][cell] == extended(
            subscribed_to(tables[i], cell),
            reads[i].1,
        )
}

/// An effect that is among the subscribers of a cell stays among them, itself
/// and not only its number, along any run of recorded reads during which the
/// table keeps finding the binding of the cell.
pub proof fn lemma_subscriber_stays_along(
    tables: Seq<Map<u64, Seq<Effect>>>,
    reads: Seq<(u64, Effect)>,
    cell: u64,
    effect: Effect,
)
    requires
        keeps_finding(tables, reads, cell),
        includes(subscribed_to(tables[0], cell), effect),
    ensures
        includes(subscribed_to(tables.last(), cell), effect),
    decreases reads.len(),
{
    if reads.len() > 0 {
        let earlier_tables = tables.drop_last();
        let earlier_reads = reads.drop_last();
        assert forall|i: int| 0 <= i < earlier_reads.len() implies records(
            #[trigger] earlier_tables[i],
            earlier_reads[i].0,
            earlier_reads[i].1,
            earlier_tables[i + 1],
        ) by {
            assert(records(tables[i], reads[i].0, reads[i].1, tables[i + 1]));
        }
        assert forall|i: int| 0 <= i < earlier_reads.len() && (#[trigger] earlier_reads[i]).0
            == cell implies earlier_tables[i + 1][cell] == extended(
            subscribed_to(earlier_tables[i], cell),
            earlier_reads[i].1,
        ) by {
            assert(reads[i].0 == cell);
        }
        assert forall|i: int| 0 < i < earlier_tables.len() implies (
        #[trigger] earlier_tables[i]).contains_key(cell) by {
            assert(tables[i].contains_key(cell));
        }
        lemma_subscriber_stays_along(earlier_tables, earlier_reads, cell, effect);
        let last = reads.len() - 1;
        assert(earlier_tables.last() == tables[last]);
        assert(records(tables[last], reads[last].0, reads[last].1, tables[last + 1]));
        assert(tables[last + 1].contains_key(cell));
        assert(reads[last].0 == cell ==> tables[last + 1][cell] == extended(
            subscribed_to(tables[last], cell),
            reads[last].1,
        ));
        lemma_extended_includes(subscribed_to(tables[last], cell), reads[last].1);
    }
}

/// An effect that read a cell while it was running is run again when the
/// subscribers of the cell are.
///
/// What the locks of a scope hide stands among the premises. The effect was
/// the one running when the read was recorded, and none of its number was
/// subscribed to the cell before. From `tables[0]`, the table after that
/// read, to the last of `tables`, the table kept finding the binding of the
/// cell. What the lookup for the write found, `found`, is that binding, and
/// every effect of `found` has been run.
pub proof fn lemma_reader_is_run_again(
    stack: Seq<Effect>,
    before: Map<u64, Seq<Effect>>,
    cell: u64,
    tables: Seq<Map<u64, Seq<Effect>>>,
    reads: Seq<(u64, Effect)>,
    found: Seq<Effect>,
)
    requires
        running(stack) is Some,
        !is_subscribed(subscribed_to(before, cell), running(stack).unwrap().id()),
        tables.len() > 0,
        records(before, cell, running(stack).unwrap(), tables[0]),
        keeps_finding(tables, reads, cell),
        found == subscribed_to(tables.last(), cell),
        forall|i: int| 0 <= i < found.len() ==> (#[trigger] found[i]).ran(),
    ensures
        running(stack).unwrap().ran(),
{
    let effect = running(stack).unwrap();
    lemma_extended_includes(subscribed_to(before, cell), effect);
    lemma_extended_includes(Seq::empty(), effect);
    assert(includes(subscribed_to(tables[0], cell), effect));
    lemma_subscriber_stays_along(tables, reads, cell, effect);
    let i = choose|i: int| 0 <= i < found.len() && #[trigger] found[i] == effect;
    assert(found[i].ran());
}

/// An effect that no read of a cell was recorded for is not among the effects
/// run when the subscribers of the cell are: none of those that the lookup
/// for the write found carries its number.
pub proof fn lemma_stranger_is_not_run(
    tables: Seq<Map<u64, Seq<Effect>>>,
    reads: Seq<(u64, Effect)>,
    cell: u64,
    stranger: u64,
    found: Seq<Effect>,
)
    requires
        tables.len() == reads.len() + 1,
        forall|i: int|
            0 <= i < reads.len() ==> records(
                #[trigger] tables[i],
                reads[i].0,
                reads[i].1,
                tables[i + 1],
            ),
        forall|i: int|
            0 <= i < reads.len() ==> (#[trigger] reads[i]).0 != cell || reads[i].1.id()
                != stranger,
        !is_subscribed(subscribed_to(tables[0], cell), stranger),
        found == subscribed_to(tables.last(), cell) || found == Seq::<Effect>::empty(),
    ensures
        forall|i: int| 0 <= i < found.len() ==> (#[trigger] found[i]).id() != stranger,
{
    lemma_stranger_stays_out_along(tables, reads, cell, stranger);
}

/// The parent of a child of a scope is that scope.
pub proof fn lemma_parent_of_child(scope: Arc<Scope>, child: Arc<Scope>, parent: Option<Arc<Scope>>)
    requires
        call_ensures(Scope::create_child, (&scope,), child),
        call_ensures(Scope::get_parent, (&child,), parent),
    ensures
        parent == Some(scope),
{
}

/// A root scope has no parent.
pub proof fn lemma_root_has_no_parent(root: Arc<Scope>, parent: Option<Arc<Scope>>)
    requires
        call_ensures(Scope::new, (), root),
        call_ensures(Scope::get_parent, (&root,), parent),
    ensures
        parent is None,
{
}

} // verus!
