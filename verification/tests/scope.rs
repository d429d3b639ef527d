use reactive_scope::effect::Effect;
use reactive_scope::scope::run_all;
use reactive_scope::scope::top;
use reactive_scope::scope::Scope;
use std::sync::atomic::AtomicUsize;
use std::sync::atomic::Ordering;
use std::sync::Arc;
use std::sync::Mutex;

#[test]
fn test_get_parent() {
    let scope = Scope::new();
    let child = scope.create_child();
    assert!(child.get_parent().unwrap() == scope);
}

#[test]
fn scope_test_reactive() {
    let mut scope = Scope::new();
    let r = scope.reactive(0);
    let r2 = r.clone();
    let r3 = scope.reactive(0);
    scope.effect(move || {
        println!("r2: {:?}", r2.value());
        let value = r2.value();
        r3.update(|_| value);
    });
    let r4 = r.clone();
    scope.effect(move || {
        println!("r4: {:?}", r4.value());
    });
    r.update(|count| count + 1);
    assert_eq!(r.value(), 1);
}

#[test]
fn root_has_no_parent() {
    assert!(Scope::new().get_parent().is_none());
}

#[test]
fn scopes_are_equal_only_to_themselves() {
    let a = Scope::new();
    let b = Scope::new();
    assert!(a != b);
    assert!(a == a.clone());
    assert!(a.create_child() != a.create_child());
}

#[test]
fn lineage_runs_upwards() {
    let root = Scope::new();
    let child = root.create_child();
    let grandchild = child.create_child();
    let sibling = root.create_child();
    assert!(grandchild.get_parent().unwrap() == child);
    assert!(grandchild.get_parent().unwrap().get_parent().unwrap() == root);
    assert!(sibling.get_parent().unwrap() == root);
    assert!(child != root);
    assert!(child != sibling);
    assert!(grandchild != child);
    assert!(Arc::ptr_eq(&child.get_parent().unwrap(), &root));
}

#[test]
fn cells_of_a_scope_are_numbered_apart() {
    let mut scope = Scope::new();
    let a = scope.reactive(0);
    let b = scope.reactive(0);
    let mut child = scope.create_child();
    let c = child.reactive(0);
    assert!(a != b);
    assert!(a != c);
    assert!(b != c);
    assert!(a == a.clone());
}

#[test]
fn effect_runs_once_when_it_is_registered() {
    let mut scope = Scope::new();
    let runs = Arc::new(AtomicUsize::new(0));
    let seen = runs.clone();
    scope.effect(move || {
        seen.fetch_add(1, Ordering::SeqCst);
    });
    assert_eq!(runs.load(Ordering::SeqCst), 1);
}

#[test]
fn reader_runs_again_when_the_cell_changes() {
    let mut scope = Scope::new();
    let r = scope.reactive(0);
    let runs = Arc::new(AtomicUsize::new(0));
    let seen = runs.clone();
    let read = r.clone();
    scope.effect(move || {
        read.value();
        seen.fetch_add(1, Ordering::SeqCst);
    });
    assert_eq!(runs.load(Ordering::SeqCst), 1);
    r.update(|x| x + 1);
    assert_eq!(runs.load(Ordering::SeqCst), 2);
    r.update(|x| x + 1);
    assert_eq!(runs.load(Ordering::SeqCst), 3);
}

#[test]
fn reader_sees_the_new_value_when_it_runs_again() {
    let mut scope = Scope::new();
    let r = scope.reactive(1);
    let seen: Arc<Mutex<Vec<i32>>> = Arc::new(Mutex::new(Vec::new()));
    let log = seen.clone();
    let read = r.clone();
    scope.effect(move || log.lock().unwrap().push(read.value()));
    r.update(|x| x * 3);
    r.update(|x| x + 4);
    assert_eq!(*seen.lock().unwrap(), vec![1, 3, 7]);
}

#[test]
fn equal_update_runs_no_effect() {
    let mut scope = Scope::new();
    let r = scope.reactive(5);
    let runs = Arc::new(AtomicUsize::new(0));
    let seen = runs.clone();
    let read = r.clone();
    scope.effect(move || {
        read.value();
        seen.fetch_add(1, Ordering::SeqCst);
    });
    r.update(|x| *x);
    r.update(|_| 5);
    assert_eq!(runs.load(Ordering::SeqCst), 1);
}

#[test]
fn effect_that_never_read_the_cell_is_not_run() {
    let mut scope = Scope::new();
    let r = scope.reactive(0);
    let runs = Arc::new(AtomicUsize::new(0));
    let seen = runs.clone();
    scope.effect(move || {
        seen.fetch_add(1, Ordering::SeqCst);
    });
    r.update(|x| x + 1);
    assert_eq!(runs.load(Ordering::SeqCst), 1);
}

#[test]
fn read_outside_an_effect_subscribes_nobody() {
    let mut scope = Scope::new();
    let r = scope.reactive(0);
    let runs = Arc::new(AtomicUsize::new(0));
    let seen = runs.clone();
    scope.effect(move || {
        seen.fetch_add(1, Ordering::SeqCst);
    });
    assert_eq!(r.value(), 0);
    r.update(|x| x + 1);
    assert_eq!(r.value(), 1);
    assert_eq!(runs.load(Ordering::SeqCst), 1);
}

#[test]
fn effect_writes_a_cell_from_another() {
    let mut scope = Scope::new();
    let r = scope.reactive(0);
    let r2 = scope.reactive(0);
    let source = r.clone();
    let target = r2.clone();
    scope.effect(move || target.update(|_| source.value() + 10));
    assert_eq!(r2.value(), 10);
    r.update(|x| x + 1);
    assert_eq!(r2.value(), 11);
}

#[test]
fn independent_cells_run_only_their_own_effects() {
    let mut scope = Scope::new();
    let a = scope.reactive(0);
    let b = scope.reactive(0);
    let runs_a = Arc::new(AtomicUsize::new(0));
    let runs_b = Arc::new(AtomicUsize::new(0));
    let seen_a = runs_a.clone();
    let seen_b = runs_b.clone();
    let read_a = a.clone();
    let read_b = b.clone();
    scope.effect(move || {
        read_a.value();
        seen_a.fetch_add(1, Ordering::SeqCst);
    });
    scope.effect(move || {
        read_b.value();
        seen_b.fetch_add(1, Ordering::SeqCst);
    });
    a.update(|x| x + 1);
    assert_eq!(runs_a.load(Ordering::SeqCst), 2);
    assert_eq!(runs_b.load(Ordering::SeqCst), 1);
    b.update(|x| x + 1);
    b.update(|x| x + 1);
    assert_eq!(runs_a.load(Ordering::SeqCst), 2);
    assert_eq!(runs_b.load(Ordering::SeqCst), 3);
}

#[test]
fn nested_effect_is_the_one_subscribed() {
    let scope = Scope::new();
    let mut outer_scope = scope.clone();
    let r = outer_scope.reactive(0);
    let outer_runs = Arc::new(AtomicUsize::new(0));
    let inner_runs = Arc::new(AtomicUsize::new(0));
    let outer_seen = outer_runs.clone();
    let inner_seen = inner_runs.clone();
    let read = r.clone();
    let inner_scope = scope.clone();
    outer_scope.effect(move || {
        outer_seen.fetch_add(1, Ordering::SeqCst);
        let inner_seen = inner_seen.clone();
        let read = read.clone();
        let mut inner_scope = inner_scope.clone();
        inner_scope.effect(move || {
            read.value();
            inner_seen.fetch_add(1, Ordering::SeqCst);
        });
    });
    assert_eq!(outer_runs.load(Ordering::SeqCst), 1);
    assert_eq!(inner_runs.load(Ordering::SeqCst), 1);
    r.update(|x| x + 1);
    assert_eq!(outer_runs.load(Ordering::SeqCst), 1);
    assert_eq!(inner_runs.load(Ordering::SeqCst), 2);
}

#[test]
fn outer_effect_is_running_again_once_the_inner_has_left() {
    let scope = Scope::new();
    let mut outer_scope = scope.clone();
    let before = outer_scope.reactive(0);
    let after = outer_scope.reactive(0);
    let outer_runs = Arc::new(AtomicUsize::new(0));
    let outer_seen = outer_runs.clone();
    let read_before = before.clone();
    let read_after = after.clone();
    let inner_scope = scope.clone();
    outer_scope.effect(move || {
        outer_seen.fetch_add(1, Ordering::SeqCst);
        read_before.value();
        let mut inner_scope = inner_scope.clone();
        inner_scope.effect(|| {});
        read_after.value();
    });
    after.update(|x| x + 1);
    assert_eq!(outer_runs.load(Ordering::SeqCst), 2);
    before.update(|x| x + 1);
    assert_eq!(outer_runs.load(Ordering::SeqCst), 3);
}

#[test]
fn effect_that_reads_twice_runs_once_per_change() {
    let mut scope = Scope::new();
    let r = scope.reactive(0);
    let runs = Arc::new(AtomicUsize::new(0));
    let seen = runs.clone();
    let read = r.clone();
    scope.effect(move || {
        read.value();
        read.value();
        seen.fetch_add(1, Ordering::SeqCst);
    });
    r.update(|x| x + 1);
    assert_eq!(runs.load(Ordering::SeqCst), 2);
}

#[test]
fn several_readers_of_one_cell_all_run_again() {
    let mut scope = Scope::new();
    let r = scope.reactive(0);
    let runs = Arc::new(AtomicUsize::new(0));
    for _ in 0..4 {
        let seen = runs.clone();
        let read = r.clone();
        scope.effect(move || {
            read.value();
            seen.fetch_add(1, Ordering::SeqCst);
        });
    }
    assert_eq!(runs.load(Ordering::SeqCst), 4);
    r.update(|x| x + 1);
    assert_eq!(runs.load(Ordering::SeqCst), 8);
}

#[test]
fn dependencies_are_those_of_the_first_run() {
    let mut scope = Scope::new();
    let gate = scope.reactive(false);
    let late = scope.reactive(0);
    let runs = Arc::new(AtomicUsize::new(0));
    let seen = runs.clone();
    let read_gate = gate.clone();
    let read_late = late.clone();
    scope.effect(move || {
        seen.fetch_add(1, Ordering::SeqCst);
        if read_gate.value() {
            read_late.value();
        }
    });
    gate.update(|_| true);
    assert_eq!(runs.load(Ordering::SeqCst), 2);
    late.update(|x| x + 1);
    assert_eq!(runs.load(Ordering::SeqCst), 2);
}

#[test]
fn child_scope_tracks_nothing_for_its_parent() {
    let mut parent = Scope::new();
    let mut child = parent.create_child();
    let of_parent = parent.reactive(0);
    let of_child = child.reactive(0);
    let runs = Arc::new(AtomicUsize::new(0));
    let seen = runs.clone();
    let read_parent = of_parent.clone();
    let read_child = of_child.clone();
    child.effect(move || {
        read_parent.value();
        read_child.value();
        seen.fetch_add(1, Ordering::SeqCst);
    });
    of_parent.update(|x| x + 1);
    assert_eq!(runs.load(Ordering::SeqCst), 1);
    of_child.update(|x| x + 1);
    assert_eq!(runs.load(Ordering::SeqCst), 2);
}

#[test]
fn chain_of_effects_carries_a_change_through() {
    let mut scope = Scope::new();
    let a = scope.reactive(1);
    let b = scope.reactive(0);
    let c = scope.reactive(0);
    let (a1, b1) = (a.clone(), b.clone());
    scope.effect(move || b1.update(|_| a1.value() * 2));
    let (b2, c2) = (b.clone(), c.clone());
    scope.effect(move || c2.update(|_| b2.value() + 1));
    assert_eq!(b.value(), 2);
    assert_eq!(c.value(), 3);
    a.update(|_| 5);
    assert_eq!(b.value(), 10);
    assert_eq!(c.value(), 11);
}

#[test]
fn top_is_the_last_effect_of_the_stack() {
    let mut stack: Vec<Effect> = Vec::new();
    assert!(top(&stack).is_none());
    stack.push(Effect::new(|| {}, 1));
    assert_eq!(top(&stack).unwrap().number(), 1);
    stack.push(Effect::new(|| {}, 2));
    assert_eq!(top(&stack).unwrap().number(), 2);
    stack.pop();
    assert_eq!(top(&stack).unwrap().number(), 1);
    assert_eq!(stack.len(), 1);
}

#[test]
fn run_all_runs_each_effect_in_order() {
    let log: Arc<Mutex<Vec<u64>>> = Arc::new(Mutex::new(Vec::new()));
    let mut effects = Vec::new();
    for number in [3u64, 1, 2] {
        let sink = log.clone();
        effects.push(Effect::new(move || sink.lock().unwrap().push(number), number));
    }
    run_all(&effects);
    assert_eq!(*log.lock().unwrap(), vec![3, 1, 2]);
    run_all(&Vec::new());
    assert_eq!(log.lock().unwrap().len(), 3);
}

#[test]
fn effect_registered_while_another_runs_again_is_tracked() {
    let scope = Scope::new();
    let mut outer_scope = scope.clone();
    let r = outer_scope.reactive(0);
    let inner_runs = Arc::new(AtomicUsize::new(0));
    let inner_seen = inner_runs.clone();
    let read = r.clone();
    let inner_scope = scope.clone();
    outer_scope.effect(move || {
        read.value();
        let mut inner_scope = inner_scope.clone();
        let read = read.clone();
        let inner_seen = inner_seen.clone();
        inner_scope.effect(move || {
            read.value();
            inner_seen.fetch_add(1, Ordering::SeqCst);
        });
    });
    assert_eq!(inner_runs.load(Ordering::SeqCst), 1);
    r.update(|x| x + 1);
    assert_eq!(inner_runs.load(Ordering::SeqCst), 3);
    r.update(|x| x + 1);
    assert_eq!(inner_runs.load(Ordering::SeqCst), 6);
}
