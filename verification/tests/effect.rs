use reactive_scope::effect::Effect;
use std::sync::atomic::AtomicUsize;
use std::sync::atomic::Ordering;
use std::sync::Arc;

#[test]
fn effect_runs_its_closure_on_each_call() {
    let runs = Arc::new(AtomicUsize::new(0));
    let seen = runs.clone();
    let effect = Effect::new(
        move || {
            seen.fetch_add(1, Ordering::SeqCst);
        },
        3,
    );
    assert_eq!(runs.load(Ordering::SeqCst), 0);
    effect.call();
    assert_eq!(runs.load(Ordering::SeqCst), 1);
    effect.call();
    effect.call();
    assert_eq!(runs.load(Ordering::SeqCst), 3);
    assert_eq!(effect.number(), 3);
}

#[test]
fn effect_clone_shares_closure_and_number() {
    let runs = Arc::new(AtomicUsize::new(0));
    let seen = runs.clone();
    let effect = Effect::new(
        move || {
            seen.fetch_add(1, Ordering::SeqCst);
        },
        8,
    );
    let other = effect.clone();
    other.call();
    effect.call();
    assert_eq!(runs.load(Ordering::SeqCst), 2);
    assert_eq!(other.number(), 8);
    assert!(effect == other);
}

#[test]
fn effects_are_equal_when_their_numbers_are() {
    let a = Effect::new(|| {}, 1);
    let b = Effect::new(|| println!("other"), 1);
    let c = Effect::new(|| {}, 2);
    assert!(a == b);
    assert!(a != c);
}

#[test]
fn shared_closure_runs_with_and_without_the_effect() {
    let runs = Arc::new(AtomicUsize::new(0));
    let seen = runs.clone();
    let f = Arc::new(move || {
        seen.fetch_add(1, Ordering::SeqCst);
    });
    let effect = Effect::sharing(f.clone(), u64::MAX);
    f();
    effect.call();
    assert_eq!(runs.load(Ordering::SeqCst), 2);
    assert_eq!(effect.number(), u64::MAX);
}

#[test]
fn body_runs_the_action_it_was_made_of() {
    let runs = Arc::new(AtomicUsize::new(0));
    let seen = runs.clone();
    let body = reactive_scope::effect::Body::new(reactive_scope::effect::FnAction::new(Arc::new(
        move || {
            seen.fetch_add(1, Ordering::SeqCst);
        },
    )));
    assert_eq!(runs.load(Ordering::SeqCst), 0);
    body.run();
    body.run();
    assert_eq!(runs.load(Ordering::SeqCst), 2);
}
