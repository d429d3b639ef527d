use reactive_scope::held::Held;

#[test]
fn held_gives_back_what_it_holds() {
    let held = Held::new(vec![1, 2, 3]);
    assert_eq!(*held.get(), vec![1, 2, 3]);
    let boxed: Held<Box<dyn Fn() -> u8>> = Held::new(Box::new(|| 7));
    assert_eq!((held.get().len(), (boxed.get())()), (3, 7));
}
