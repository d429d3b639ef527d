//! A value kept behind a type parameter.
use vstd::prelude::*;

verus! {

/// Holds one value, of any type. A field whose type is a parameter holds
/// exactly what was put into it, also where that is a value behind `dyn`: what
/// is known of the value before it is put in is known of it when it is taken
/// out.
pub struct Held<A> {
    item: A,
}

impl<A> Held<A> {
    /// The value held.
    pub closed spec fn item(&self) -> A {
        self.item
    }

    /// Holds `item`.
    pub fn new(item: A) -> (res: Self)
        ensures
            res.item() == item,
    {
        Held { item }
    }

    /// The value held.
    pub fn get(&self) -> (res: &A)
        ensures
            *res == self.item(),
    {
        &self.item
    }
}

} // verus!
