//! A filtering combinator over optional containers.

use vstd::prelude::*;

verus! {

/// A container that can drop its contents when a predicate rejects them.
pub trait Filter<T>: Sized {
    /// Keep the contents only where `predicate` approves them.
    fn xfilter<P: FnOnce(&T) -> bool>(self, predicate: P) -> (r: Self)
        requires
            forall|t: &T| #[trigger] call_requires(predicate, (t,)),
    ;
}

impl<T> Filter<T> for Option<T> {
    fn xfilter<P: FnOnce(&T) -> bool>(self, predicate: P) -> (r: Self)
        ensures
            self is None ==> r is None,
            self matches Some(x) ==> ((r == self && call_ensures(predicate, (&x,), true)) || (r
                is None && call_ensures(predicate, (&x,), false))),
    {
        match self {
            Some(x) => {
                if predicate(&x) {
                    Some(x)
                } else {
                    None
                }
            },
            None => None,
        }
    }
}

} // verus!
