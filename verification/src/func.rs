//! A family of values that can be called with parameters, enumerated and
//! made from a name; the program using this library implements it.
use vstd::prelude::*;

verus! {

/// Values that can be called, enumerated and created by name.
pub trait Func: core::fmt::Debug + Sized {
    /// Calls `t` on behalf of `self` with `param`.
    fn call<T>(&self, t: &Self, param: Vec<T>);

    /// All values of the family.
    fn all(&self) -> Vec<&Self>;

    /// The value named `s`.
    fn create(&self, s: String) -> Self;
}

} // verus!
