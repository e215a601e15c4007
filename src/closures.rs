//! Remembering the result of a computation.

use vstd::prelude::*;

verus! {

/// Holds a calculation and, once it has run, its result.
pub struct Cacher<T> where T: Fn(u32) -> u32 {
    pub calculation: T,
    pub value: Option<u32>,
}

impl<T> Cacher<T> where T: Fn(u32) -> u32 {
    /// A cacher that has not run `calculation` yet.
    pub fn new(calculation: T) -> (r: Cacher<T>)
        ensures
            r.calculation == calculation,
            r.value is None,
    {
        Cacher { calculation, value: None }
    }

    /// The remembered result where there is one. Otherwise the calculation
    /// runs on `arg`, and its result is remembered and returned; later calls
    /// return it whatever their argument.
    pub fn value(&mut self, arg: u32) -> (r: u32)
        requires
            old(self).value is None ==> old(self).calculation.requires((arg,)),
        ensures
            final(self).calculation == old(self).calculation,
            final(self).value == Some(r),
            old(self).value is Some ==> r == old(self).value->Some_0,
            old(self).value is None ==> old(self).calculation.ensures((arg,), r),
    {
        match self.value {
            Some(v) => v,
            None => {
                let v = (self.calculation)(arg);
                self.value = Some(v);
                v
            },
        }
    }
}

} // verus!
