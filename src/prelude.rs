use vstd::prelude::*;

verus! {

/// A plain wrapper, used to give conversions to types defined elsewhere.
pub struct W<T>(pub T);

impl<T> W<T> {
    /// Takes the wrapped value out.
    pub fn get_wrap(self) -> (r: T)
        ensures
            r == self.0,
    {
        self.0
    }
}

impl<T> core::ops::Deref for W<T> {
    type Target = T;

    fn deref(&self) -> (r: &T)
        ensures
            r == &self.0,
    {
        &self.0
    }
}

} // verus!
