use vstd::prelude::*;

verus! {

/// A value that tasks can watch for changes.
pub struct Observable<T> {
    value: T,
}

impl<T> View for Observable<T> {
    type V = T;

    /// The current value.
    closed spec fn view(&self) -> T {
        self.value
    }
}

impl<T: Clone> Observable<T> {
    /// An observable holding `init`.
    pub fn new(init: T) -> (o: Self)
        ensures
            o@ == init,
    {
        Observable { value: init }
    }
}

} // verus!
