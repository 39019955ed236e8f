//! Closures that widgets keep and call back into.
use vstd::prelude::*;

verus! {

/// Holds a closure so that a widget can keep it and call it later.
pub struct Callback<F> {
    callback: F,
}

impl<F> Callback<F> {
    /// The closure held.
    pub closed spec fn inner(&self) -> F {
        self.callback
    }

    pub fn new(callback: F) -> (r: Self)
        ensures
            r.inner() == callback,
    {
        Self { callback }
    }

    /// Calls the closure held with `arg`.
    pub fn call<T, R>(&self, arg: T) -> (r: R) where F: Fn(T) -> R
        requires
            call_requires(self.inner(), (arg,)),
        ensures
            call_ensures(self.inner(), (arg,), r),
    {
        (self.callback)(arg)
    }
}

/// What a widget runs when it is clicked, if anything: a closure that takes
/// the click's coordinates.
pub struct OnClickCallback<F> {
    pub callback: Option<F>,
}

impl<F> OnClickCallback<F> {
    pub fn new(callback: Option<F>) -> (r: Self)
        ensures
            r.callback == callback,
    {
        Self { callback }
    }

    /// Calls the closure with the click's coordinates; does nothing when
    /// there is none.
    pub fn call(&self, x: u32, y: u32) where F: Fn(u32, u32)
        requires
            self.callback matches Some(f) ==> call_requires(f, (x, y)),
        ensures
            self.callback matches Some(f) ==> call_ensures(f, (x, y), ()),
    {
        if let Some(cb) = &self.callback {
            cb(x, y)
        }
    }
}

} // verus!
