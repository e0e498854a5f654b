//! A callable wrapper that can be stored and shared across threads: the
//! factory value a factory-scoped binding hands out.

use core::marker::PhantomData;

use vstd::prelude::*;

verus! {

/// Wraps a thread-safe callable from one argument bundle to a produced
/// value.  Invoking it later yields a fresh value per call with the
/// caller-supplied arguments; nothing is cached.
#[verifier::reject_recursive_types(Args)]
#[verifier::reject_recursive_types(Return)]
pub struct ThreadsafeCastableFactory<Args, Return, F> where F: Fn(Args) -> Return + Send + Sync {
    func: F,
    args_phantom: PhantomData<Args>,
    return_phantom: PhantomData<Return>,
}

impl<Args, Return, F> ThreadsafeCastableFactory<Args, Return, F> where
    F: Fn(Args) -> Return + Send + Sync,
 {
    /// The wrapped callable.
    pub closed spec fn callable(self) -> F {
        self.func
    }

    /// Wraps `func`.
    pub fn new(func: F) -> (r: Self)
        ensures
            r.callable() == func,
    {
        ThreadsafeCastableFactory { func, args_phantom: PhantomData, return_phantom: PhantomData }
    }

    /// Invokes the wrapped callable.
    pub fn call(&self, args: Args) -> (r: Return)
        requires
            call_requires(self.callable(), (args,)),
        ensures
            call_ensures(self.callable(), (args,), r),
    {
        (self.func)(args)
    }

    /// Invokes the wrapped callable through an exclusive reference; the
    /// factory itself is left untouched.
    pub fn call_mut(&mut self, args: Args) -> (r: Return)
        requires
            call_requires(old(self).callable(), (args,)),
        ensures
            *final(self) == *old(self),
            call_ensures(old(self).callable(), (args,), r),
    {
        (self.func)(args)
    }

    /// Invokes the wrapped callable, consuming the factory.
    pub fn call_once(self, args: Args) -> (r: Return)
        requires
            call_requires(self.callable(), (args,)),
        ensures
            call_ensures(self.callable(), (args,), r),
    {
        (self.func)(args)
    }
}

} // verus!
