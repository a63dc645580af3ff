//! The value capability and its two illustrative kinds.
//!
//! A value handle implements `Var`: "produce the current value as a string".
//! The call takes no preconditions, must not fail, and may return a
//! different result on each call — it reflects "now", not a cached reading.

use vstd::prelude::*;

use crate::digits::dec_digits;
use crate::digits::to_decimal;

verus! {

/// The value capability: produce the current value as a string.
///
/// Implementations may be called repeatedly; each call computes a fresh
/// reading. The trait itself promises nothing about the text — each
/// implementation states its own guarantee.
pub trait Var {
    fn value(&self) -> String;
}

/// A plain counter. `value` renders the current count as decimal text.
pub struct Int {
    inner: usize,
}

impl Int {
    /// The current count.
    pub closed spec fn count(&self) -> usize {
        self.inner
    }

    /// A counter starting at `initial`.
    pub fn new(initial: usize) -> (r: Int)
        ensures
            r.count() == initial,
    {
        Int { inner: initial }
    }

    /// Adds `delta` to the count.
    pub fn add(&mut self, delta: usize)
        requires
            old(self).count() + delta <= usize::MAX,
        ensures
            final(self).count() == old(self).count() + delta,
    {
        self.inner = self.inner + delta;
    }
}

impl Var for Int {
    /// The count, as decimal text.
    fn value(&self) -> (r: String)
        ensures
            r@ == dec_digits(self.count() as nat),
    {
        to_decimal(self.inner)
    }
}

/// A function-backed value: `value` invokes the stored callback afresh on
/// every call, so the text always reflects whatever the callback reads now.
pub struct Func<F: Fn() -> String> {
    inner: F,
}

impl<F: Fn() -> String> Func<F> {
    /// The callback may be invoked at any time with no further precondition.
    #[verifier::type_invariant]
    closed spec fn callback_callable(&self) -> bool {
        call_requires(self.inner, ())
    }

    /// The stored callback.
    pub closed spec fn callback(&self) -> F {
        self.inner
    }

    /// A function-backed value around `f`.
    pub fn new(f: F) -> (r: Func<F>)
        requires
            call_requires(f, ()),
        ensures
            r.callback() == f,
    {
        Func { inner: f }
    }
}

impl<F: Fn() -> String> Var for Func<F> {
    /// Whatever the callback returned for this call.
    fn value(&self) -> (r: String)
        ensures
            call_ensures(self.callback(), (), r),
    {
        proof {
            use_type_invariant(self);
        }
        (self.inner)()
    }
}

} // verus!
