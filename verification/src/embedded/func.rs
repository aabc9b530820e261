//! Registration of the host-provided native callables.
//!
//! A native callable is known to the evaluator only by an opaque handle;
//! calling it records a [`crate::eval::Event::Native`] with that handle,
//! and the surrounding program decides what the handle does. The one
//! native this library registers is the zero-argument clock stub.

use vstd::prelude::*;

use crate::environment::{define_scopes, Environment, Value, ValueV};

verus! {

/// The handle under which the clock stub is registered.
pub const CLOCK_HANDLE: u64 = 0;

/// A copy of the store with the clock stub bound to `clock` in its
/// innermost scope.
pub fn register_func(env: &Environment) -> (r: Environment)
    requires
        env.wf(),
    ensures
        r.wf(),
        r@ == define_scopes(env@, "clock"@, ValueV::Native(CLOCK_HANDLE)),
{
    let mut r = env.clone();
    let _ = r.define(String::from_str("clock"), Value::NativeFunc(CLOCK_HANDLE));
    r
}

} // verus!
