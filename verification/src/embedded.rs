//! Host-provided native callables.

pub mod func;
