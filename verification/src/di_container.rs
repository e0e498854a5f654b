//! The two container front-ends.  Both share one data model — binding
//! registry, caster registry and instance slot store — and one resolution
//! engine; the thread-safe front-end additionally demands that every cast
//! relationship it uses was declared thread-safe.

pub mod asynchronous;
pub mod blocking;
