//! Packed-boolean storage with verified single-bit mutation and iteration.
//!
//! Many logical bits are stored densely inside fixed-width storage elements.
//! A pluggable ordering policy maps each logical bit index to a physical
//! position within its element. The two central pieces are a commit-on-release
//! write handle for a single bit and an owning, double-ended, exact-length
//! iteration engine over a container's bits.

pub mod boxed;
pub mod iter;
pub mod order;
pub mod prelude;
pub mod proxy;
pub mod store;
