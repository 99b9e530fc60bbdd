//! A flat namespace re-exporting the public types and operations, for
//! inclusion as a single `use`.

pub use crate::boxed::BitBox;
pub use crate::iter::IntoIter;
pub use crate::order::{BitOrder, Local, Lsb0, Msb0};
pub use crate::proxy::{BitIdx, BitMut, BitView};
pub use crate::store::{AccessMode, BitStore};
