//! A growable, contiguous sequence container whose length and capacity are
//! stored in a caller-chosen narrow unsigned integer type instead of the
//! native word, saving per-instance space when a container's capacity never
//! needs to exceed a small bound.

pub mod int_trait;
pub mod small_vec;

pub use int_trait::Int;
pub use small_vec::IntoIter;
pub use small_vec::SmallerVec;
