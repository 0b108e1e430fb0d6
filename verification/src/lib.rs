//! Memory descriptors for graphics resources, and byte-exact casts between
//! sequences of plain-old-data values.
//!
//! A resource is described before it is created: a [`Usage`] hint says how
//! the CPU and the GPU will access its memory, with the CPU's rights as an
//! [`Access`] set where they are explicit, and a [`Bind`] set says what the
//! resource may be bound for. [`cast_slice`] turns a sequence of one
//! [`Pod`] type into the sequence of another that has the same bytes.
//! [`Typed`] is the interface of strong types around raw backend values.

pub mod access;
pub mod arrays;
pub mod bind;
pub mod cast;
pub mod encoding;
pub mod image;
pub mod integers;
pub mod pod;
pub mod typed;
pub mod usage;

pub use access::Access;
pub use bind::Bind;
pub use cast::{cast_len, cast_slice};
pub use pod::Pod;
pub use typed::{Typed, TypedHandle};
pub use usage::Usage;
