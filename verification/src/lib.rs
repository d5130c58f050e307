//! Read-only accessors over the structure block of a flattened device tree.
//!
//! A [`node::Node`] is a cursor position inside the blob together with the
//! context it inherited from its ancestors. Everything it hands out (its
//! properties, the entries of `reg` and `ranges`, its interrupt parent) is
//! decoded on demand from the bytes behind that cursor.

pub mod clocks;
pub mod define;
pub mod error;
pub mod fdt;
pub mod interrupt;
pub mod meta;
pub mod node;
pub mod property;
pub mod read;
pub mod text;
