//! A lazy, read-only runtime for Blender's `.blend` files.
//!
//! A `.blend` file is a dump of Blender's memory: a twelve byte header, a
//! sequence of binary blocks that each remember the address they lived at, and
//! a catalog of struct layouts (the DNA) near the end of the file. The
//! [`parsers`] modules frame the bytes into blocks and decode the DNA; the
//! [`runtime`] module reads struct fields out of the still undecoded block
//! bytes, resolves pointers through the remembered addresses and walks lists.

pub mod parsers;
pub mod runtime;

pub use runtime::{Blend, Instance};
