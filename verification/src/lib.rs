//! Generation of readable C headers from the items of a Rust crate, and the
//! C interop types that such headers describe.

pub mod text;
pub mod case;
pub mod ctype;
pub mod config;
pub mod doc;
pub mod items;
pub mod emit;
pub mod convert;
pub mod bitflags;
pub mod order;
pub mod validate;
pub mod error;
pub mod syntax;
pub mod parse;
pub mod literal;
pub mod builder;
pub mod generator;
pub mod selection;
pub mod topo;
pub mod scan;
pub mod names;
pub mod header;
pub mod ctypes;
pub mod buffers;
pub mod macros;
pub mod deps;
