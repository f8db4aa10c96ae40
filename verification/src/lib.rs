//! A WebAssembly 1.0 binary decoder and interpreter core whose parsing and
//! execution rules are stated as contracts and checked by Verus.
pub mod control;
pub mod decode;
pub mod execute;
pub mod instance;
pub mod instructions;
pub mod memory;
pub mod module;
pub mod module_spec;
pub mod numeric;
pub mod components;
pub mod reader;
pub mod sections;
pub mod semantics;
pub mod symbols;
pub mod validation;
pub mod vector;
pub mod writer;

use vstd::prelude::*;

verus! {

/// Size in bytes of one WebAssembly linear-memory page.
pub const PAGE_SIZE: usize = 65536;

} // verus!
