//! The Wasm binary format: identifier spaces, byte-level primitives,
//! instructions, sections, and the module encoder.
pub mod base;
pub mod instruction;
pub mod module;
pub mod sections;

use vstd::prelude::*;

verus! {

/// Index into the function space of a module: imports first, then
/// implementations, each in declaration order.
#[derive(Debug, Hash, Eq, PartialEq, Ord, PartialOrd, Copy, Clone, Structural)]
pub struct FuncId(pub u32);

/// Index of a local (parameter or scratch slot) within one function.
#[derive(Debug, Hash, Eq, PartialEq, Ord, PartialOrd, Copy, Clone, Structural)]
pub struct LocalId(pub u32);

/// Index into the interned function-type table of a module.
#[derive(Debug, Hash, Eq, PartialEq, Ord, PartialOrd, Copy, Clone, Structural)]
pub struct TypeId(pub u32);

} // verus!
