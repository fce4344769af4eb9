//! The memory section (ID 5): the linear memories of a module.
use vstd::prelude::*;

use crate::wasm::base::{Limits, WasmCodeGen};
use crate::wasm::sections::{BodySection, Section};

verus! {

/// Section of memories; the MVP allows at most one.
pub struct MemorySection {
    pub memories: Vec<Memory>,
}

impl Section for MemorySection {
    open spec fn id_spec() -> u8 {
        5
    }

    fn id() -> u8 {
        5
    }
}

impl BodySection for MemorySection {
    type BodyItem = Memory;

    open spec fn body_spec(&self) -> Vec<Memory> {
        self.memories
    }

    fn body_item(&self) -> &Vec<Memory> {
        &self.memories
    }
}

/// One linear memory, described by its limits.
pub struct Memory {
    pub memory_type: Limits,
}

impl WasmCodeGen for Memory {
    open spec fn wasm_spec(&self) -> Seq<u8> {
        self.memory_type.wasm_spec()
    }

    fn generate_wasm(&self) -> (r: Vec<u8>) {
        self.memory_type.generate_wasm()
    }
}

} // verus!
