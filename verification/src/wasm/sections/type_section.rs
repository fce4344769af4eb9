//! The type section (ID 1): the interned function signatures of a module.
use vstd::prelude::*;

use crate::wasm::base::{generate_wasm_vec, wasm_spec_vec, ValueType, WasmCodeGen};
use crate::wasm::sections::{BodySection, Section};

verus! {

/// Section of function types, one entry per interned signature.
pub struct TypeSection {
    pub func_types: Vec<FuncType>,
}

impl Section for TypeSection {
    open spec fn id_spec() -> u8 {
        1
    }

    fn id() -> u8 {
        1
    }
}

impl BodySection for TypeSection {
    type BodyItem = FuncType;

    open spec fn body_spec(&self) -> Vec<FuncType> {
        self.func_types
    }

    fn body_item(&self) -> &Vec<FuncType> {
        &self.func_types
    }
}

/// A Wasm function type: parameter and result value types.
#[derive(Debug)]
pub struct FuncType {
    pub parameters: Vec<ValueType>,
    pub results: Vec<ValueType>,
}

impl WasmCodeGen for FuncType {
    open spec fn wasm_spec(&self) -> Seq<u8> {
        seq![0x60u8] + wasm_spec_vec(self.parameters@) + wasm_spec_vec(self.results@)
    }

    fn generate_wasm(&self) -> (r: Vec<u8>) {
        let mut out: Vec<u8> = Vec::new();
        out.push(0x60);
        let mut ps = generate_wasm_vec(&self.parameters);
        out.append(&mut ps);
        let mut rs = generate_wasm_vec(&self.results);
        out.append(&mut rs);
        proof {
            assert(out@ =~= seq![0x60u8] + wasm_spec_vec(self.parameters@) + wasm_spec_vec(
                self.results@,
            ));
        }
        out
    }
}

} // verus!
