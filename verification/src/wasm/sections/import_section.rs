//! The import section (ID 2): host functions the module pulls in.
use vstd::prelude::*;

use crate::leb::uleb;
use crate::wasm::base::{encode_u32, WasmCodeGen};
use crate::wasm::sections::{BodySection, Section};

verus! {

/// Section of imports, in declaration order.
pub struct ImportSection {
    pub imports: Vec<Import>,
}

impl Section for ImportSection {
    open spec fn id_spec() -> u8 {
        2
    }

    fn id() -> u8 {
        2
    }
}

impl BodySection for ImportSection {
    type BodyItem = Import;

    open spec fn body_spec(&self) -> Vec<Import> {
        self.imports
    }

    fn body_item(&self) -> &Vec<Import> {
        &self.imports
    }
}

/// One import: the host module and field names (as UTF-8 bytes) and what is
/// being imported.
pub struct Import {
    pub module: Vec<u8>,
    pub name: Vec<u8>,
    pub desc: ImportDesc,
}

impl WasmCodeGen for Import {
    open spec fn wasm_spec(&self) -> Seq<u8> {
        self.module.wasm_spec() + self.name.wasm_spec() + self.desc.wasm_spec()
    }

    fn generate_wasm(&self) -> (r: Vec<u8>) {
        let mut out = self.module.generate_wasm();
        let mut nm = self.name.generate_wasm();
        out.append(&mut nm);
        let mut d = self.desc.generate_wasm();
        out.append(&mut d);
        out
    }
}

/// What an import brings in; only functions are supported, tagged with the
/// index of their interned type.
pub enum ImportDesc {
    Func(u32),
}

impl WasmCodeGen for ImportDesc {
    open spec fn wasm_spec(&self) -> Seq<u8> {
        match self {
            ImportDesc::Func(i) => seq![0x00u8] + uleb(*i as nat),
        }
    }

    fn generate_wasm(&self) -> (r: Vec<u8>) {
        match self {
            ImportDesc::Func(i) => {
                let mut out: Vec<u8> = Vec::new();
                out.push(0x00);
                let mut ix = encode_u32(*i);
                out.append(&mut ix);
                proof {
                    assert(out@ =~= seq![0x00u8] + uleb(*i as nat));
                }
                out
            },
        }
    }
}

} // verus!
