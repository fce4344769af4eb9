//! The export section (ID 7): names the module exposes to its host.
use vstd::prelude::*;

use crate::leb::uleb;
use crate::wasm::base::{encode_u32, WasmCodeGen};
use crate::wasm::sections::{BodySection, Section};

verus! {

/// Section of exports.
pub struct ExportSection {
    pub exports: Vec<Export>,
}

impl Section for ExportSection {
    open spec fn id_spec() -> u8 {
        7
    }

    fn id() -> u8 {
        7
    }
}

impl BodySection for ExportSection {
    type BodyItem = Export;

    open spec fn body_spec(&self) -> Vec<Export> {
        self.exports
    }

    fn body_item(&self) -> &Vec<Export> {
        &self.exports
    }
}

/// One export: a name (as UTF-8 bytes) and the entity it points at.
pub struct Export {
    pub name: Vec<u8>,
    pub desc: ExportDesc,
}

impl WasmCodeGen for Export {
    open spec fn wasm_spec(&self) -> Seq<u8> {
        self.name.wasm_spec() + self.desc.wasm_spec()
    }

    fn generate_wasm(&self) -> (r: Vec<u8>) {
        let mut out = self.name.generate_wasm();
        let mut d = self.desc.generate_wasm();
        out.append(&mut d);
        out
    }
}

/// What an export points at: an index into the named space.
pub enum ExportDesc {
    Func(u32),
    Table(u32),
    Mem(u32),
    Global(u32),
}

impl ExportDesc {
    /// The byte tag of the export kind.
    pub open spec fn type_byte_spec(&self) -> u8 {
        match self {
            ExportDesc::Func(_) => 0,
            ExportDesc::Table(_) => 1,
            ExportDesc::Mem(_) => 2,
            ExportDesc::Global(_) => 3,
        }
    }

    pub fn type_byte(&self) -> (r: u8)
        ensures
            r == self.type_byte_spec(),
    {
        match self {
            ExportDesc::Func(_) => 0,
            ExportDesc::Table(_) => 1,
            ExportDesc::Mem(_) => 2,
            ExportDesc::Global(_) => 3,
        }
    }
}

impl WasmCodeGen for ExportDesc {
    open spec fn wasm_spec(&self) -> Seq<u8> {
        match self {
            ExportDesc::Func(i) | ExportDesc::Table(i) | ExportDesc::Mem(i) | ExportDesc::Global(
                i,
            ) => seq![self.type_byte_spec()] + uleb(*i as nat),
        }
    }

    fn generate_wasm(&self) -> (r: Vec<u8>) {
        match self {
            ExportDesc::Func(i) | ExportDesc::Table(i) | ExportDesc::Mem(i) | ExportDesc::Global(
                i,
            ) => {
                let mut out: Vec<u8> = Vec::new();
                out.push(self.type_byte());
                let mut ix = encode_u32(*i);
                out.append(&mut ix);
                proof {
                    assert(out@ =~= seq![self.type_byte_spec()] + uleb(*i as nat));
                }
                out
            },
        }
    }
}

} // verus!
