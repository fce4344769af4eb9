//! The module encoder: magic and version preamble, then the section groups in
//! canonical order.
use vstd::prelude::*;

use crate::codegen::CodeGenError;
use crate::wasm::base::{generate_wasm_seq, wasm_spec_seq};
use crate::wasm::sections::{
    CodeSection, DataSection, ExportSection, FunctionSection, ImportSection, MemorySection,
    TypeSection,
};

verus! {

/// The 8-byte module preamble: magic `\0asm` and version 1.
pub open spec fn preamble() -> Seq<u8> {
    seq![0x00u8, 0x61u8, 0x73u8, 0x6Du8, 0x01u8, 0x00u8, 0x00u8, 0x00u8]
}

/// A Wasm module as an ordered collection of section groups; each group is
/// emitted as the raw concatenation of its (already framed) sections.
pub struct Module {
    pub type_sections: Vec<TypeSection>,
    pub import_sections: Vec<ImportSection>,
    pub function_sections: Vec<FunctionSection>,
    pub memory_sections: Vec<MemorySection>,
    pub export_sections: Vec<ExportSection>,
    pub code_sections: Vec<CodeSection>,
    pub data_sections: Vec<DataSection>,
}

impl Module {
    fn magic(&self) -> (r: Vec<u8>)
        ensures
            r@ == preamble().subrange(0, 4),
    {
        let mut out: Vec<u8> = Vec::new();
        out.push(0x00);
        out.push(0x61);
        out.push(0x73);
        out.push(0x6D);
        proof {
            assert(out@ =~= preamble().subrange(0, 4));
        }
        out
    }

    fn version(&self) -> (r: Vec<u8>)
        ensures
            r@ == preamble().subrange(4, 8),
    {
        let mut out: Vec<u8> = Vec::new();
        out.push(0x01);
        out.push(0x00);
        out.push(0x00);
        out.push(0x00);
        proof {
            assert(out@ =~= preamble().subrange(4, 8));
        }
        out
    }

    /// The concatenation of the encodings of the code sections `v[k..]`.
    pub open spec fn code_group_spec(v: Vec<CodeSection>, k: int) -> Option<Seq<u8>>
        decreases v.len() - k,
    {
        if k < 0 || k >= v.len() {
            Some(Seq::empty())
        } else {
            match (v[k].wasm_opt_spec(), Module::code_group_spec(v, k + 1)) {
                (Some(a), Some(b)) => Some(a + b),
                _ => None,
            }
        }
    }

    /// The concatenation of the encodings of the data sections `v[k..]`.
    pub open spec fn data_group_spec(v: Vec<DataSection>, k: int) -> Option<Seq<u8>>
        decreases v.len() - k,
    {
        if k < 0 || k >= v.len() {
            Some(Seq::empty())
        } else {
            match (v[k].wasm_opt_spec(), Module::data_group_spec(v, k + 1)) {
                (Some(a), Some(b)) => Some(a + b),
                _ => None,
            }
        }
    }

    /// The whole module image: preamble, then the section groups in the fixed
    /// order type, import, function, memory, export, code, data.
    pub open spec fn wasm_opt_spec(&self) -> Option<Seq<u8>> {
        match (
            Module::code_group_spec(self.code_sections, 0),
            Module::data_group_spec(self.data_sections, 0),
        ) {
            (Some(c), Some(d)) => Some(
                preamble() + wasm_spec_seq(self.type_sections@) + wasm_spec_seq(
                    self.import_sections@,
                ) + wasm_spec_seq(self.function_sections@) + wasm_spec_seq(self.memory_sections@)
                    + wasm_spec_seq(self.export_sections@) + c + d,
            ),
            _ => None,
        }
    }

    /// Emit the module image, or report the use of an unimplemented
    /// instruction somewhere in its bodies.
    pub fn generate_wasm(&self) -> (r: Result<Vec<u8>, CodeGenError>)
        ensures
            match r {
                Ok(v) => self.wasm_opt_spec() == Some(v@),
                Err(e) => self.wasm_opt_spec() is None && e.reason@
                    == "unimplemented instruction"@,
            },
    {
        let mut out = self.magic();
        let mut v = self.version();
        out.append(&mut v);
        let mut tys = generate_wasm_seq(&self.type_sections);
        out.append(&mut tys);
        let mut ims = generate_wasm_seq(&self.import_sections);
        out.append(&mut ims);
        let mut fns = generate_wasm_seq(&self.function_sections);
        out.append(&mut fns);
        let mut mems = generate_wasm_seq(&self.memory_sections);
        out.append(&mut mems);
        let mut exs = generate_wasm_seq(&self.export_sections);
        out.append(&mut exs);
        let mut k: usize = 0;
        proof {
            assert(preamble().subrange(0, 4) + preamble().subrange(4, 8) =~= preamble());
        }
        let ghost head = preamble() + wasm_spec_seq(self.type_sections@) + wasm_spec_seq(
            self.import_sections@,
        ) + wasm_spec_seq(self.function_sections@) + wasm_spec_seq(self.memory_sections@)
            + wasm_spec_seq(self.export_sections@);
        proof {
            assert(out@ =~= head);
        }
        while k < self.code_sections.len()
            invariant
                0 <= k <= self.code_sections@.len(),
                match Module::code_group_spec(self.code_sections, k as int) {
                    Some(rest) => match Module::code_group_spec(self.code_sections, 0) {
                        Some(whole) => head + whole == out@ + rest,
                        None => false,
                    },
                    None => Module::code_group_spec(self.code_sections, 0) is None,
                },
            decreases self.code_sections@.len() - k,
        {
            let piece = self.code_sections[k].generate_wasm();
            match piece {
                Ok(mut v) => {
                    proof {
                        if Module::code_group_spec(self.code_sections, k + 1) is Some {
                            assert(out@ + (v@ + Module::code_group_spec(
                                self.code_sections,
                                k + 1,
                            )->Some_0) =~= (out@ + v@) + Module::code_group_spec(
                                self.code_sections,
                                k + 1,
                            )->Some_0);
                        }
                    }
                    out.append(&mut v);
                    k = k + 1;
                },
                Err(e) => {
                    return Err(e);
                },
            }
        }
        let ghost head2 = head + Module::code_group_spec(self.code_sections, 0)->Some_0;
        proof {
            assert(out@ + Seq::<u8>::empty() =~= out@);
            assert(out@ =~= head2);
        }
        let mut k2: usize = 0;
        while k2 < self.data_sections.len()
            invariant
                0 <= k2 <= self.data_sections@.len(),
                out@ == head2 + Seq::<u8>::empty() || true,
                match Module::data_group_spec(self.data_sections, k2 as int) {
                    Some(rest) => match Module::data_group_spec(self.data_sections, 0) {
                        Some(whole) => head2 + whole == out@ + rest,
                        None => false,
                    },
                    None => Module::data_group_spec(self.data_sections, 0) is None,
                },
            decreases self.data_sections@.len() - k2,
        {
            let piece = self.data_sections[k2].generate_wasm();
            match piece {
                Ok(mut v) => {
                    proof {
                        if Module::data_group_spec(self.data_sections, k2 + 1) is Some {
                            assert(out@ + (v@ + Module::data_group_spec(
                                self.data_sections,
                                k2 + 1,
                            )->Some_0) =~= (out@ + v@) + Module::data_group_spec(
                                self.data_sections,
                                k2 + 1,
                            )->Some_0);
                        }
                    }
                    out.append(&mut v);
                    k2 = k2 + 1;
                },
                Err(e) => {
                    return Err(e);
                },
            }
        }
        proof {
            assert(out@ + Seq::<u8>::empty() =~= out@);
            assert(out@ =~= self.wasm_opt_spec()->Some_0);
        }
        Ok(out)
    }
}

/// Module well-formedness law: whenever a module encodes at all, its bytes
/// start with the 8-byte preamble, and what follows is exactly the
/// concatenation of its framed section groups in canonical order.
pub proof fn lemma_module_preamble(m: &Module, b: Seq<u8>)
    requires
        m.wasm_opt_spec() == Some(b),
    ensures
        b.len() >= 8,
        b.subrange(0, 8) == preamble(),
        b.subrange(8, b.len() as int) == wasm_spec_seq(m.type_sections@) + wasm_spec_seq(
            m.import_sections@,
        ) + wasm_spec_seq(m.function_sections@) + wasm_spec_seq(m.memory_sections@)
            + wasm_spec_seq(m.export_sections@) + Module::code_group_spec(m.code_sections, 0)
            ->Some_0 + Module::data_group_spec(m.data_sections, 0)->Some_0,
{
    assert(b.subrange(0, 8) =~= preamble());
    assert(b.subrange(8, b.len() as int) =~= wasm_spec_seq(m.type_sections@) + wasm_spec_seq(
        m.import_sections@,
    ) + wasm_spec_seq(m.function_sections@) + wasm_spec_seq(m.memory_sections@) + wasm_spec_seq(
        m.export_sections@,
    ) + Module::code_group_spec(m.code_sections, 0)->Some_0 + Module::data_group_spec(
        m.data_sections,
        0,
    )->Some_0);
}

/// The encoding of a code-section group depends only on each section's own
/// encoding.
pub proof fn lemma_code_group_pointwise(v1: Vec<CodeSection>, v2: Vec<CodeSection>, k: int)
    requires
        v1@.len() == v2@.len(),
        forall|i: int|
            0 <= i < v1@.len() ==> (#[trigger] v1[i]).wasm_opt_spec()
                == (#[trigger] v2[i]).wasm_opt_spec(),
    ensures
        Module::code_group_spec(v1, k) == Module::code_group_spec(v2, k),
    decreases v1.len() - k,
{
    if 0 <= k < v1.len() {
        lemma_code_group_pointwise(v1, v2, k + 1);
    }
}

} // verus!
