//! The code section (ID 10): one body per implemented function, each
//! length-prefixed, in function-index order.
use vstd::prelude::*;

use crate::codegen::CodeGenError;
use crate::leb::uleb;
use crate::wasm::base::{
    encode_len, encode_u32, generate_wasm_vec, wasm_spec_vec, ValueType, WasmCodeGen,
};
use crate::wasm::instruction::Expr;
use crate::wasm::sections::section_frame;

verus! {

/// Section of function bodies.
pub struct CodeSection {
    pub codes: Vec<Code>,
}

impl CodeSection {
    /// The raw concatenation of the encodings of `v[k..]`.
    pub open spec fn codes_spec(v: Vec<Code>, k: int) -> Option<Seq<u8>>
        decreases v.len() - k,
    {
        if k < 0 || k >= v.len() {
            Some(Seq::empty())
        } else {
            match (v[k].wasm_opt_spec(), CodeSection::codes_spec(v, k + 1)) {
                (Some(a), Some(b)) => Some(a + b),
                _ => None,
            }
        }
    }

    /// The framed encoding of the whole section, when every body encodes.
    pub open spec fn wasm_opt_spec(&self) -> Option<Seq<u8>> {
        match CodeSection::codes_spec(self.codes, 0) {
            Some(b) => Some(section_frame(10, uleb(self.codes@.len()) + b)),
            None => None,
        }
    }

    pub fn generate_wasm(&self) -> (r: Result<Vec<u8>, CodeGenError>)
        ensures
            match r {
                Ok(v) => self.wasm_opt_spec() == Some(v@),
                Err(e) => self.wasm_opt_spec() is None && e.reason@
                    == "unimplemented instruction"@,
            },
    {
        let mut body = encode_len(self.codes.len());
        let mut k: usize = 0;
        while k < self.codes.len()
            invariant
                0 <= k <= self.codes@.len(),
                match CodeSection::codes_spec(self.codes, k as int) {
                    Some(rest) => match CodeSection::codes_spec(self.codes, 0) {
                        Some(whole) => uleb(self.codes@.len()) + whole == body@ + rest,
                        None => false,
                    },
                    None => CodeSection::codes_spec(self.codes, 0) is None,
                },
            decreases self.codes@.len() - k,
        {
            let piece = self.codes[k].generate_wasm();
            match piece {
                Ok(mut v) => {
                    proof {
                        if CodeSection::codes_spec(self.codes, k + 1) is Some {
                            assert(body@ + (v@ + CodeSection::codes_spec(self.codes, k + 1)
                                ->Some_0) =~= (body@ + v@) + CodeSection::codes_spec(
                                self.codes,
                                k + 1,
                            )->Some_0);
                        }
                    }
                    body.append(&mut v);
                    k = k + 1;
                },
                Err(e) => {
                    return Err(e);
                },
            }
        }
        proof {
            assert(body@ + Seq::<u8>::empty() =~= body@);
        }
        Ok(crate::wasm::sections::frame_section(10, body))
    }
}

/// One code entry: the size in bytes, then the function itself.
pub struct Code {
    pub func: Func,
}

impl Code {
    /// `uleb128(byte length) || func`.
    pub open spec fn wasm_opt_spec(&self) -> Option<Seq<u8>> {
        match self.func.wasm_opt_spec() {
            Some(f) => Some(uleb(f.len()) + f),
            None => None,
        }
    }

    pub fn generate_wasm(&self) -> (r: Result<Vec<u8>, CodeGenError>)
        ensures
            match r {
                Ok(v) => self.wasm_opt_spec() == Some(v@),
                Err(e) => self.wasm_opt_spec() is None && e.reason@
                    == "unimplemented instruction"@,
            },
    {
        let mut f = self.func.generate_wasm()?;
        let mut out = encode_len(f.len());
        out.append(&mut f);
        Ok(out)
    }
}

/// A function body: its local declarations, then its expression.
pub struct Func {
    pub locals: Vec<Local>,
    pub expr: Expr,
}

impl Func {
    /// `vec(Local) || Expr`.
    pub open spec fn wasm_opt_spec(&self) -> Option<Seq<u8>> {
        match self.expr.wasm_opt_spec() {
            Some(e) => Some(wasm_spec_vec(self.locals@) + e),
            None => None,
        }
    }

    pub fn generate_wasm(&self) -> (r: Result<Vec<u8>, CodeGenError>)
        ensures
            match r {
                Ok(v) => self.wasm_opt_spec() == Some(v@),
                Err(e) => self.wasm_opt_spec() is None && e.reason@
                    == "unimplemented instruction"@,
            },
    {
        let mut out = generate_wasm_vec(&self.locals);
        let mut e = self.expr.generate_wasm()?;
        out.append(&mut e);
        Ok(out)
    }
}

/// A run of `n` locals sharing one value type.
pub struct Local {
    pub n: u32,
    pub value_type: ValueType,
}

impl WasmCodeGen for Local {
    open spec fn wasm_spec(&self) -> Seq<u8> {
        uleb(self.n as nat) + seq![self.value_type.to_byte_spec()]
    }

    fn generate_wasm(&self) -> (r: Vec<u8>) {
        let mut out = encode_u32(self.n);
        out.push(self.value_type.to_byte());
        proof {
            assert(out@ =~= uleb(self.n as nat) + seq![self.value_type.to_byte_spec()]);
        }
        out
    }
}

/// The encoding of a code list depends only on each entry's own encoding.
pub proof fn lemma_codes_spec_pointwise(v1: Vec<Code>, v2: Vec<Code>, k: int)
    requires
        v1@.len() == v2@.len(),
        forall|i: int|
            0 <= i < v1@.len() ==> (#[trigger] v1[i]).wasm_opt_spec()
                == (#[trigger] v2[i]).wasm_opt_spec(),
    ensures
        CodeSection::codes_spec(v1, k) == CodeSection::codes_spec(v2, k),
    decreases v1.len() - k,
{
    if 0 <= k < v1.len() {
        lemma_codes_spec_pointwise(v1, v2, k + 1);
    }
}

} // verus!
