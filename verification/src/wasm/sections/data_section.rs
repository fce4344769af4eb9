//! The data section (ID 11): byte blobs placed into linear memory at offsets
//! given by constant expressions.
use vstd::prelude::*;

use crate::codegen::CodeGenError;
use crate::leb::uleb;
use crate::wasm::base::{encode_len, encode_u32, WasmCodeGen};
use crate::wasm::instruction::Expr;
use crate::wasm::sections::section_frame;

verus! {

/// Section of data segments.
pub struct DataSection {
    pub data: Vec<Data>,
}

impl DataSection {
    /// The raw concatenation of the encodings of `v[k..]`.
    pub open spec fn data_spec(v: Vec<Data>, k: int) -> Option<Seq<u8>>
        decreases v.len() - k,
    {
        if k < 0 || k >= v.len() {
            Some(Seq::empty())
        } else {
            match (v[k].wasm_opt_spec(), DataSection::data_spec(v, k + 1)) {
                (Some(a), Some(b)) => Some(a + b),
                _ => None,
            }
        }
    }

    /// The framed encoding of the whole section, when every segment encodes.
    pub open spec fn wasm_opt_spec(&self) -> Option<Seq<u8>> {
        match DataSection::data_spec(self.data, 0) {
            Some(b) => Some(section_frame(11, uleb(self.data@.len()) + b)),
            None => None,
        }
    }

    pub fn generate_wasm(&self) -> (r: Result<Vec<u8>, CodeGenError>)
        ensures
            match r {
                Ok(v) => self.wasm_opt_spec() == Some(v@),
                Err(e) => self.wasm_opt_spec() is None && e.reason@
                    == "unimplemented instruction"@,
            },
    {
        let mut body = encode_len(self.data.len());
        let mut k: usize = 0;
        while k < self.data.len()
            invariant
                0 <= k <= self.data@.len(),
                match DataSection::data_spec(self.data, k as int) {
                    Some(rest) => match DataSection::data_spec(self.data, 0) {
                        Some(whole) => uleb(self.data@.len()) + whole == body@ + rest,
                        None => false,
                    },
                    None => DataSection::data_spec(self.data, 0) is None,
                },
            decreases self.data@.len() - k,
        {
            let piece = self.data[k].generate_wasm();
            match piece {
                Ok(mut v) => {
                    proof {
                        if DataSection::data_spec(self.data, k + 1) is Some {
                            assert(body@ + (v@ + DataSection::data_spec(self.data, k + 1)->Some_0)
                                =~= (body@ + v@) + DataSection::data_spec(self.data, k + 1)
                                ->Some_0);
                        }
                    }
                    body.append(&mut v);
                    k = k + 1;
                },
                Err(e) => {
                    return Err(e);
                },
            }
        }
        proof {
            assert(body@ + Seq::<u8>::empty() =~= body@);
        }
        Ok(crate::wasm::sections::frame_section(11, body))
    }
}

/// One data segment: target memory, offset expression, and the raw bytes.
pub struct Data {
    pub memory: u32,
    pub expr: Expr,
    pub init: Vec<u8>,
}

impl Data {
    /// `uleb128(memidx) || offset expr || uleb128(byte count) || bytes`.
    pub open spec fn wasm_opt_spec(&self) -> Option<Seq<u8>> {
        match self.expr.wasm_opt_spec() {
            Some(e) => Some(uleb(self.memory as nat) + e + uleb(self.init@.len()) + self.init@),
            None => None,
        }
    }

    pub fn generate_wasm(&self) -> (r: Result<Vec<u8>, CodeGenError>)
        ensures
            match r {
                Ok(v) => self.wasm_opt_spec() == Some(v@),
                Err(e) => self.wasm_opt_spec() is None && e.reason@
                    == "unimplemented instruction"@,
            },
    {
        let mut out = encode_u32(self.memory);
        let mut e = self.expr.generate_wasm()?;
        out.append(&mut e);
        let mut len = encode_len(self.init.len());
        out.append(&mut len);
        let mut k: usize = 0;
        while k < self.init.len()
            invariant
                0 <= k <= self.init@.len(),
                out@ == uleb(self.memory as nat) + self.expr.wasm_opt_spec()->Some_0 + uleb(
                    self.init@.len(),
                ) + self.init@.take(k as int),
            decreases self.init@.len() - k,
        {
            out.push(self.init[k]);
            proof {
                assert(self.init@.take(k + 1) =~= self.init@.take(k as int).push(
                    self.init@[k as int],
                ));
                assert(uleb(self.memory as nat) + self.expr.wasm_opt_spec()->Some_0 + uleb(
                    self.init@.len(),
                ) + self.init@.take(k + 1) =~= (uleb(self.memory as nat)
                    + self.expr.wasm_opt_spec()->Some_0 + uleb(self.init@.len())
                    + self.init@.take(k as int)).push(self.init@[k as int]));
            }
            k = k + 1;
        }
        proof {
            assert(self.init@.take(self.init@.len() as int) =~= self.init@);
        }
        Ok(out)
    }
}

} // verus!
