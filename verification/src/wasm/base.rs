//! Byte-level primitives shared by every encoder: LEB128 integers, framed
//! vectors and sequences, value types and memory limits.
use vstd::prelude::*;

use crate::leb::{lemma_uleb_decode_prefix, sleb, uleb, uleb_decode_from};

verus! {

/// Relies on `leb128::write::unsigned`: writes the little-endian 7-bit groups
/// of `n`, continuation bit set on every byte but the last.
#[verifier::external_body]
fn leb_write_unsigned(n: u64) -> (r: Vec<u8>)
    ensures
        r@ == uleb(n as nat),
{
    let mut buf = Vec::new();
    let _ = leb128::write::unsigned(&mut buf, n);
    buf
}

/// Relies on `leb128::write::signed`: writes the little-endian 7-bit groups of
/// `n` with sign extension, stopping once only sign bits remain.
#[verifier::external_body]
fn leb_write_signed(n: i64) -> (r: Vec<u8>)
    ensures
        r@ == sleb(n as int),
{
    let mut buf = Vec::new();
    let _ = leb128::write::signed(&mut buf, n);
    buf
}

/// Unsigned LEB128 encoding of a `u32`.
pub fn encode_u32(n: u32) -> (r: Vec<u8>)
    ensures
        r@ == uleb(n as nat),
{
    leb_write_unsigned(n as u64)
}

/// Signed LEB128 encoding of an `i32`.
pub fn encode_i32(n: i32) -> (r: Vec<u8>)
    ensures
        r@ == sleb(n as int),
{
    leb_write_signed(n as i64)
}

/// Unsigned LEB128 encoding of a length or index.
pub(crate) fn encode_len(n: usize) -> (r: Vec<u8>)
    ensures
        r@ == uleb(n as nat),
{
    leb_write_unsigned(n as u64)
}

/// A value that knows its own Wasm binary encoding, pinned down byte for byte
/// by `wasm_spec`.
pub trait WasmCodeGen {
    /// The exact bytes this value encodes to.
    spec fn wasm_spec(&self) -> Seq<u8>;

    fn generate_wasm(&self) -> (r: Vec<u8>)
        ensures
            r@ == self.wasm_spec(),
    ;
}

/// The raw concatenation of the encodings of `s`, with no length prefix.
pub open spec fn wasm_spec_seq<T: WasmCodeGen>(s: Seq<T>) -> Seq<u8>
    decreases s.len(),
{
    if s.len() == 0 {
        Seq::empty()
    } else {
        wasm_spec_seq(s.drop_last()) + s.last().wasm_spec()
    }
}

/// A length-prefixed vector: `uleb128(count) || concat(encode(item))`.
pub open spec fn wasm_spec_vec<T: WasmCodeGen>(s: Seq<T>) -> Seq<u8> {
    uleb(s.len()) + wasm_spec_seq(s)
}

/// Encode each item in order and concatenate the results.
pub fn generate_wasm_seq<T: WasmCodeGen>(items: &Vec<T>) -> (r: Vec<u8>)
    ensures
        r@ == wasm_spec_seq(items@),
{
    let mut out: Vec<u8> = Vec::new();
    let mut k: usize = 0;
    while k < items.len()
        invariant
            k <= items@.len(),
            out@ == wasm_spec_seq(items@.take(k as int)),
        decreases items@.len() - k,
    {
        let mut piece = items[k].generate_wasm();
        out.append(&mut piece);
        proof {
            assert(items@.take(k + 1).drop_last() =~= items@.take(k as int));
            assert(items@.take(k + 1).last() == items@[k as int]);
        }
        k = k + 1;
    }
    proof {
        assert(items@.take(items@.len() as int) =~= items@);
    }
    out
}

/// Vector framing law: the first bytes of an encoded vector LEB128-decode to
/// the number of items the vector was encoded from.
pub proof fn lemma_vec_framing<T: WasmCodeGen>(items: Seq<T>)
    ensures
        uleb_decode_from(wasm_spec_vec(items), 0) == Some(
            (items.len(), uleb(items.len()).len() as int),
        ),
{
    lemma_uleb_decode_prefix(items.len(), wasm_spec_seq(items));
}

/// Encode a length-prefixed vector of items.
pub fn generate_wasm_vec<T: WasmCodeGen>(items: &Vec<T>) -> (r: Vec<u8>)
    ensures
        r@ == wasm_spec_vec(items@),
{
    let mut out = encode_len(items.len());
    let mut rest = generate_wasm_seq(items);
    out.append(&mut rest);
    out
}

impl WasmCodeGen for u32 {
    open spec fn wasm_spec(&self) -> Seq<u8> {
        uleb(*self as nat)
    }

    fn generate_wasm(&self) -> (r: Vec<u8>) {
        encode_u32(*self)
    }
}

/// A name, kept as its UTF-8 bytes; it encodes as
/// `uleb128(byte-length) || bytes`.
impl WasmCodeGen for Vec<u8> {
    open spec fn wasm_spec(&self) -> Seq<u8> {
        uleb(self@.len()) + self@
    }

    fn generate_wasm(&self) -> (r: Vec<u8>) {
        let mut out = encode_len(self.len());
        let mut k: usize = 0;
        while k < self.len()
            invariant
                k <= self@.len(),
                out@ == uleb(self@.len()) + self@.take(k as int),
            decreases self@.len() - k,
        {
            out.push(self[k]);
            proof {
                assert(self@.take(k + 1) =~= self@.take(k as int).push(self@[k as int]));
                assert(uleb(self@.len()) + self@.take(k + 1) =~= (uleb(self@.len())
                    + self@.take(k as int)).push(self@[k as int]));
            }
            k = k + 1;
        }
        proof {
            assert(self@.take(self@.len() as int) =~= self@);
        }
        out
    }
}

/// The four Wasm MVP numeric value types.
#[derive(Debug, Clone, Copy, PartialEq, Eq, Structural)]
pub enum ValueType {
    I32,
    I64,
    F32,
    F64,
}

impl ValueType {
    /// The byte tag of this value type in the binary format.
    pub open spec fn to_byte_spec(&self) -> u8 {
        match self {
            ValueType::I32 => 0x7F,
            ValueType::I64 => 0x7E,
            ValueType::F32 => 0x7D,
            ValueType::F64 => 0x7C,
        }
    }

    pub fn to_byte(&self) -> (r: u8)
        ensures
            r == self.to_byte_spec(),
    {
        match self {
            ValueType::I32 => 0x7F,
            ValueType::I64 => 0x7E,
            ValueType::F32 => 0x7D,
            ValueType::F64 => 0x7C,
        }
    }
}

impl WasmCodeGen for ValueType {
    open spec fn wasm_spec(&self) -> Seq<u8> {
        seq![self.to_byte_spec()]
    }

    fn generate_wasm(&self) -> (r: Vec<u8>) {
        let mut out: Vec<u8> = Vec::new();
        out.push(self.to_byte());
        proof {
            assert(out@ =~= seq![self.to_byte_spec()]);
        }
        out
    }
}

/// Memory limits: a minimum page count and an optional maximum.
pub struct Limits {
    pub min: u32,
    pub max: Option<u32>,
}

impl WasmCodeGen for Limits {
    open spec fn wasm_spec(&self) -> Seq<u8> {
        match self.max {
            Some(m) => seq![0x01u8] + uleb(self.min as nat) + uleb(m as nat),
            None => seq![0x00u8] + uleb(self.min as nat),
        }
    }

    fn generate_wasm(&self) -> (r: Vec<u8>) {
        let mut out: Vec<u8> = Vec::new();
        match self.max {
            Some(m) => {
                out.push(0x01);
                let mut lo = encode_u32(self.min);
                out.append(&mut lo);
                let mut hi = encode_u32(m);
                out.append(&mut hi);
                proof {
                    assert(out@ =~= seq![0x01u8] + uleb(self.min as nat) + uleb(m as nat));
                }
            },
            None => {
                out.push(0x00);
                let mut lo = encode_u32(self.min);
                out.append(&mut lo);
                proof {
                    assert(out@ =~= seq![0x00u8] + uleb(self.min as nat));
                }
            },
        }
        out
    }
}

/// Two sequences whose items encode alike encode alike as a whole.
pub proof fn lemma_wasm_spec_seq_pointwise<T: WasmCodeGen>(s1: Seq<T>, s2: Seq<T>)
    requires
        s1.len() == s2.len(),
        forall|i: int|
            0 <= i < s1.len() ==> (#[trigger] s1[i]).wasm_spec() == (#[trigger] s2[i]).wasm_spec(),
    ensures
        wasm_spec_seq(s1) == wasm_spec_seq(s2),
    decreases s1.len(),
{
    if s1.len() > 0 {
        assert(forall|i: int|
            0 <= i < s1.drop_last().len() ==> #[trigger] s1.drop_last()[i] == s1[i]);
        assert(forall|i: int|
            0 <= i < s2.drop_last().len() ==> #[trigger] s2.drop_last()[i] == s2[i]);
        lemma_wasm_spec_seq_pointwise(s1.drop_last(), s2.drop_last());
    }
}

} // verus!
