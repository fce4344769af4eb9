//! Section framing shared by every non-module section:
//! `id byte || uleb128(body length) || body`, with the body a length-prefixed
//! vector of the section's items.
use vstd::prelude::*;

use crate::leb::{lemma_uleb_decode_at, uleb, uleb_decode_from};
use crate::wasm::base::{encode_len, generate_wasm_vec, wasm_spec_vec, WasmCodeGen};

pub mod code_section;
pub mod data_section;
pub mod export_section;
pub mod function_section;
pub mod import_section;
pub mod memory_section;
pub mod type_section;

pub use code_section::CodeSection;
pub use data_section::DataSection;
pub use export_section::ExportSection;
pub use function_section::FunctionSection;
pub use import_section::ImportSection;
pub use memory_section::MemorySection;
pub use type_section::TypeSection;

verus! {

/// The framed bytes of a section: its ID byte, the LEB128 length of the body,
/// then the body itself.
pub open spec fn section_frame(id: u8, body: Seq<u8>) -> Seq<u8> {
    seq![id] + uleb(body.len()) + body
}

/// Frame an already-encoded section body under the given section ID.
pub fn frame_section(id: u8, body: Vec<u8>) -> (r: Vec<u8>)
    ensures
        r@ == section_frame(id, body@),
{
    let ghost body0 = body@;
    let mut out: Vec<u8> = Vec::new();
    out.push(id);
    let mut len = encode_len(body.len());
    out.append(&mut len);
    let mut b = body;
    out.append(&mut b);
    proof {
        assert(out@ =~= section_frame(id, body0));
    }
    out
}

/// Section framing law: in a framed section, the bytes after the ID byte
/// LEB128-decode to a length equal to the count of the bytes that follow it,
/// and those bytes are exactly the section body.
pub proof fn lemma_section_framing(id: u8, body: Seq<u8>)
    ensures
        section_frame(id, body)[0] == id,
        uleb_decode_from(section_frame(id, body), 1) == Some(
            (body.len(), 1 + uleb(body.len()).len() as int),
        ),
        section_frame(id, body).len() - (1 + uleb(body.len()).len()) == body.len(),
        section_frame(id, body).subrange(
            1 + uleb(body.len()).len() as int,
            section_frame(id, body).len() as int,
        ) == body,
{
    let s = section_frame(id, body);
    let l = uleb(body.len());
    assert(s.subrange(1, 1 + l.len() as int) =~= l);
    lemma_uleb_decode_at(s, 1, body.len());
    assert(s.subrange(1 + l.len() as int, s.len() as int) =~= body);
}

/// A top-level chunk of a Wasm module, identified by an ID byte.
pub trait Section {
    /// The ID byte of this section kind.
    spec fn id_spec() -> u8;

    fn id() -> (r: u8)
        ensures
            r == Self::id_spec(),
    ;
}

/// A section whose body is a length-prefixed vector of one kind of item.
pub trait BodySection: Section {
    type BodyItem: WasmCodeGen;

    /// The items this section carries.
    spec fn body_spec(&self) -> Vec<Self::BodyItem>;

    fn body_item(&self) -> (r: &Vec<Self::BodyItem>)
        ensures
            *r == self.body_spec(),
    ;
}

impl<T: BodySection> WasmCodeGen for T {
    open spec fn wasm_spec(&self) -> Seq<u8> {
        section_frame(T::id_spec(), wasm_spec_vec(self.body_spec()@))
    }

    fn generate_wasm(&self) -> (r: Vec<u8>) {
        let body = generate_wasm_vec(self.body_item());
        frame_section(Self::id(), body)
    }
}

} // verus!
