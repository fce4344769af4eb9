//! The function section (ID 3): one interned type index per implemented
//! function, in function-index order.
use vstd::prelude::*;

use crate::wasm::sections::{BodySection, Section};

verus! {

/// Section of type indices, one per implementation.
pub struct FunctionSection {
    pub types: Vec<u32>,
}

impl Section for FunctionSection {
    open spec fn id_spec() -> u8 {
        3
    }

    fn id() -> u8 {
        3
    }
}

impl BodySection for FunctionSection {
    type BodyItem = u32;

    open spec fn body_spec(&self) -> Vec<u32> {
        self.types
    }

    fn body_item(&self) -> &Vec<u32> {
        &self.types
    }
}

} // verus!
