//! Wasm instructions: opcode table, operand serialization, and the framing of
//! structured instructions and expressions.
use vstd::prelude::*;

use crate::codegen::CodeGenError;
use crate::leb::{sleb, uleb};
use crate::wasm::base::{encode_u32, ValueType, WasmCodeGen};

verus! {

/// The Wasm MVP instructions required by the frontend, plus room to grow.
/// The `i64.const` and float constants are carried but not yet encodable.
#[derive(Debug)]
pub enum Instruction {
    Unreachable,
    Nop,
    Block(BlockType, Vec<Instruction>),
    Loop(BlockType, Vec<Instruction>),
    If(BlockType, Vec<Instruction>),
    IfElse(BlockType, Vec<Instruction>, Vec<Instruction>),
    Branch(u32),
    BranchIf(u32),
    Return,
    Call(u32),
    CallIndirect(u32),
    Drop,
    Select,
    LocalGet(u32),
    LocalSet(u32),
    LocalTee(u32),
    GlobalGet(u32),
    GlobalSet(u32),
    I32Load(MemArg),
    I64Load(MemArg),
    F32Load(MemArg),
    F64Load(MemArg),
    I32Load8S(MemArg),
    I32Load8U(MemArg),
    I32Load16S(MemArg),
    I32Load16U(MemArg),
    I64Load8S(MemArg),
    I64Load8U(MemArg),
    I64Load16S(MemArg),
    I64Load16U(MemArg),
    I64Load32S(MemArg),
    I64Load32U(MemArg),
    I32Store(MemArg),
    I64Store(MemArg),
    F32Store(MemArg),
    F64Store(MemArg),
    I32Store8(MemArg),
    I32Store16(MemArg),
    I64Store8(MemArg),
    I64Store16(MemArg),
    I64Store32(MemArg),
    MemorySize,
    MemoryGrow,
    I32Const(i32),
    I64Const(i64),
    F32Const,
    F64Const,
}

/// The type annotation of a structured instruction.
#[derive(Debug, Clone, Copy)]
pub enum BlockType {
    Empty,
    ValueType(ValueType),
    TypeIndex(u32),
}

impl WasmCodeGen for BlockType {
    open spec fn wasm_spec(&self) -> Seq<u8> {
        match self {
            BlockType::Empty => seq![0x40u8],
            BlockType::ValueType(t) => t.wasm_spec(),
            BlockType::TypeIndex(i) => uleb(*i as nat),
        }
    }

    fn generate_wasm(&self) -> (r: Vec<u8>) {
        match self {
            BlockType::Empty => {
                let mut out: Vec<u8> = Vec::new();
                out.push(0x40);
                proof {
                    assert(out@ =~= seq![0x40u8]);
                }
                out
            },
            BlockType::ValueType(t) => t.generate_wasm(),
            BlockType::TypeIndex(i) => encode_u32(*i),
        }
    }
}

/// The `(align, offset)` pair attached to every load and store.
#[derive(Debug, Clone, Copy)]
pub struct MemArg {
    pub align: u32,
    pub offset: u32,
}

impl WasmCodeGen for MemArg {
    open spec fn wasm_spec(&self) -> Seq<u8> {
        uleb(self.align as nat) + uleb(self.offset as nat)
    }

    fn generate_wasm(&self) -> (r: Vec<u8>) {
        let mut out = encode_u32(self.align);
        let mut off = encode_u32(self.offset);
        out.append(&mut off);
        out
    }
}

impl Instruction {
    /// The opcode byte of this instruction.
    pub open spec fn opcode_spec(&self) -> u8 {
        match self {
            Instruction::Unreachable => 0x00,
            Instruction::Nop => 0x01,
            Instruction::Block(_, _) => 0x02,
            Instruction::Loop(_, _) => 0x03,
            Instruction::If(_, _) => 0x04,
            Instruction::IfElse(_, _, _) => 0x04,
            Instruction::Branch(_) => 0x0C,
            Instruction::BranchIf(_) => 0x0D,
            Instruction::Return => 0x0F,
            Instruction::Call(_) => 0x10,
            Instruction::CallIndirect(_) => 0x11,
            Instruction::Drop => 0x1A,
            Instruction::Select => 0x1B,
            Instruction::LocalGet(_) => 0x20,
            Instruction::LocalSet(_) => 0x21,
            Instruction::LocalTee(_) => 0x22,
            Instruction::GlobalGet(_) => 0x23,
            Instruction::GlobalSet(_) => 0x24,
            Instruction::I32Load(_) => 0x28,
            Instruction::I64Load(_) => 0x29,
            Instruction::F32Load(_) => 0x2A,
            Instruction::F64Load(_) => 0x2B,
            Instruction::I32Load8S(_) => 0x2C,
            Instruction::I32Load8U(_) => 0x2D,
            Instruction::I32Load16S(_) => 0x2E,
            Instruction::I32Load16U(_) => 0x2F,
            Instruction::I64Load8S(_) => 0x30,
            Instruction::I64Load8U(_) => 0x31,
            Instruction::I64Load16S(_) => 0x32,
            Instruction::I64Load16U(_) => 0x33,
            Instruction::I64Load32S(_) => 0x34,
            Instruction::I64Load32U(_) => 0x35,
            Instruction::I32Store(_) => 0x36,
            Instruction::I64Store(_) => 0x37,
            Instruction::F32Store(_) => 0x38,
            Instruction::F64Store(_) => 0x39,
            Instruction::I32Store8(_) => 0x3A,
            Instruction::I32Store16(_) => 0x3B,
            Instruction::I64Store8(_) => 0x3C,
            Instruction::I64Store16(_) => 0x3D,
            Instruction::I64Store32(_) => 0x3E,
            Instruction::MemorySize => 0x3F,
            Instruction::MemoryGrow => 0x40,
            Instruction::I32Const(_) => 0x41,
            Instruction::I64Const(_) => 0x42,
            Instruction::F32Const => 0x43,
            Instruction::F64Const => 0x44,
        }
    }

    /// The operand bytes following the opcode, or `None` for the instructions
    /// whose encoding is not implemented.
    pub open spec fn operands_spec(&self) -> Option<Seq<u8>>
        decreases self, 1int,
    {
        match self {
            Instruction::Block(t, body) | Instruction::Loop(t, body) | Instruction::If(
                t,
                body,
            ) => match Instruction::seq_spec(*body, 0) {
                Some(b) => Some(t.wasm_spec() + b + seq![0x0Bu8]),
                None => None,
            },
            Instruction::IfElse(t, thn, els) => match (
                Instruction::seq_spec(*thn, 0),
                Instruction::seq_spec(*els, 0),
            ) {
                (Some(a), Some(b)) => Some(t.wasm_spec() + a + seq![0x05u8] + b + seq![0x0Bu8]),
                _ => None,
            },
            Instruction::Branch(x) | Instruction::BranchIf(x) | Instruction::Call(x)
                | Instruction::LocalGet(x) | Instruction::LocalSet(x) | Instruction::LocalTee(x)
                | Instruction::GlobalGet(x) | Instruction::GlobalSet(x) => Some(uleb(*x as nat)),
            Instruction::CallIndirect(x) => Some(uleb(*x as nat) + seq![0x00u8]),
            Instruction::I32Load(m) | Instruction::I64Load(m) | Instruction::F32Load(m)
                | Instruction::F64Load(m) | Instruction::I32Load8S(m) | Instruction::I32Load8U(m)
                | Instruction::I32Load16S(m) | Instruction::I32Load16U(m)
                | Instruction::I64Load8S(m) | Instruction::I64Load8U(m)
                | Instruction::I64Load16S(m) | Instruction::I64Load16U(m)
                | Instruction::I64Load32S(m) | Instruction::I64Load32U(m)
                | Instruction::I32Store(m) | Instruction::I64Store(m) | Instruction::F32Store(m)
                | Instruction::F64Store(m) | Instruction::I32Store8(m) | Instruction::I32Store16(
                m,
            ) | Instruction::I64Store8(m) | Instruction::I64Store16(m) | Instruction::I64Store32(
                m,
            ) => Some(m.wasm_spec()),
            Instruction::I32Const(x) => Some(sleb(*x as int)),
            Instruction::I64Const(_) | Instruction::F32Const | Instruction::F64Const => None,
            Instruction::Unreachable | Instruction::Nop | Instruction::MemorySize
                | Instruction::MemoryGrow | Instruction::Drop | Instruction::Select
                | Instruction::Return => Some(Seq::empty()),
        }
    }

    /// The full encoding of this instruction: opcode byte, then operands.
    pub open spec fn wasm_opt_spec(&self) -> Option<Seq<u8>>
        decreases self, 2int,
    {
        match self.operands_spec() {
            Some(o) => Some(seq![self.opcode_spec()] + o),
            None => None,
        }
    }

    /// The raw concatenation of the encodings of `v[k..]`.
    pub open spec fn seq_spec(v: Vec<Instruction>, k: int) -> Option<Seq<u8>>
        decreases v, 0int, v.len() - k,
    {
        if k < 0 || k >= v.len() {
            Some(Seq::empty())
        } else {
            match (v[k].wasm_opt_spec(), Instruction::seq_spec(v, k + 1)) {
                (Some(a), Some(b)) => Some(a + b),
                _ => None,
            }
        }
    }

    fn opcode(&self) -> (r: u8)
        ensures
            r == self.opcode_spec(),
    {
        match self {
            Instruction::Unreachable => 0x00,
            Instruction::Nop => 0x01,
            Instruction::Block(_, _) => 0x02,
            Instruction::Loop(_, _) => 0x03,
            Instruction::If(_, _) => 0x04,
            Instruction::IfElse(_, _, _) => 0x04,
            Instruction::Branch(_) => 0x0C,
            Instruction::BranchIf(_) => 0x0D,
            Instruction::Return => 0x0F,
            Instruction::Call(_) => 0x10,
            Instruction::CallIndirect(_) => 0x11,
            Instruction::Drop => 0x1A,
            Instruction::Select => 0x1B,
            Instruction::LocalGet(_) => 0x20,
            Instruction::LocalSet(_) => 0x21,
            Instruction::LocalTee(_) => 0x22,
            Instruction::GlobalGet(_) => 0x23,
            Instruction::GlobalSet(_) => 0x24,
            Instruction::I32Load(_) => 0x28,
            Instruction::I64Load(_) => 0x29,
            Instruction::F32Load(_) => 0x2A,
            Instruction::F64Load(_) => 0x2B,
            Instruction::I32Load8S(_) => 0x2C,
            Instruction::I32Load8U(_) => 0x2D,
            Instruction::I32Load16S(_) => 0x2E,
            Instruction::I32Load16U(_) => 0x2F,
            Instruction::I64Load8S(_) => 0x30,
            Instruction::I64Load8U(_) => 0x31,
            Instruction::I64Load16S(_) => 0x32,
            Instruction::I64Load16U(_) => 0x33,
            Instruction::I64Load32S(_) => 0x34,
            Instruction::I64Load32U(_) => 0x35,
            Instruction::I32Store(_) => 0x36,
            Instruction::I64Store(_) => 0x37,
            Instruction::F32Store(_) => 0x38,
            Instruction::F64Store(_) => 0x39,
            Instruction::I32Store8(_) => 0x3A,
            Instruction::I32Store16(_) => 0x3B,
            Instruction::I64Store8(_) => 0x3C,
            Instruction::I64Store16(_) => 0x3D,
            Instruction::I64Store32(_) => 0x3E,
            Instruction::MemorySize => 0x3F,
            Instruction::MemoryGrow => 0x40,
            Instruction::I32Const(_) => 0x41,
            Instruction::I64Const(_) => 0x42,
            Instruction::F32Const => 0x43,
            Instruction::F64Const => 0x44,
        }
    }

    fn operands(&self) -> (r: Result<Vec<u8>, CodeGenError>)
        ensures
            match r {
                Ok(v) => self.operands_spec() == Some(v@),
                Err(e) => self.operands_spec() is None && e.reason@
                    == "unimplemented instruction"@,
            },
        decreases self, 1int,
    {
        match self {
            Instruction::Block(t, body) | Instruction::Loop(t, body) | Instruction::If(
                t,
                body,
            ) => {
                let mut out = t.generate_wasm();
                let mut b = generate_instr_seq(body)?;
                out.append(&mut b);
                out.push(0x0B);
                proof {
                    assert(out@ =~= t.wasm_spec() + Instruction::seq_spec(*body, 0)->Some_0
                        + seq![0x0Bu8]);
                }
                Ok(out)
            },
            Instruction::IfElse(t, thn, els) => {
                let mut out = t.generate_wasm();
                let mut a = generate_instr_seq(thn)?;
                out.append(&mut a);
                out.push(0x05);
                let mut b = generate_instr_seq(els)?;
                out.append(&mut b);
                out.push(0x0B);
                proof {
                    assert(out@ =~= t.wasm_spec() + Instruction::seq_spec(*thn, 0)->Some_0
                        + seq![0x05u8] + Instruction::seq_spec(*els, 0)->Some_0 + seq![0x0Bu8]);
                }
                Ok(out)
            },
            Instruction::Branch(x) | Instruction::BranchIf(x) | Instruction::Call(x)
                | Instruction::LocalGet(x) | Instruction::LocalSet(x) | Instruction::LocalTee(x)
                | Instruction::GlobalGet(x) | Instruction::GlobalSet(x) => Ok(encode_u32(*x)),
            Instruction::CallIndirect(x) => {
                let mut out = encode_u32(*x);
                out.push(0x00);
                proof {
                    assert(out@ =~= uleb(*x as nat) + seq![0x00u8]);
                }
                Ok(out)
            },
            Instruction::I32Load(m) | Instruction::I64Load(m) | Instruction::F32Load(m)
                | Instruction::F64Load(m) | Instruction::I32Load8S(m) | Instruction::I32Load8U(m)
                | Instruction::I32Load16S(m) | Instruction::I32Load16U(m)
                | Instruction::I64Load8S(m) | Instruction::I64Load8U(m)
                | Instruction::I64Load16S(m) | Instruction::I64Load16U(m)
                | Instruction::I64Load32S(m) | Instruction::I64Load32U(m)
                | Instruction::I32Store(m) | Instruction::I64Store(m) | Instruction::F32Store(m)
                | Instruction::F64Store(m) | Instruction::I32Store8(m) | Instruction::I32Store16(
                m,
            ) | Instruction::I64Store8(m) | Instruction::I64Store16(m) | Instruction::I64Store32(
                m,
            ) => Ok(m.generate_wasm()),
            Instruction::I32Const(x) => Ok(crate::wasm::base::encode_i32(*x)),
            Instruction::I64Const(_) | Instruction::F32Const | Instruction::F64Const => Err(
                CodeGenError::new(String::from_str("unimplemented instruction")),
            ),
            Instruction::Unreachable | Instruction::Nop | Instruction::MemorySize
                | Instruction::MemoryGrow | Instruction::Drop | Instruction::Select
                | Instruction::Return => Ok(Vec::new()),
        }
    }

    /// Encode this instruction, or report the use of an unimplemented one.
    pub fn generate_wasm(&self) -> (r: Result<Vec<u8>, CodeGenError>)
        ensures
            match r {
                Ok(v) => self.wasm_opt_spec() == Some(v@),
                Err(e) => self.wasm_opt_spec() is None && e.reason@
                    == "unimplemented instruction"@,
            },
        decreases self, 2int,
    {
        let mut out: Vec<u8> = Vec::new();
        out.push(self.opcode());
        let mut ops = self.operands()?;
        out.append(&mut ops);
        proof {
            assert(out@ =~= seq![self.opcode_spec()] + self.operands_spec()->Some_0);
        }
        Ok(out)
    }
}

/// Encode a sequence of instructions back to back, with no framing.
pub fn generate_instr_seq(is: &Vec<Instruction>) -> (r: Result<Vec<u8>, CodeGenError>)
    ensures
        match r {
            Ok(v) => Instruction::seq_spec(*is, 0) == Some(v@),
            Err(e) => Instruction::seq_spec(*is, 0) is None && e.reason@
                == "unimplemented instruction"@,
        },
    decreases *is, 0int,
{
    let mut out: Vec<u8> = Vec::new();
    let mut k: usize = 0;
    while k < is.len()
        invariant
            0 <= k <= is@.len(),
            match Instruction::seq_spec(*is, k as int) {
                Some(rest) => Instruction::seq_spec(*is, 0) == Some(out@ + rest),
                None => Instruction::seq_spec(*is, 0) is None,
            },
        decreases is@.len() - k,
    {
        let piece = is[k].generate_wasm();
        match piece {
            Ok(mut v) => {
                proof {
                    if Instruction::seq_spec(*is, k + 1) is Some {
                        assert(Instruction::seq_spec(*is, k as int) == Some(
                            v@ + Instruction::seq_spec(*is, k + 1)->Some_0,
                        ));
                        assert((out@ + (v@ + Instruction::seq_spec(*is, k + 1)->Some_0)) =~= (out@
                            + v@) + Instruction::seq_spec(*is, k + 1)->Some_0);
                    }
                }
                out.append(&mut v);
                k = k + 1;
            },
            Err(e) => {
                return Err(e);
            },
        }
    }
    proof {
        assert(out@ + Seq::<u8>::empty() =~= out@);
    }
    Ok(out)
}

/// A constant or function-body expression: instructions terminated by `end`.
pub struct Expr {
    pub instructions: Vec<Instruction>,
}

impl Expr {
    /// The encoding of this expression: its instructions, then `0x0B`.
    pub open spec fn wasm_opt_spec(&self) -> Option<Seq<u8>> {
        match Instruction::seq_spec(self.instructions, 0) {
            Some(b) => Some(b + seq![0x0Bu8]),
            None => None,
        }
    }

    pub fn generate_wasm(&self) -> (r: Result<Vec<u8>, CodeGenError>)
        ensures
            match r {
                Ok(v) => self.wasm_opt_spec() == Some(v@),
                Err(e) => self.wasm_opt_spec() is None && e.reason@
                    == "unimplemented instruction"@,
            },
    {
        let mut out = generate_instr_seq(&self.instructions)?;
        out.push(0x0B);
        proof {
            assert(out@ =~= Instruction::seq_spec(self.instructions, 0)->Some_0 + seq![0x0Bu8]);
        }
        Ok(out)
    }
}

/// A sequence of individually encodable instructions encodes as a whole.
pub proof fn lemma_seq_spec_all(v: Vec<Instruction>, k: int)
    requires
        0 <= k <= v.len(),
        forall|j: int| k <= j < v.len() ==> (#[trigger] v[j]).wasm_opt_spec() is Some,
    ensures
        Instruction::seq_spec(v, k) is Some,
    decreases v.len() - k,
{
    if k < v.len() {
        lemma_seq_spec_all(v, k + 1);
    }
}

/// The encoding of an instruction vector depends only on its contents.
pub proof fn lemma_seq_spec_view(v1: Vec<Instruction>, v2: Vec<Instruction>, k: int)
    requires
        v1@ == v2@,
    ensures
        Instruction::seq_spec(v1, k) == Instruction::seq_spec(v2, k),
    decreases v1.len() - k,
{
    if 0 <= k < v1.len() {
        lemma_seq_spec_view(v1, v2, k + 1);
        assert(v1[k] == v2[k]);
    }
}

} // verus!
