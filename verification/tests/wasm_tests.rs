use tarn::wasm::base::{generate_wasm_seq, generate_wasm_vec, Limits, ValueType, WasmCodeGen};
use tarn::wasm::instruction::{BlockType, Expr, Instruction, MemArg};
use tarn::wasm::module::Module;
use tarn::wasm::sections::code_section::{Code, CodeSection, Func, Local};
use tarn::wasm::sections::data_section::{Data, DataSection};
use tarn::wasm::sections::export_section::{Export, ExportDesc, ExportSection};
use tarn::wasm::sections::function_section::FunctionSection;
use tarn::wasm::sections::import_section::{Import, ImportDesc, ImportSection};
use tarn::wasm::sections::memory_section::{Memory, MemorySection};
use tarn::wasm::sections::type_section::{FuncType, TypeSection};
use tarn::leb::decode_uleb_from;

#[test]
fn value_type_bytes() {
    assert_eq!(ValueType::I32.to_byte(), 0x7F);
    assert_eq!(ValueType::I64.to_byte(), 0x7E);
    assert_eq!(ValueType::F32.to_byte(), 0x7D);
    assert_eq!(ValueType::F64.to_byte(), 0x7C);
}

#[test]
fn export_desc_bytes() {
    assert_eq!(ExportDesc::Func(0).type_byte(), 0);
    assert_eq!(ExportDesc::Table(0).type_byte(), 1);
    assert_eq!(ExportDesc::Mem(0).type_byte(), 2);
    assert_eq!(ExportDesc::Global(0).type_byte(), 3);
    assert_eq!(ExportDesc::Global(7).generate_wasm(), vec![3, 7]);
}

#[test]
fn limits_encoding() {
    assert_eq!(Limits { min: 1, max: None }.generate_wasm(), vec![0x00, 0x01]);
    assert_eq!(Limits { min: 1, max: Some(5) }.generate_wasm(), vec![0x01, 0x01, 0x05]);
}

#[test]
fn instruction_encodings() {
    assert_eq!(Instruction::Nop.generate_wasm().unwrap(), vec![0x01]);
    assert_eq!(Instruction::I32Const(42).generate_wasm().unwrap(), vec![0x41, 0x2A]);
    assert_eq!(Instruction::I32Const(-1).generate_wasm().unwrap(), vec![0x41, 0x7F]);
    assert_eq!(Instruction::Call(3).generate_wasm().unwrap(), vec![0x10, 0x03]);
    assert_eq!(Instruction::LocalGet(1).generate_wasm().unwrap(), vec![0x20, 0x01]);
    assert_eq!(
        Instruction::I32Store(MemArg { align: 2, offset: 0 }).generate_wasm().unwrap(),
        vec![0x36, 0x02, 0x00]
    );
    assert_eq!(Instruction::CallIndirect(4).generate_wasm().unwrap(), vec![0x11, 0x04, 0x00]);
    assert_eq!(Instruction::MemorySize.generate_wasm().unwrap(), vec![0x3F]);
}

#[test]
fn structured_instruction_encodings() {
    let block = Instruction::Block(BlockType::Empty, vec![Instruction::Nop]);
    assert_eq!(block.generate_wasm().unwrap(), vec![0x02, 0x40, 0x01, 0x0B]);
    let ifelse = Instruction::IfElse(
        BlockType::ValueType(ValueType::I32),
        vec![Instruction::I32Const(1)],
        vec![Instruction::I32Const(2)],
    );
    assert_eq!(
        ifelse.generate_wasm().unwrap(),
        vec![0x04, 0x7F, 0x41, 0x01, 0x05, 0x41, 0x02, 0x0B]
    );
}

#[test]
fn unimplemented_instructions_error() {
    assert!(Instruction::I64Const(1).generate_wasm().is_err());
    assert!(Instruction::F32Const.generate_wasm().is_err());
    assert!(Instruction::F64Const.generate_wasm().is_err());
    let e = Instruction::I64Const(1).generate_wasm().unwrap_err();
    assert_eq!(e.reason, "unimplemented instruction");
    // An unimplemented instruction deep inside a body poisons the whole
    // expression.
    let expr = Expr { instructions: vec![Instruction::Nop, Instruction::F64Const] };
    assert!(expr.generate_wasm().is_err());
}

#[test]
fn expr_terminates_with_end() {
    let expr = Expr { instructions: vec![Instruction::I32Const(42)] };
    assert_eq!(expr.generate_wasm().unwrap(), vec![0x41, 0x2A, 0x0B]);
}

#[test]
fn vector_framing_length_prefix() {
    let items: Vec<u32> = vec![7, 8, 9];
    let bytes = generate_wasm_vec(&items);
    let (count, after) = decode_uleb_from(&bytes, 0).unwrap();
    assert_eq!(count, 3);
    assert_eq!(after, 1);
    assert_eq!(bytes, vec![3, 7, 8, 9]);
    let seq = generate_wasm_seq(&items);
    assert_eq!(seq, vec![7, 8, 9]);
}

#[test]
fn section_framing_length_matches_remaining_bytes() {
    let section = TypeSection {
        func_types: vec![FuncType { parameters: vec![ValueType::I32], results: vec![] }],
    };
    let bytes = section.generate_wasm();
    assert_eq!(bytes[0], 1);
    let (len, after) = decode_uleb_from(&bytes, 1).unwrap();
    assert_eq!(len as usize, bytes.len() - after);
    assert_eq!(bytes, vec![0x01, 0x05, 0x01, 0x60, 0x01, 0x7F, 0x00]);
}

#[test]
fn func_type_encoding() {
    let ft = FuncType {
        parameters: vec![ValueType::I32, ValueType::I32],
        results: vec![ValueType::I32],
    };
    assert_eq!(ft.generate_wasm(), vec![0x60, 0x02, 0x7F, 0x7F, 0x01, 0x7F]);
}

#[test]
fn import_and_export_encoding() {
    let import = Import {
        module: b"env".to_vec(),
        name: b"f".to_vec(),
        desc: ImportDesc::Func(2),
    };
    assert_eq!(
        import.generate_wasm(),
        vec![0x03, b'e', b'n', b'v', 0x01, b'f', 0x00, 0x02]
    );
    let export = Export { name: b"m".to_vec(), desc: ExportDesc::Mem(0) };
    assert_eq!(export.generate_wasm(), vec![0x01, b'm', 0x02, 0x00]);
}

#[test]
fn code_entry_encoding() {
    let code = Code {
        func: Func {
            locals: vec![Local { n: 1, value_type: ValueType::I32 }],
            expr: Expr { instructions: vec![Instruction::I32Const(7)] },
        },
    };
    // locals vec: 01 01 7F ; expr: 41 07 0B ; length prefix 06.
    assert_eq!(code.generate_wasm().unwrap(), vec![0x06, 0x01, 0x01, 0x7F, 0x41, 0x07, 0x0B]);
}

#[test]
fn data_segment_encoding() {
    let data = Data {
        memory: 0,
        expr: Expr { instructions: vec![Instruction::I32Const(8)] },
        init: vec![0x41, 0x42],
    };
    assert_eq!(data.generate_wasm().unwrap(), vec![0x00, 0x41, 0x08, 0x0B, 0x02, 0x41, 0x42]);
    let section = DataSection { data: vec![data] };
    let bytes = section.generate_wasm().unwrap();
    assert_eq!(bytes[0], 11);
}

#[test]
fn module_preamble_and_section_order() {
    let module = Module {
        type_sections: vec![TypeSection { func_types: vec![] }],
        import_sections: vec![ImportSection { imports: vec![] }],
        function_sections: vec![FunctionSection { types: vec![] }],
        memory_sections: vec![MemorySection {
            memories: vec![Memory { memory_type: Limits { min: 1, max: None } }],
        }],
        export_sections: vec![ExportSection { exports: vec![] }],
        code_sections: vec![CodeSection { codes: vec![] }],
        data_sections: vec![],
    };
    let bytes = module.generate_wasm().unwrap();
    assert_eq!(&bytes[0..8], &[0x00, 0x61, 0x73, 0x6D, 0x01, 0x00, 0x00, 0x00]);
    assert_eq!(
        bytes,
        vec![
            0x00, 0x61, 0x73, 0x6D, 0x01, 0x00, 0x00, 0x00, // preamble
            0x01, 0x01, 0x00, // empty type section
            0x02, 0x01, 0x00, // empty import section
            0x03, 0x01, 0x00, // empty function section
            0x05, 0x03, 0x01, 0x00, 0x01, // one memory, min 1
            0x07, 0x01, 0x00, // empty export section
            0x0A, 0x01, 0x00, // empty code section
        ]
    );
}
