use tarn::codegen::CodeGen;
use tarn::compile;
use tarn::parser;
use tarn::semantic_tree::semanticize::Semanticize;
use tarn::semantic_tree::{FunctionDefinition, Node, Type};
use tarn::wasm::{FuncId, LocalId};
use tarn::CompileError;

const PREAMBLE: [u8; 8] = [0x00, 0x61, 0x73, 0x6D, 0x01, 0x00, 0x00, 0x00];

fn expect_sem_err(
    r: Result<tarn::semantic_tree::Node, tarn::semantic_tree::semanticize::SemanticizeError>,
) -> tarn::semantic_tree::semanticize::SemanticizeError {
    match r {
        Err(e) => e,
        Ok(_) => panic!("expected the semanticizer to fail"),
    }
}

fn expect_module_err(
    r: Result<tarn::wasm::module::Module, tarn::codegen::CodeGenError>,
) -> tarn::codegen::CodeGenError {
    match r {
        Err(e) => e,
        Ok(_) => panic!("expected module generation to fail"),
    }
}

#[test]
fn parses_single_function() {
    let tree = parser::program(b"fn f() -> Int 42").unwrap();
    match tree {
        parser::Node::Program(items) => {
            assert_eq!(items.len(), 1);
            match &items[0] {
                parser::Node::FunctionImplementation { name, params, body, .. } => {
                    assert_eq!(name, b"f");
                    assert_eq!(params.len(), 0);
                    match &**body {
                        parser::Node::IntegerLiteral(v) => assert_eq!(*v, 42),
                        _ => panic!("body is not an integer literal"),
                    }
                },
                _ => panic!("not a function implementation"),
            }
        },
        _ => panic!("not a program"),
    }
}

#[test]
fn parses_terminated_block() {
    let (node, end) = parser::expr(b"{ 1; 2; }", 0).unwrap();
    assert_eq!(end, 9);
    match node {
        parser::Node::Block(items, terminated) => {
            assert_eq!(items.len(), 2);
            assert!(terminated);
        },
        _ => panic!("not a block"),
    }
}

#[test]
fn parses_unterminated_block_flag() {
    let (node, _) = parser::expr(b"{ 1; 2 }", 0).unwrap();
    match node {
        parser::Node::Block(items, terminated) => {
            assert_eq!(items.len(), 2);
            assert!(!terminated);
        },
        _ => panic!("not a block"),
    }
}

#[test]
fn rejects_reserved_identifier_prefix() {
    // `fnord` starts with the reserved word `fn`, so it cannot be a name.
    assert!(parser::program(b"fn fnord() -> Int 1").is_err());
}

#[test]
fn reports_parse_offset() {
    let e = parser::program(b"fn f() -> Int 1 @").unwrap_err();
    assert_eq!(e.offset, 16);
}

#[test]
fn parses_negative_and_rejects_overflow() {
    let (node, _) = parser::expr(b"-9223372036854775808", 0).unwrap();
    match node {
        parser::Node::IntegerLiteral(v) => assert_eq!(v, i64::MIN),
        _ => panic!("not an integer"),
    }
    // One past i64::MAX cannot be represented.
    assert!(parser::expr(b"9223372036854775808", 0).is_none());
}

#[test]
fn semanticize_rejects_duplicate_names() {
    let tree = parser::program(b"fn a() -> Int 1 fn a() -> Int 2").unwrap();
    let e = expect_sem_err(tree.to_semantic_tree());
    assert_eq!(e.reason, "duplicate function name");
}

#[test]
fn semanticize_rejects_unknown_callee() {
    let tree = parser::program(b"fn f() -> Int g()").unwrap();
    let e = expect_sem_err(tree.to_semantic_tree());
    assert_eq!(e.reason, "no function");
}

#[test]
fn undeclared_function_fails_without_output() {
    match compile(b"fn f() -> Int g()") {
        Err(CompileError::Semanticize(e)) => assert_eq!(e.reason, "no function"),
        _ => panic!("compilation should fail in the semanticizer"),
    }
}

#[test]
fn single_constant_function_bytes() {
    let bytes = compile(b"fn f() -> Int 42").unwrap();
    let expected: Vec<u8> = [
        &PREAMBLE[..],
        &[0x01, 0x05, 0x01, 0x60, 0x00, 0x01, 0x7F],       // type: [] -> [i32]
        &[0x03, 0x02, 0x01, 0x00],                         // function: one entry, type 0
        &[0x05, 0x03, 0x01, 0x00, 0x01],                   // memory: min 1
        &[0x07, 0x0A, 0x01, 0x06, 0x5F, 0x73, 0x74, 0x61, 0x72, 0x74, 0x00, 0x00],
        &[0x0A, 0x06, 0x01, 0x04, 0x00, 0x41, 0x2A, 0x0B], // code: i32.const 42; end
    ]
    .concat();
    assert_eq!(bytes, expected);
}

#[test]
fn equal_signatures_intern_to_one_type() {
    let bytes = compile(b"fn a() -> Int 1  fn b() -> Int 1").unwrap();
    let expected: Vec<u8> = [
        &PREAMBLE[..],
        &[0x01, 0x05, 0x01, 0x60, 0x00, 0x01, 0x7F],  // one type entry, deduplicated
        &[0x03, 0x03, 0x02, 0x00, 0x00],              // two function entries
        &[0x05, 0x03, 0x01, 0x00, 0x01],
        &[0x07, 0x0A, 0x01, 0x06, 0x5F, 0x73, 0x74, 0x61, 0x72, 0x74, 0x00, 0x00],
        &[0x0A, 0x0B, 0x02, 0x04, 0x00, 0x41, 0x01, 0x0B, 0x04, 0x00, 0x41, 0x01, 0x0B],
    ]
    .concat();
    assert_eq!(bytes, expected);
}

#[test]
fn mem_set_lowers_to_store() {
    let bytes = compile(b"fn f() -> Int { set! 0 65 }").unwrap();
    let expected: Vec<u8> = [
        &PREAMBLE[..],
        &[0x01, 0x05, 0x01, 0x60, 0x00, 0x01, 0x7F],
        &[0x03, 0x02, 0x01, 0x00],
        &[0x05, 0x03, 0x01, 0x00, 0x01],
        &[0x07, 0x0A, 0x01, 0x06, 0x5F, 0x73, 0x74, 0x61, 0x72, 0x74, 0x00, 0x00],
        // i32.const 0; i32.const 65; i32.store align=2 offset=0; end
        &[0x0A, 0x0C, 0x01, 0x0A, 0x00, 0x41, 0x00, 0x41, 0xC1, 0x00, 0x36, 0x02, 0x00, 0x0B],
    ]
    .concat();
    assert_eq!(bytes, expected);
}

#[test]
fn wasi_hello_module_bytes() {
    let source = b"
        import fn wasi_unstable fd_write(fd : Int, ptr : Int, len : Int, out : Int) -> Int;

        fn _start() -> Int {
            set! 0 8;
            set! 4 2;
            set! 8 65;
            set! 9 10;
            fd_write(1, 0, 1, 0)
        }
    ";
    let bytes = compile(source).unwrap();
    let expected: Vec<u8> = [
        &PREAMBLE[..],
        // type section: [i32 x4] -> [i32], [] -> [i32]
        &[0x01, 0x0D, 0x02, 0x60, 0x04, 0x7F, 0x7F, 0x7F, 0x7F, 0x01, 0x7F, 0x60, 0x00, 0x01,
            0x7F],
        // import section: wasi_unstable.fd_write of type 0
        &[0x02, 0x1A, 0x01, 0x0D],
        b"wasi_unstable",
        &[0x08],
        b"fd_write",
        &[0x00, 0x00],
        // function section: _start has type 1
        &[0x03, 0x02, 0x01, 0x01],
        &[0x05, 0x03, 0x01, 0x00, 0x01],
        // export section: _start is function index 1 (just past the import)
        &[0x07, 0x0A, 0x01, 0x06, 0x5F, 0x73, 0x74, 0x61, 0x72, 0x74, 0x00, 0x01],
        // code section: the four stores, the call, end
        &[0x0A, 0x2B, 0x01, 0x29, 0x00],
        &[0x41, 0x00, 0x41, 0x08, 0x36, 0x02, 0x00],
        &[0x41, 0x04, 0x41, 0x02, 0x36, 0x02, 0x00],
        &[0x41, 0x08, 0x41, 0xC1, 0x00, 0x36, 0x02, 0x00],
        &[0x41, 0x09, 0x41, 0x0A, 0x36, 0x02, 0x00],
        &[0x41, 0x01, 0x41, 0x00, 0x41, 0x01, 0x41, 0x00, 0x10, 0x00],
        &[0x0B],
    ]
    .concat();
    assert_eq!(bytes, expected);
}

#[test]
fn generate_module_rejects_non_root() {
    let node = Node::IntegerConstant(1);
    let e = expect_module_err(node.generate_module());
    assert_eq!(e.reason, "must generate module on a root node");
}

#[test]
fn generate_module_rejects_non_declaration_children() {
    let node = Node::Root(vec![Node::IntegerConstant(1)]);
    let e = expect_module_err(node.generate_module());
    assert_eq!(e.reason, "root must only contain valid function definitions");
}

#[test]
fn generate_module_rejects_out_of_order_ids() {
    let node = Node::Root(vec![Node::FunctionDeclaration(
        FuncId(1),
        Type::Function(vec![], Some(Box::new(Type::Int))),
        FunctionDefinition::Implementation(vec![], Box::new(Node::IntegerConstant(1))),
    )]);
    let e = expect_module_err(node.generate_module());
    assert_eq!(e.reason, "code and function table key mismatch");
}

#[test]
fn generate_module_rejects_non_function_signature() {
    let node = Node::Root(vec![Node::FunctionDeclaration(
        FuncId(0),
        Type::Int,
        FunctionDefinition::Implementation(vec![], Box::new(Node::IntegerConstant(1))),
    )]);
    let e = expect_module_err(node.generate_module());
    assert_eq!(e.reason, "unable to convert function type");
}

#[test]
fn generate_module_rejects_function_typed_local() {
    let node = Node::Root(vec![Node::FunctionDeclaration(
        FuncId(0),
        Type::Function(vec![], Some(Box::new(Type::Int))),
        FunctionDefinition::Implementation(
            vec![Type::Function(vec![], None)],
            Box::new(Node::IntegerConstant(1)),
        ),
    )]);
    let e = expect_module_err(node.generate_module());
    assert_eq!(e.reason, "unable to convert local type");
}

#[test]
fn to_wasm_type_conversions() {
    assert_eq!(Type::Int.to_wasm_value_type(), Some(tarn::wasm::base::ValueType::I32));
    assert!(Type::Function(vec![], None).to_wasm_value_type().is_none());
    let ft = Type::Function(vec![Type::Int, Type::Int], Some(Box::new(Type::Int)))
        .to_wasm_func_type()
        .unwrap();
    assert_eq!(ft.parameters.len(), 2);
    assert_eq!(ft.results.len(), 1);
    assert!(Type::Int.to_wasm_func_type().is_none());
    // A higher-order parameter has no value-type form.
    assert!(Type::Function(vec![Type::Function(vec![], None)], Some(Box::new(Type::Int)))
        .to_wasm_func_type()
        .is_none());
}

#[test]
fn empty_program_compiles() {
    let bytes = compile(b" ;; ").unwrap();
    assert_eq!(&bytes[0..8], &PREAMBLE[..]);
}

#[test]
fn semanticize_rejects_non_program() {
    let e = expect_sem_err(parser::Node::IntegerLiteral(1).to_semantic_tree());
    assert_eq!(e.reason, "must convert a program");
}

#[test]
fn semanticize_rejects_non_function_top_item() {
    let tree = parser::Node::Program(vec![parser::Node::IntegerLiteral(1)]);
    let e = expect_sem_err(tree.to_semantic_tree());
    assert_eq!(e.reason, "must only have functions in program");
}

#[test]
fn semanticize_rejects_non_identifier_callee() {
    match compile(b"fn f() -> Int 1(2)") {
        Err(CompileError::Semanticize(e)) => assert_eq!(e.reason, "must call an identifier"),
        _ => panic!("calling a literal should fail"),
    }
}

#[test]
fn semanticize_needs_a_table_entry() {
    let node = parser::Node::FunctionImplementation {
        name: b"f".to_vec(),
        params: vec![],
        return_type: Box::new(parser::Node::Identifier(b"Int".to_vec())),
        body: Box::new(parser::Node::IntegerLiteral(1)),
    };
    let table: Vec<(Vec<u8>, u32)> = vec![];
    let e = match node.to_semantic_node(&table) {
        Err(e) => e,
        Ok(_) => panic!("lowering should fail without a table entry"),
    };
    assert_eq!(e.reason, "no internal function mapping");
}

#[test]
fn local_reads_lower_to_local_get() {
    let node = Node::Root(vec![Node::FunctionDeclaration(
        FuncId(0),
        Type::Function(vec![], Some(Box::new(Type::Int))),
        FunctionDefinition::Implementation(
            vec![Type::Int],
            Box::new(Node::Local(LocalId(0))),
        ),
    )]);
    let module = node.generate_module().unwrap_or_else(|e| panic!("{}", e.reason));
    let bytes = module.generate_wasm().unwrap();
    // One local declared with count 1, then local.get 0 and end.
    let code_entry: &[u8] = &[0x06, 0x01, 0x01, 0x7F, 0x20, 0x00, 0x0B];
    assert!(bytes.windows(code_entry.len()).any(|w| w == code_entry));
}

#[test]
fn trailing_semicolon_must_touch_the_item() {
    // A semicolon straight after the last item is consumed as a trailing
    // separator.
    assert!(parser::program(b"fn f() -> Int 1;").is_ok());
    // With whitespace before it, the trailing run of semicolons no longer
    // matches, and the leftover input is a syntax error.
    let e = parser::program(b"fn f() -> Int 1 ;").unwrap_err();
    assert_eq!(e.offset, 16);
}

#[test]
fn integer_constants_wrap_to_32_bits() {
    // 2^32 + 5 truncates to 5 in the emitted constant.
    let bytes = compile(b"fn f() -> Int 4294967301").unwrap();
    let body: &[u8] = &[0x41, 0x05, 0x0B];
    assert!(bytes.windows(body.len()).any(|w| w == body));
}
