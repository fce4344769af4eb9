//! An ahead-of-time compiler from the small imperative language Tarn to a
//! WebAssembly binary module.
//!
//! The pipeline runs `text -> parse tree -> typed IR -> Wasm module -> bytes`:
//! a recursive-descent parser, a semanticizer that resolves function names to
//! dense indices, a code generator that interns function signatures and lowers
//! the IR to instruction streams, and a byte-exact Wasm binary encoder.
pub mod codegen;
pub mod leb;
pub mod parser;
pub mod semantic_tree;
pub mod wasm;

use vstd::prelude::*;

use crate::codegen::{
    code_matches, func_type_matches, import_matches, module_body_matches_plan, plan_of, CodeGen,
    CodeGenError, ModulePlan,
};
use crate::wasm::base::{lemma_wasm_spec_seq_pointwise, WasmCodeGen};
use crate::wasm::instruction::lemma_seq_spec_view;
use crate::wasm::module::lemma_code_group_pointwise;
use crate::wasm::sections::code_section::lemma_codes_spec_pointwise;
use crate::parser::{ParseError, sp_program};
use crate::semantic_tree::semanticize::{sem_of, Semanticize, SemanticizeError};
use crate::semantic_tree::NodeV;
use crate::wasm::module::Module;
use crate::wasm::sections::export_section::{Export, ExportDesc, ExportSection};

verus! {

/// An error from any stage of the compilation pipeline.
#[derive(Debug)]
pub enum CompileError {
    Parse(ParseError),
    Semanticize(SemanticizeError),
    CodeGen(CodeGenError),
}

/// The name every compiled module exports its entry point under.
pub open spec fn start_name() -> Seq<u8> {
    seq![95u8, 115u8, 116u8, 97u8, 114u8, 116u8]
}

/// The number of imports among the declarations of a root.
pub open spec fn import_count_pre(ds: Seq<NodeV>, k: int) -> nat
    decreases k,
{
    if k <= 0 || k > ds.len() {
        0
    } else {
        import_count_pre(ds, k - 1) + (if ds[k - 1]->FunctionDeclaration_2 is Import {
            1nat
        } else {
            0nat
        })
    }
}

/// A compiled module: the planned sections, plus one export section that
/// re-exports `_start` at the index just past the imports.
pub open spec fn compiled_module_ok(m: Module, p: ModulePlan, ic: nat) -> bool {
    &&& module_body_matches_plan(m, p)
    &&& m.export_sections@.len() == 1
    &&& m.export_sections@[0].exports@.len() == 1
    &&& m.export_sections@[0].exports@[0].name@ == start_name()
    &&& m.export_sections@[0].exports@[0].desc == ExportDesc::Func(ic as u32)
}

/// Compile a Tarn source text to a Wasm binary module.
///
/// The pipeline parses the whole input, lowers the parse tree to IR,
/// assembles the module, appends an export of the function just past the
/// imports under the name `_start`, and emits the bytes. Each stage's error
/// is reported as it arises.
#[verifier::rlimit(80)]
pub fn compile(source: &[u8]) -> (r: Result<Vec<u8>, CompileError>)
    ensures
        ({
            let (pv, n) = sp_program(source@, 0);
            match r {
                Ok(bytes) => {
                    &&& n == source@.len()
                    &&& sem_of(pv) is Ok
                    &&& plan_of(sem_of(pv)->Ok_0) is Ok
                    &&& exists|m: Module|
                        {
                            &&& #[trigger] m.wasm_opt_spec() == Some(bytes@)
                            &&& compiled_module_ok(
                                m,
                                plan_of(sem_of(pv)->Ok_0)->Ok_0,
                                import_count_pre(
                                    sem_of(pv)->Ok_0->Root_0,
                                    sem_of(pv)->Ok_0->Root_0.len() as int,
                                ),
                            )
                        }
                },
                Err(CompileError::Parse(e)) => n != source@.len() && e.offset == n,
                Err(CompileError::Semanticize(e)) => n == source@.len() && sem_of(pv) is Err
                    && sem_of(pv)->Err_0 == e.reason@,
                Err(CompileError::CodeGen(e)) => {
                    &&& n == source@.len()
                    &&& sem_of(pv) is Ok
                    &&& plan_of(sem_of(pv)->Ok_0) is Err
                    &&& plan_of(sem_of(pv)->Ok_0)->Err_0 == e.reason@
                },
            }
        }),
{
    let parsed = match crate::parser::program(source) {
        Ok(p) => p,
        Err(e) => {
            return Err(CompileError::Parse(e));
        },
    };
    let sem = match parsed.to_semantic_tree() {
        Ok(s) => s,
        Err(e) => {
            return Err(CompileError::Semanticize(e));
        },
    };
    let mut module = match sem.generate_module() {
        Ok(m) => m,
        Err(e) => {
            return Err(CompileError::CodeGen(e));
        },
    };
    let ic = count_imports(&sem);
    let mut name: Vec<u8> = Vec::new();
    name.push(95);
    name.push(115);
    name.push(116);
    name.push(97);
    name.push(114);
    name.push(116);
    proof {
        assert(name@ =~= start_name());
    }
    let mut exports: Vec<Export> = Vec::new();
    exports.push(Export { name, desc: ExportDesc::Func(ic) });
    let ghost m0 = module;
    module.export_sections.push(ExportSection { exports });
    proof {
        assert(module.export_sections@ =~= m0.export_sections@.push(
            module.export_sections@[0],
        ));
    }
    match module.generate_wasm() {
        Ok(bytes) => {
            proof {
                let (pv, n) = sp_program(source@, 0);
                let p = plan_of(sem_of(pv)->Ok_0)->Ok_0;
                let ic_spec = import_count_pre(
                    sem_of(pv)->Ok_0->Root_0,
                    sem_of(pv)->Ok_0->Root_0.len() as int,
                );
                assert(module.wasm_opt_spec() == Some(bytes@) && compiled_module_ok(
                    module,
                    p,
                    ic_spec,
                ));
            }
            Ok(bytes)
        },
        Err(e) => {
            proof {
                let (pv, n) = sp_program(source@, 0);
                let sem_v = sem_of(pv)->Ok_0;
                crate::codegen::lemma_module_encodable(
                    module,
                    plan_of(sem_v)->Ok_0,
                    sem_v->Root_0,
                );
                assert(false);
            }
            Err(CompileError::CodeGen(e))
        },
    }
}

/// Count the imports among the declarations of a lowered root.
#[verifier::loop_isolation(false)]
fn count_imports(root: &crate::semantic_tree::Node) -> (r: u32)
    requires
        plan_of(root@) is Ok,
    ensures
        root@ is Root && r as nat == import_count_pre(root@->Root_0, root@->Root_0.len() as int),
{
    match root {
        crate::semantic_tree::Node::Root(children) => {
            let ghost dsv = crate::semantic_tree::node_views(*children, 0);
            proof {
                crate::semantic_tree::lemma_node_views(*children, 0);
                crate::codegen::lemma_pass1_ok(dsv, dsv.len() as int);
            }
            let mut count: u32 = 0;
            let mut k: usize = 0;
            while k < children.len()
                invariant
                    0 <= k <= children@.len(),
                    children@.len() <= u32::MAX as nat,
                    dsv == crate::semantic_tree::node_views(*children, 0),
                    dsv.len() == children@.len(),
                    forall|j: int|
                        0 <= j < children@.len() ==> #[trigger] dsv[j]
                            == crate::semantic_tree::node_view(children@[j]),
                    count as nat == import_count_pre(dsv, k as int),
                    count as int <= k,
                decreases children@.len() - k,
            {
                match &children[k] {
                    crate::semantic_tree::Node::FunctionDeclaration(_, _, def) => {
                        proof {
                            assert(dsv[k as int]->FunctionDeclaration_2
                                == crate::semantic_tree::fndef_view(*def));
                        }
                        match def {
                            crate::semantic_tree::FunctionDefinition::Import(_, _) => {
                                count = count + 1;
                            },
                            crate::semantic_tree::FunctionDefinition::Implementation(_, _) => {},
                        }
                    },
                    _ => {
                        proof {
                            assert(false);
                        }
                    },
                }
                k = k + 1;
            }
            count
        },
        _ => {
            proof {
                assert(false);
            }
            0
        },
    }
}

/// Byte determinism: two modules that match the same plan and export the
/// entry point the same way encode to exactly the same bytes. Together with
/// the contract of `compile`, this pins the compiler's output byte for byte.
pub proof fn lemma_compiled_bytes_unique(m1: Module, m2: Module, p: ModulePlan, ic: nat)
    requires
        compiled_module_ok(m1, p, ic),
        compiled_module_ok(m2, p, ic),
    ensures
        m1.wasm_opt_spec() == m2.wasm_opt_spec(),
{
    assert forall|i: int|
        0 <= i < m1.type_sections@.len() implies (#[trigger] m1.type_sections@[i]).wasm_spec()
        == (#[trigger] m2.type_sections@[i]).wasm_spec() by {
        let f1 = m1.type_sections@[0].func_types;
        let f2 = m2.type_sections@[0].func_types;
        assert forall|j: int|
            0 <= j < f1@.len() implies (#[trigger] f1@[j]).wasm_spec() == (
            #[trigger] f2@[j]).wasm_spec() by {
            assert(func_type_matches(m1.type_sections@[0].func_types@[j], p.sigs[j]));
            assert(func_type_matches(m2.type_sections@[0].func_types@[j], p.sigs[j]));
        }
        lemma_wasm_spec_seq_pointwise(f1@, f2@);
    }
    lemma_wasm_spec_seq_pointwise(m1.type_sections@, m2.type_sections@);
    assert forall|i: int|
        0 <= i < m1.import_sections@.len() implies (#[trigger] m1.import_sections@[i]).wasm_spec()
        == (#[trigger] m2.import_sections@[i]).wasm_spec() by {
        let i1 = m1.import_sections@[0].imports;
        let i2 = m2.import_sections@[0].imports;
        assert forall|j: int|
            0 <= j < i1@.len() implies (#[trigger] i1@[j]).wasm_spec() == (
            #[trigger] i2@[j]).wasm_spec() by {
            assert(import_matches(m1.import_sections@[0].imports@[j], p.imports[j]));
            assert(import_matches(m2.import_sections@[0].imports@[j], p.imports[j]));
        }
        lemma_wasm_spec_seq_pointwise(i1@, i2@);
    }
    lemma_wasm_spec_seq_pointwise(m1.import_sections@, m2.import_sections@);
    assert forall|i: int|
        0 <= i < m1.function_sections@.len() implies (
        #[trigger] m1.function_sections@[i]).wasm_spec() == (
        #[trigger] m2.function_sections@[i]).wasm_spec() by {
        assert(m1.function_sections@[0].types@ == m2.function_sections@[0].types@);
    }
    lemma_wasm_spec_seq_pointwise(m1.function_sections@, m2.function_sections@);
    assert forall|i: int|
        0 <= i < m1.memory_sections@.len() implies (#[trigger] m1.memory_sections@[i]).wasm_spec()
        == (#[trigger] m2.memory_sections@[i]).wasm_spec() by {
        let mem1 = m1.memory_sections@[0].memories;
        let mem2 = m2.memory_sections@[0].memories;
        assert forall|j: int|
            0 <= j < mem1@.len() implies (#[trigger] mem1@[j]).wasm_spec() == (
            #[trigger] mem2@[j]).wasm_spec() by {
            assert(mem1@[j].memory_type.min == mem2@[j].memory_type.min);
        }
        lemma_wasm_spec_seq_pointwise(mem1@, mem2@);
    }
    lemma_wasm_spec_seq_pointwise(m1.memory_sections@, m2.memory_sections@);
    assert forall|i: int|
        0 <= i < m1.export_sections@.len() implies (#[trigger] m1.export_sections@[i]).wasm_spec()
        == (#[trigger] m2.export_sections@[i]).wasm_spec() by {
        let e1 = m1.export_sections@[0].exports;
        let e2 = m2.export_sections@[0].exports;
        assert forall|j: int|
            0 <= j < e1@.len() implies (#[trigger] e1@[j]).wasm_spec() == (
            #[trigger] e2@[j]).wasm_spec() by {
            assert(e1@[j].name@ == e2@[j].name@);
        }
        lemma_wasm_spec_seq_pointwise(e1@, e2@);
    }
    lemma_wasm_spec_seq_pointwise(m1.export_sections@, m2.export_sections@);
    let c1 = m1.code_sections@[0].codes;
    let c2 = m2.code_sections@[0].codes;
    assert forall|j: int|
        0 <= j < c1@.len() implies (#[trigger] c1[j]).wasm_opt_spec() == (
        #[trigger] c2[j]).wasm_opt_spec() by {
        assert(code_matches(m1.code_sections@[0].codes@[j], p.codes[j]));
        assert(code_matches(m2.code_sections@[0].codes@[j], p.codes[j]));
        assert(c1[j].func.locals@ =~= c2[j].func.locals@);
        lemma_seq_spec_view(c1[j].func.expr.instructions, c2[j].func.expr.instructions, 0);
    }
    lemma_codes_spec_pointwise(c1, c2, 0);
    assert forall|i: int|
        0 <= i < m1.code_sections@.len() implies (#[trigger] m1.code_sections@[i]).wasm_opt_spec()
        == (#[trigger] m2.code_sections@[i]).wasm_opt_spec() by {
        assert(m1.code_sections@[0].codes@.len() == m2.code_sections@[0].codes@.len());
    }
    lemma_code_group_pointwise(m1.code_sections, m2.code_sections, 0);
}

} // verus!
