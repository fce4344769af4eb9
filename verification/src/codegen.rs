//! Lowering the typed IR to Wasm: type interning, instruction emission, and
//! two-pass module assembly.
use vstd::prelude::*;

use crate::semantic_tree::{
    fndef_view, lemma_node_views, lemma_params_value_types_fail, lemma_ty_views, node_view,
    node_views, ty_view, ty_views, FnDefV, FunctionDefinition, Node, NodeV, TyV, Type,
};
use crate::wasm::base::ValueType;
use crate::wasm::instruction::{lemma_seq_spec_all, Expr, Instruction, MemArg};
use crate::wasm::module::Module;
use crate::wasm::sections::code_section::{Code, CodeSection, Func, Local};
use crate::wasm::sections::function_section::FunctionSection;
use crate::wasm::sections::import_section::{Import, ImportDesc, ImportSection};
use crate::wasm::sections::memory_section::{Memory, MemorySection};
use crate::wasm::sections::type_section::{FuncType, TypeSection};
use crate::wasm::base::Limits;
use crate::wasm::{FuncId, TypeId};

verus! {

/// Where a resolved symbol lives: a local slot or a function index.
#[derive(Clone)]
pub enum SymbolLoc {
    Local(u32),
    Func(u32),
}

/// An error raised while lowering IR to a Wasm module.
#[derive(Debug, Clone)]
pub struct CodeGenError {
    pub reason: String,
}

impl CodeGenError {
    pub fn new(reason: String) -> (r: CodeGenError)
        ensures
            r.reason == reason,
    {
        CodeGenError { reason }
    }
}

/// The contents of the type interner, as a map from type index to the
/// signature interned at that index.
pub uninterp spec fn interned(m: bimap::BiHashMap<TypeId, Type>) -> Map<int, TyV>;

/// Declares `bimap::BiHashMap` so its values can appear in signatures and
/// fields; the map itself stays opaque and is reached only through the
/// trusted calls below.
#[verifier::external_type_specification]
#[verifier::external_body]
#[verifier::reject_recursive_types(L)]
#[verifier::reject_recursive_types(R)]
#[verifier::reject_recursive_types(LS)]
#[verifier::reject_recursive_types(RS)]
pub struct ExBiHashMap<L, R, LS, RS>(bimap::BiHashMap<L, R, LS, RS>);

/// Relies on `bimap::BiHashMap::new`: a fresh map holds no pairs.
#[verifier::external_body]
fn ty_bimap_new() -> (r: bimap::BiHashMap<TypeId, Type>)
    ensures
        forall|j: int| !interned(r).contains_key(j),
{
    bimap::BiHashMap::new()
}

/// Relies on `bimap::BiHashMap::insert`: inserting a pair adds it to the map,
/// and removes no other pair when neither side was present, which the callers
/// guarantee. Equality on `Type` is its derived `Eq`, which is structural and
/// so coincides with equality of views.
#[verifier::external_body]
fn ty_bimap_insert(m: &mut bimap::BiHashMap<TypeId, Type>, l: TypeId, r: Type)
    requires
        !interned(*old(m)).contains_key(l.0 as int),
        forall|j: int| interned(*old(m)).contains_key(j) ==> interned(*old(m))[j] != r@,
    ensures
        interned(*final(m)) == interned(*old(m)).insert(l.0 as int, r@),
{
    m.insert(l, r);
}

/// Relies on `bimap::BiHashMap::get_by_right`: returns the left value paired
/// with the given right value, if any; pairs are unique in each component.
/// Equality on `Type` is its derived, structural `Eq`.
#[verifier::external_body]
fn ty_bimap_get_by_right(m: &bimap::BiHashMap<TypeId, Type>, t: &Type) -> (r: Option<TypeId>)
    ensures
        match r {
            Some(l) => interned(*m).contains_key(l.0 as int) && interned(*m)[l.0 as int] == t@,
            None => forall|j: int| interned(*m).contains_key(j) ==> interned(*m)[j] != t@,
        },
{
    m.get_by_right(t).copied()
}

/// Relies on `bimap::BiHashMap::get_by_left`: returns the right value paired
/// with the given left value, if any. The returned signature is cloned with
/// `Type::clone`, which keeps the view.
#[verifier::external_body]
fn ty_bimap_get_by_left(m: &bimap::BiHashMap<TypeId, Type>, l: TypeId) -> (r: Option<Type>)
    ensures
        match r {
            Some(t) => interned(*m).contains_key(l.0 as int) && interned(*m)[l.0 as int] == t@,
            None => !interned(*m).contains_key(l.0 as int),
        },
{
    m.get_by_left(&l).cloned()
}

/// The global code-generation context: the interned type table and, for each
/// function id, its signature and local types.
pub struct CodeGenGlobalContext {
    pub type_table: bimap::BiHashMap<TypeId, Type>,
    pub function_table: Vec<(Type, Vec<Type>)>,
}

/// A per-function context; scopes chain through `parent` up to the global
/// context.
pub struct CodeGenContext<'a> {
    pub global: &'a CodeGenGlobalContext,
    pub parent: Option<&'a CodeGenContext<'a>>,
    pub locals: Vec<Type>,
}

/// The instructions an IR expression lowers to: a straight-line sequence for
/// constants, locals, blocks, calls and memory stores; declarations and roots
/// have no instruction form.
pub open spec fn instrs_of(n: NodeV) -> Result<Seq<Instruction>, Seq<char>>
    decreases n, 1int,
{
    match n {
        NodeV::IntegerConstant(i) => Ok(seq![Instruction::I32Const(wrap_i32(i as int))]),
        NodeV::Local(l) => Ok(seq![Instruction::LocalGet(l.0)]),
        NodeV::Block(items, _term) => instrs_pre(items, items.len() as int),
        NodeV::Call(f, args) => match instrs_pre(args, args.len() as int) {
            Ok(a) => Ok(a.push(Instruction::Call(f.0))),
            Err(e) => Err(e),
        },
        NodeV::MemSet(addr, value) => match (instrs_of(*addr), instrs_of(*value)) {
            (Ok(a), Ok(v)) => Ok(
                a + v + seq![Instruction::I32Store(MemArg { align: 2, offset: 0 })],
            ),
            (Err(e), _) => Err(e),
            (_, Err(e)) => Err(e),
        },
        NodeV::FunctionDeclaration(_, _, _) => Err(
            "can't generate instructions for a function definition"@,
        ),
        NodeV::Root(_) => Err("can't generate instructions for a root"@),
    }
}

/// The concatenated instructions of the expressions `items[..k]`, or the
/// error of the first expression that has one.
pub open spec fn instrs_pre(items: Seq<NodeV>, k: int) -> Result<Seq<Instruction>, Seq<char>>
    decreases items, 0int, k,
{
    if k <= 0 || k > items.len() {
        Ok(Seq::empty())
    } else {
        match instrs_pre(items, k - 1) {
            Ok(acc) => match instrs_of(items[k - 1]) {
                Ok(a) => Ok(acc + a),
                Err(e) => Err(e),
            },
            Err(e) => Err(e),
        }
    }
}

/// Once a prefix fails, every longer prefix fails with the same error.
pub proof fn lemma_instrs_pre_err(items: Seq<NodeV>, k: int, n: int)
    requires
        0 <= k <= n <= items.len(),
        instrs_pre(items, k) is Err,
    ensures
        instrs_pre(items, n) == instrs_pre(items, k),
    decreases n - k,
{
    if k < n {
        lemma_instrs_pre_err(items, k + 1, n);
    }
}

/// The 32-bit two's-complement wrap of an integer.
pub open spec fn wrap_i32(x: int) -> i32 {
    let m = x % 0x1_0000_0000;
    if m >= 0x8000_0000 {
        (m - 0x1_0000_0000) as i32
    } else {
        m as i32
    }
}

/// Truncate an `i64` constant to 32 bits, two's complement.
pub fn wrap_to_i32(x: i64) -> (r: i32)
    ensures
        r as int == wrap_i32(x as int),
{
    let m: i64 = x % 0x1_0000_0000;
    let m2: i64 = if m < 0 {
        m + 0x1_0000_0000
    } else {
        m
    };
    proof {
        assert(m2 == (x as int) % 0x1_0000_0000);
    }
    if m2 >= 0x8000_0000 {
        (m2 - 0x1_0000_0000) as i32
    } else {
        m2 as i32
    }
}

/// The signature a declaration carries.
pub open spec fn sig_of(d: NodeV) -> TyV {
    d->FunctionDeclaration_1
}

/// The interned signatures of the declarations `ds[..k]`: first-seen order,
/// structural duplicates collapsed.
pub open spec fn intern_pre(ds: Seq<NodeV>, k: int) -> Seq<TyV>
    decreases k,
{
    if k <= 0 || k > ds.len() {
        Seq::empty()
    } else {
        let init = intern_pre(ds, k - 1);
        if init.contains(sig_of(ds[k - 1])) {
            init
        } else {
            init.push(sig_of(ds[k - 1]))
        }
    }
}

/// The interned list is duplicate-free and holds exactly the signatures of
/// the declarations walked so far.
pub proof fn lemma_intern_pre(ds: Seq<NodeV>, k: int)
    requires
        0 <= k <= ds.len(),
    ensures
        intern_pre(ds, k).len() <= k,
        forall|i: int, j: int|
            0 <= i < j < intern_pre(ds, k).len() ==> #[trigger] intern_pre(ds, k)[i]
                != #[trigger] intern_pre(ds, k)[j],
        forall|i: int| 0 <= i < k ==> intern_pre(ds, k).contains(sig_of(#[trigger] ds[i])),
        forall|t: TyV| #[trigger]
            intern_pre(ds, k).contains(t) ==> exists|i: int|
                0 <= i < k && sig_of(#[trigger] ds[i]) == t,
    decreases k,
{
    if k > 0 {
        lemma_intern_pre(ds, k - 1);
        let init = intern_pre(ds, k - 1);
        let s = sig_of(ds[k - 1]);
        let res = intern_pre(ds, k);
        if init.contains(s) {
            assert(res == init);
        } else {
            assert(res == init.push(s));
            assert forall|i: int, j: int| 0 <= i < j < res.len() implies #[trigger] res[i] != #[trigger] res[j] by {
                if j == init.len() {
                    assert(res[i] == init[i]);
                    if init[i] == s {
                        assert(init.contains(s));
                    }
                }
            }
            assert forall|i: int| 0 <= i < k implies res.contains(sig_of(#[trigger] ds[i])) by {
                if i < k - 1 {
                    let x = sig_of(ds[i]);
                    let w = choose|w: int| 0 <= w < init.len() && init[w] == x;
                    assert(res[w] == x);
                } else {
                    assert(res[init.len() as int] == s);
                }
            }
            assert forall|t: TyV| #[trigger] res.contains(t) implies exists|i: int|
                0 <= i < k && sig_of(#[trigger] ds[i]) == t by {
                let w = choose|w: int| 0 <= w < res.len() && res[w] == t;
                if w < init.len() {
                    assert(init[w] == t);
                    assert(init.contains(t));
                } else {
                    assert(sig_of(ds[k - 1]) == t);
                }
            }
        }
    }
}

/// The first structural error among the declarations `ds[..k]`: a child that
/// is not a function declaration, or one whose id is out of sequence.
pub open spec fn pass1_err(ds: Seq<NodeV>, k: int) -> Option<Seq<char>>
    decreases k,
{
    if k <= 0 || k > ds.len() {
        None
    } else {
        match pass1_err(ds, k - 1) {
            Some(e) => Some(e),
            None => {
                if !(ds[k - 1] is FunctionDeclaration) {
                    Some("root must only contain valid function definitions"@)
                } else if ds[k - 1]->FunctionDeclaration_0.0 != k - 1 {
                    Some("code and function table key mismatch"@)
                } else {
                    None
                }
            },
        }
    }
}

/// When the first pass accepts, every child is a declaration with its id
/// equal to its position.
pub proof fn lemma_pass1_ok(ds: Seq<NodeV>, k: int)
    requires
        0 <= k <= ds.len(),
        pass1_err(ds, k) is None,
    ensures
        forall|i: int|
            0 <= i < k ==> (#[trigger] ds[i]) is FunctionDeclaration
                && ds[i]->FunctionDeclaration_0.0 == i,
    decreases k,
{
    if k > 0 {
        lemma_pass1_ok(ds, k - 1);
    }
}

/// The first body error among the implementations in `ds[..k]`.
pub open spec fn bodies_err(ds: Seq<NodeV>, k: int) -> Option<Seq<char>>
    decreases k,
{
    if k <= 0 || k > ds.len() {
        None
    } else {
        match bodies_err(ds, k - 1) {
            Some(e) => Some(e),
            None => match ds[k - 1]->FunctionDeclaration_2 {
                FnDefV::Implementation(_, body) => match instrs_of(*body) {
                    Err(e) => Some(e),
                    Ok(_) => None,
                },
                _ => None,
            },
        }
    }
}

/// When no body errs up to `k`, each implementation's body lowers.
pub proof fn lemma_bodies_ok(ds: Seq<NodeV>, k: int)
    requires
        0 <= k <= ds.len(),
        bodies_err(ds, k) is None,
    ensures
        forall|i: int|
            0 <= i < k && (#[trigger] ds[i])->FunctionDeclaration_2 is Implementation
                ==> instrs_of(*ds[i]->FunctionDeclaration_2->Implementation_1) is Ok,
    decreases k,
{
    if k > 0 {
        lemma_bodies_ok(ds, k - 1);
    }
}

/// The index a signature was interned at.
pub open spec fn sig_index(sigs: Seq<TyV>, t: TyV) -> int {
    choose|i: int| 0 <= i < sigs.len() && sigs[i] == t
}

/// The import-section entries of the declarations `ds[..k]`: host module,
/// field name, and interned type index, in declaration order.
pub open spec fn imports_pre(ds: Seq<NodeV>, k: int, sigs: Seq<TyV>) -> Seq<
    (Seq<u8>, Seq<u8>, u32),
>
    decreases k,
{
    if k <= 0 || k > ds.len() {
        Seq::empty()
    } else {
        let init = imports_pre(ds, k - 1, sigs);
        match ds[k - 1]->FunctionDeclaration_2 {
            FnDefV::Import(md, nm) => init.push(
                (md, nm, sig_index(sigs, sig_of(ds[k - 1])) as u32),
            ),
            _ => init,
        }
    }
}

/// The function-section entries of the implementations in `ds[..k]`.
pub open spec fn tyidx_pre(ds: Seq<NodeV>, k: int, sigs: Seq<TyV>) -> Seq<u32>
    decreases k,
{
    if k <= 0 || k > ds.len() {
        Seq::empty()
    } else {
        let init = tyidx_pre(ds, k - 1, sigs);
        match ds[k - 1]->FunctionDeclaration_2 {
            FnDefV::Implementation(_, _) => init.push(sig_index(sigs, sig_of(ds[k - 1])) as u32),
            _ => init,
        }
    }
}

/// The code-section entries of the implementations in `ds[..k]`: the local
/// value types and the body instructions.
pub open spec fn codes_pre(ds: Seq<NodeV>, k: int) -> Seq<(Seq<ValueType>, Seq<Instruction>)>
    decreases k,
{
    if k <= 0 || k > ds.len() {
        Seq::empty()
    } else {
        let init = codes_pre(ds, k - 1);
        match ds[k - 1]->FunctionDeclaration_2 {
            FnDefV::Implementation(locals, body) => init.push(
                (Type::params_value_types(locals)->Some_0, instrs_of(*body)->Ok_0),
            ),
            _ => init,
        }
    }
}

/// Some interned signature is not an emittable function type.
pub open spec fn some_sig_unconvertible(sigs: Seq<TyV>) -> bool {
    exists|i: int| 0 <= i < sigs.len() && Type::to_wasm_func_type_spec(#[trigger] sigs[i]) is None
}

/// Some implementation has a local whose type has no value-type form.
pub open spec fn some_local_unconvertible(ds: Seq<NodeV>) -> bool {
    exists|i: int|
        0 <= i < ds.len() && (#[trigger] ds[i])->FunctionDeclaration_2 is Implementation
            && Type::params_value_types(ds[i]->FunctionDeclaration_2->Implementation_0) is None
}

/// What a module assembles to: the interned type list, the import entries,
/// the function-section type indices, and the code entries.
pub struct ModulePlan {
    pub sigs: Seq<TyV>,
    pub imports: Seq<(Seq<u8>, Seq<u8>, u32)>,
    pub func_tyidx: Seq<u32>,
    pub codes: Seq<(Seq<ValueType>, Seq<Instruction>)>,
}

/// The two-pass assembly of a root: structural checks, then body lowering,
/// then signature and local conversions, then the plan.
pub open spec fn plan_of(n: NodeV) -> Result<ModulePlan, Seq<char>> {
    match n {
        NodeV::Root(ds) => {
            if ds.len() > u32::MAX as nat {
                Err("too many function declarations"@)
            } else {
                match pass1_err(ds, ds.len() as int) {
                    Some(e) => Err(e),
                    None => match bodies_err(ds, ds.len() as int) {
                        Some(e) => Err(e),
                        None => {
                            let sigs = intern_pre(ds, ds.len() as int);
                            if some_sig_unconvertible(sigs) {
                                Err("unable to convert function type"@)
                            } else if some_local_unconvertible(ds) {
                                Err("unable to convert local type"@)
                            } else {
                                Ok(
                                    ModulePlan {
                                        sigs,
                                        imports: imports_pre(ds, ds.len() as int, sigs),
                                        func_tyidx: tyidx_pre(ds, ds.len() as int, sigs),
                                        codes: codes_pre(ds, ds.len() as int),
                                    },
                                )
                            }
                        },
                    },
                }
            }
        },
        _ => Err("must generate module on a root node"@),
    }
}

/// A type-section entry agrees with an interned signature.
pub open spec fn func_type_matches(ft: FuncType, t: TyV) -> bool {
    match Type::to_wasm_func_type_spec(t) {
        Some(pr) => ft.parameters@ == pr.0 && ft.results@ == pr.1,
        None => false,
    }
}

/// An import-section entry agrees with a planned import.
pub open spec fn import_matches(im: Import, e: (Seq<u8>, Seq<u8>, u32)) -> bool {
    &&& im.module@ == e.0
    &&& im.name@ == e.1
    &&& match im.desc {
        ImportDesc::Func(i) => i == e.2,
    }
}

/// A code-section entry agrees with a planned code entry: one local
/// declaration per slot with count 1, and exactly the planned instructions.
pub open spec fn code_matches(c: Code, lc: (Seq<ValueType>, Seq<Instruction>)) -> bool {
    &&& c.func.locals@.len() == lc.0.len()
    &&& forall|i: int|
        0 <= i < lc.0.len() ==> (#[trigger] c.func.locals@[i]).n == 1
            && c.func.locals@[i].value_type == lc.0[i]
    &&& c.func.expr.instructions@ == lc.1
}

/// The module a successful assembly returns: one type, function, memory and
/// code section; an import section only when there are imports; exports and
/// data left for the driver.
pub open spec fn module_matches_plan(m: Module, p: ModulePlan) -> bool {
    &&& module_body_matches_plan(m, p)
    &&& m.export_sections@.len() == 0
}

/// The module a successful assembly returns, leaving the export section
/// aside: one type, function, memory and code section; an import section
/// only when there are imports; no data.
pub open spec fn module_body_matches_plan(m: Module, p: ModulePlan) -> bool {
    &&& m.type_sections@.len() == 1
    &&& m.type_sections@[0].func_types@.len() == p.sigs.len()
    &&& forall|i: int|
        0 <= i < p.sigs.len() ==> func_type_matches(
            #[trigger] m.type_sections@[0].func_types@[i],
            p.sigs[i],
        )
    &&& (if p.imports.len() == 0 {
        m.import_sections@.len() == 0
    } else {
        &&& m.import_sections@.len() == 1
        &&& m.import_sections@[0].imports@.len() == p.imports.len()
        &&& forall|i: int|
            0 <= i < p.imports.len() ==> import_matches(
                #[trigger] m.import_sections@[0].imports@[i],
                p.imports[i],
            )
    })
    &&& m.function_sections@.len() == 1
    &&& m.function_sections@[0].types@ == p.func_tyidx
    &&& m.memory_sections@.len() == 1
    &&& m.memory_sections@[0].memories@.len() == 1
    &&& m.memory_sections@[0].memories@[0].memory_type.min == 1
    &&& m.memory_sections@[0].memories@[0].memory_type.max is None
    &&& m.code_sections@.len() == 1
    &&& m.code_sections@[0].codes@.len() == p.codes.len()
    &&& forall|i: int|
        0 <= i < p.codes.len() ==> code_matches(
            #[trigger] m.code_sections@[0].codes@[i],
            p.codes[i],
        )
    &&& m.data_sections@.len() == 0
}

/// Lowering IR to Wasm: a module from a root, an instruction stream from an
/// expression.
pub trait CodeGen {
    /// The module this IR assembles to, or the error reported.
    spec fn plan_spec(&self) -> Result<ModulePlan, Seq<char>>;

    /// The instruction sequence this IR expression lowers to.
    spec fn instrs_spec(&self) -> Result<Seq<Instruction>, Seq<char>>;

    fn generate_module(&self) -> (r: Result<Module, CodeGenError>)
        ensures
            match self.plan_spec() {
                Ok(p) => r is Ok && module_matches_plan(r->Ok_0, p),
                Err(m) => r is Err && r->Err_0.reason@ == m,
            },
    ;

    fn generate_instructions(&self, ctx: &CodeGenContext) -> (r: Result<
        Vec<Instruction>,
        CodeGenError,
    >)
        ensures
            match r {
                Ok(v) => self.instrs_spec() == Ok::<Seq<Instruction>, Seq<char>>(v@),
                Err(e) => self.instrs_spec() is Err && self.instrs_spec()->Err_0 == e.reason@,
            },
    ;
}

/// Lower each expression in the list and concatenate the instruction
/// sequences; the first failing expression's error is returned.
#[verifier::loop_isolation(false)]
fn generate_instr_list(items: &Vec<Node>, ctx: &CodeGenContext) -> (r: Result<
    Vec<Instruction>,
    CodeGenError,
>)
    ensures
        match r {
            Ok(v) => instrs_pre(node_views(*items, 0), items@.len() as int) == Ok::<
                Seq<Instruction>,
                Seq<char>,
            >(v@),
            Err(e) => instrs_pre(node_views(*items, 0), items@.len() as int) is Err && instrs_pre(
                node_views(*items, 0),
                items@.len() as int,
            )->Err_0 == e.reason@,
        },
    decreases *items, 0int,
{
    let ghost nv = node_views(*items, 0);
    proof {
        lemma_node_views(*items, 0);
    }
    let mut out: Vec<Instruction> = Vec::new();
    let mut k: usize = 0;
    while k < items.len()
        invariant
            0 <= k <= items@.len(),
            instrs_pre(nv, k as int) == Ok::<Seq<Instruction>, Seq<char>>(out@),
        decreases items@.len() - k,
    {
        match items[k].generate_instructions(ctx) {
            Ok(mut piece) => {
                proof {
                    assert(nv[k as int] == node_view(items@[k as int]));
                }
                out.append(&mut piece);
                k = k + 1;
            },
            Err(e) => {
                proof {
                    lemma_instrs_pre_err(nv, k as int + 1, items@.len() as int);
                }
                return Err(e);
            },
        }
    }
    Ok(out)
}

impl CodeGen for Node {
    open spec fn plan_spec(&self) -> Result<ModulePlan, Seq<char>> {
        plan_of(node_view(*self))
    }

    open spec fn instrs_spec(&self) -> Result<Seq<Instruction>, Seq<char>> {
        instrs_of(node_view(*self))
    }

    fn generate_module(&self) -> (r: Result<Module, CodeGenError>) {
        generate_module_impl(self)
    }

    fn generate_instructions(&self, ctx: &CodeGenContext) -> (r: Result<
        Vec<Instruction>,
        CodeGenError,
    >)
        decreases self, 1int,
    {
        match self {
            Node::IntegerConstant(i) => {
                let mut v: Vec<Instruction> = Vec::new();
                v.push(Instruction::I32Const(wrap_to_i32(*i)));
                proof {
                    assert(v@ =~= seq![Instruction::I32Const(wrap_i32(*i as int))]);
                }
                Ok(v)
            },
            Node::Local(l) => {
                let mut v: Vec<Instruction> = Vec::new();
                v.push(Instruction::LocalGet(l.0));
                proof {
                    assert(v@ =~= seq![Instruction::LocalGet(l.0)]);
                }
                Ok(v)
            },
            Node::Block(items, _term) => {
                proof {
                    lemma_node_views(*items, 0);
                }
                generate_instr_list(items, ctx)
            },
            Node::Call(f, args) => {
                proof {
                    lemma_node_views(*args, 0);
                }
                match generate_instr_list(args, ctx) {
                    Ok(mut v) => {
                        v.push(Instruction::Call(f.0));
                        Ok(v)
                    },
                    Err(e) => Err(e),
                }
            },
            Node::MemSet(addr, value) => {
                let mut a = (**addr).generate_instructions(ctx)?;
                let mut v = (**value).generate_instructions(ctx)?;
                a.append(&mut v);
                a.push(Instruction::I32Store(MemArg { align: 2, offset: 0 }));
                proof {
                    assert(a@ =~= instrs_of(node_view(**addr))->Ok_0 + instrs_of(
                        node_view(**value),
                    )->Ok_0 + seq![Instruction::I32Store(MemArg { align: 2, offset: 0 })]);
                }
                Ok(a)
            },
            Node::FunctionDeclaration(_, _, _) => Err(
                CodeGenError::new(
                    String::from_str("can't generate instructions for a function definition"),
                ),
            ),
            Node::Root(_) => Err(
                CodeGenError::new(String::from_str("can't generate instructions for a root")),
            ),
        }
    }
}

/// Assemble a whole module from a root node.
fn generate_module_impl(root: &Node) -> (r: Result<Module, CodeGenError>)
    ensures
        match plan_of(node_view(*root)) {
            Ok(p) => r is Ok && module_matches_plan(r->Ok_0, p),
            Err(m) => r is Err && r->Err_0.reason@ == m,
        },
{
    match root {
        Node::Root(children) => generate_module_from_decls(children),
        _ => Err(CodeGenError::new(String::from_str("must generate module on a root node"))),
    }
}

/// Once the first pass fails, it fails the same way for every longer prefix.
pub proof fn lemma_pass1_err_absorb(ds: Seq<NodeV>, k: int, n: int)
    requires
        0 <= k <= n <= ds.len(),
        pass1_err(ds, k) is Some,
    ensures
        pass1_err(ds, n) == pass1_err(ds, k),
    decreases n - k,
{
    if k < n {
        lemma_pass1_err_absorb(ds, k + 1, n);
    }
}

/// Once a body fails, the walk fails the same way for every longer prefix.
pub proof fn lemma_bodies_err_absorb(ds: Seq<NodeV>, k: int, n: int)
    requires
        0 <= k <= n <= ds.len(),
        bodies_err(ds, k) is Some,
    ensures
        bodies_err(ds, n) == bodies_err(ds, k),
    decreases n - k,
{
    if k < n {
        lemma_bodies_err_absorb(ds, k + 1, n);
    }
}

/// Walking further only appends code entries; earlier entries stay put.
pub proof fn lemma_codes_pre_mono(ds: Seq<NodeV>, k: int, n: int)
    requires
        0 <= k <= n <= ds.len(),
    ensures
        codes_pre(ds, k).len() <= codes_pre(ds, n).len(),
        forall|i: int|
            0 <= i < codes_pre(ds, k).len() ==> #[trigger] codes_pre(ds, n)[i] == codes_pre(
                ds,
                k,
            )[i],
    decreases n - k,
{
    if k < n {
        lemma_codes_pre_mono(ds, k + 1, n);
    }
}

/// When every element converts to a value type, the whole list converts,
/// pointwise.
pub proof fn lemma_params_value_types_pointwise(ps: Seq<TyV>)
    requires
        forall|i: int| 0 <= i < ps.len() ==> Type::to_wasm_value_type_spec(#[trigger] ps[i]) is Some,
    ensures
        Type::params_value_types(ps) is Some,
        Type::params_value_types(ps)->Some_0.len() == ps.len(),
        forall|i: int|
            0 <= i < ps.len() ==> #[trigger] Type::params_value_types(ps)->Some_0[i]
                == Type::to_wasm_value_type_spec(ps[i])->Some_0,
    decreases ps.len(),
{
    if ps.len() > 0 {
        assert(forall|i: int|
            0 <= i < ps.drop_last().len() ==> #[trigger] ps.drop_last()[i] == ps[i]);
        lemma_params_value_types_pointwise(ps.drop_last());
    }
}

/// Copy a byte vector.
pub(crate) fn clone_bytes(v: &Vec<u8>) -> (r: Vec<u8>)
    ensures
        r@ == v@,
{
    let mut out: Vec<u8> = Vec::new();
    let mut k: usize = 0;
    while k < v.len()
        invariant
            0 <= k <= v@.len(),
            out@ == v@.take(k as int),
        decreases v@.len() - k,
    {
        out.push(v[k]);
        proof {
            assert(out@ =~= v@.take(k + 1));
        }
        k = k + 1;
    }
    proof {
        assert(v@.take(v@.len() as int) =~= v@);
    }
    out
}

/// Assemble a module out of the children of a root: intern the signatures,
/// lower every implementation body, then build the sections in id order.
#[verifier::loop_isolation(false)]
fn generate_module_from_decls(children: &Vec<Node>) -> (r: Result<Module, CodeGenError>)
    ensures
        match plan_of(NodeV::Root(node_views(*children, 0))) {
            Ok(p) => r is Ok && module_matches_plan(r->Ok_0, p),
            Err(m) => r is Err && r->Err_0.reason@ == m,
        },
{
    let ghost dsv = node_views(*children, 0);
    proof {
        lemma_node_views(*children, 0);
    }
    let n = children.len();
    if n > u32::MAX as usize {
        return Err(CodeGenError::new(String::from_str("too many function declarations")));
    }
    // Pass 1: check shape and ids, intern every signature, fill the function
    // table.
    let mut type_table = ty_bimap_new();
    let mut tcount: u32 = 0;
    let mut function_table: Vec<(Type, Vec<Type>)> = Vec::new();
    let mut k: usize = 0;
    while k < n
        invariant
            0 <= k <= n,
            pass1_err(dsv, k as int) is None,
            tcount as int == intern_pre(dsv, k as int).len(),
            forall|j: int| #[trigger]
                interned(type_table).contains_key(j) <==> 0 <= j < tcount as int,
            forall|j: int|
                0 <= j < tcount as int ==> #[trigger] interned(type_table)[j] == intern_pre(
                    dsv,
                    k as int,
                )[j],
            function_table@.len() == k,
        decreases n - k,
    {
        proof {
            lemma_intern_pre(dsv, k as int);
        }
        match &children[k] {
            Node::FunctionDeclaration(fid, sig, def) => {
                if fid.0 != k as u32 {
                    proof {
                        assert(pass1_err(dsv, k as int + 1) == Some(
                            "code and function table key mismatch"@,
                        ));
                        lemma_pass1_err_absorb(dsv, k as int + 1, n as int);
                    }
                    return Err(
                        CodeGenError::new(
                            String::from_str("code and function table key mismatch"),
                        ),
                    );
                }
                let ghost s = sig_of(dsv[k as int]);
                proof {
                    assert(dsv[k as int] == node_view(children@[k as int]));
                    assert(s == ty_view(*sig));
                }
                match ty_bimap_get_by_right(&type_table, sig) {
                    Some(tid) => {
                        proof {
                            assert(intern_pre(dsv, k as int)[tid.0 as int] == s);
                            assert(intern_pre(dsv, k as int).contains(s));
                            assert(intern_pre(dsv, k as int + 1) == intern_pre(dsv, k as int));
                        }
                    },
                    None => {
                        proof {
                            assert forall|i: int|
                                0 <= i < intern_pre(dsv, k as int).len() implies #[trigger] intern_pre(
                                dsv,
                                k as int,
                            )[i] != s by {
                                assert(interned(type_table).contains_key(i));
                                assert(interned(type_table)[i] == intern_pre(dsv, k as int)[i]);
                            }
                            assert(!intern_pre(dsv, k as int).contains(s));
                            assert(intern_pre(dsv, k as int + 1) == intern_pre(
                                dsv,
                                k as int,
                            ).push(s));
                        }
                        ty_bimap_insert(&mut type_table, TypeId(tcount), sig.clone());
                        tcount = tcount + 1;
                    },
                }
                let locals_clone: Vec<Type> = match def {
                    FunctionDefinition::Implementation(locals, _) => crate::semantic_tree::clone_ty_vec(locals),
                    FunctionDefinition::Import(_, _) => Vec::new(),
                };
                function_table.push((sig.clone(), locals_clone));
            },
            _ => {
                proof {
                    assert(pass1_err(dsv, k as int + 1) == Some(
                        "root must only contain valid function definitions"@,
                    ));
                    lemma_pass1_err_absorb(dsv, k as int + 1, n as int);
                }
                return Err(
                    CodeGenError::new(
                        String::from_str("root must only contain valid function definitions"),
                    ),
                );
            },
        }
        k = k + 1;
    }
    let ghost sigs = intern_pre(dsv, n as int);
    proof {
        lemma_intern_pre(dsv, n as int);
        lemma_pass1_ok(dsv, n as int);
    }
    let gctx = CodeGenGlobalContext { type_table, function_table };
    proof {
        assert(forall|j: int| #[trigger]
            interned(gctx.type_table).contains_key(j) <==> 0 <= j < tcount as int);
        assert(forall|j: int|
            0 <= j < tcount as int ==> #[trigger] interned(gctx.type_table)[j] == sigs[j]);
    }
    // Pass 2: lower every implementation body to instructions.
    let mut code_bodies: Vec<Vec<Instruction>> = Vec::new();
    let mut k2: usize = 0;
    while k2 < n
        invariant
            0 <= k2 <= n,
            bodies_err(dsv, k2 as int) is None,
            code_bodies@.len() == codes_pre(dsv, k2 as int).len(),
            forall|j: int|
                0 <= j < code_bodies@.len() ==> #[trigger] code_bodies@[j]@ == codes_pre(
                    dsv,
                    k2 as int,
                )[j].1,
        decreases n - k2,
    {
        match &children[k2] {
            Node::FunctionDeclaration(_, _, def) => {
                proof {
                    assert(dsv[k2 as int] == node_view(children@[k2 as int]));
                }
                match def {
                    FunctionDefinition::Implementation(locals, body) => {
                        let cctx = CodeGenContext {
                            global: &gctx,
                            parent: None,
                            locals: crate::semantic_tree::clone_ty_vec(locals),
                        };
                        match (**body).generate_instructions(&cctx) {
                            Ok(instrs) => {
                                proof {
                                    assert(dsv[k2 as int]->FunctionDeclaration_2
                                        == fndef_view(*def));
                                }
                                code_bodies.push(instrs);
                            },
                            Err(e) => {
                                proof {
                                    assert(bodies_err(dsv, k2 as int + 1) == Some(e.reason@));
                                    lemma_bodies_err_absorb(dsv, k2 as int + 1, n as int);
                                }
                                return Err(e);
                            },
                        }
                    },
                    FunctionDefinition::Import(_, _) => {},
                }
            },
            _ => {
                proof {
                    assert(false);
                }
                return Err(
                    CodeGenError::new(
                        String::from_str("root must only contain valid function definitions"),
                    ),
                );
            },
        }
        k2 = k2 + 1;
    }
    // Type section: convert the interned signatures in index order.
    let mut func_types: Vec<FuncType> = Vec::new();
    let mut t: u32 = 0;
    while t < tcount
        invariant
            0 <= t <= tcount,
            func_types@.len() == t as int,
            forall|j: int|
                0 <= j < t as int ==> func_type_matches(#[trigger] func_types@[j], sigs[j]),
            forall|j: int|
                0 <= j < t as int ==> Type::to_wasm_func_type_spec(#[trigger] sigs[j]) is Some,
        decreases tcount - t,
    {
        match ty_bimap_get_by_left(&gctx.type_table, TypeId(t)) {
            Some(ty) => {
                proof {
                    assert(ty@ == sigs[t as int]);
                }
                match ty.to_wasm_func_type() {
                    Some(ft) => {
                        func_types.push(ft);
                    },
                    None => {
                        proof {
                            assert(some_sig_unconvertible(sigs));
                        }
                        return Err(
                            CodeGenError::new(
                                String::from_str("unable to convert function type"),
                            ),
                        );
                    },
                }
            },
            None => {
                proof {
                    assert(false);
                }
                return Err(CodeGenError::new(String::from_str("missing type key")));
            },
        }
        t = t + 1;
    }
    proof {
        assert(!some_sig_unconvertible(sigs));
    }
    // Assembly: imports, function-section indices, locals, and code entries,
    // in id order.
    let mut imports: Vec<Import> = Vec::new();
    let mut fn_tyidx: Vec<u32> = Vec::new();
    let mut codes: Vec<Code> = Vec::new();
    let mut bodies_rest = code_bodies;
    let mut k3: usize = 0;
    while k3 < n
        invariant
            0 <= k3 <= n,
            imports@.len() == imports_pre(dsv, k3 as int, sigs).len(),
            forall|j: int|
                0 <= j < imports@.len() ==> import_matches(
                    #[trigger] imports@[j],
                    imports_pre(dsv, k3 as int, sigs)[j],
                ),
            fn_tyidx@ == tyidx_pre(dsv, k3 as int, sigs),
            codes@.len() == codes_pre(dsv, k3 as int).len(),
            forall|j: int|
                0 <= j < codes@.len() ==> code_matches(
                    #[trigger] codes@[j],
                    codes_pre(dsv, k3 as int)[j],
                ),
            bodies_rest@.len() == codes_pre(dsv, n as int).len() - codes@.len(),
            forall|j: int|
                0 <= j < bodies_rest@.len() ==> #[trigger] bodies_rest@[j]@ == codes_pre(
                    dsv,
                    n as int,
                )[codes@.len() + j].1,
            forall|j: int|
                0 <= j < k3 && (#[trigger] dsv[j])->FunctionDeclaration_2 is Implementation
                    ==> Type::params_value_types(
                    dsv[j]->FunctionDeclaration_2->Implementation_0,
                ) is Some,
        decreases n - k3,
    {
        proof {
            lemma_codes_pre_mono(dsv, k3 as int, n as int);
            lemma_codes_pre_mono(dsv, k3 as int + 1, n as int);
        }
        match &children[k3] {
            Node::FunctionDeclaration(_, sig, def) => {
                let ghost s = sig_of(dsv[k3 as int]);
                proof {
                    assert(dsv[k3 as int] == node_view(children@[k3 as int]));
                    assert(s == ty_view(*sig));
                    assert(intern_pre(dsv, n as int).contains(sig_of(dsv[k3 as int])));
                }
                let tid = match ty_bimap_get_by_right(&gctx.type_table, sig) {
                    Some(tid) => tid,
                    None => {
                        proof {
                            let w = choose|w: int| 0 <= w < sigs.len() && sigs[w] == s;
                            assert(interned(gctx.type_table).contains_key(w));
                            assert(interned(gctx.type_table)[w] == sigs[w]);
                            assert(false);
                        }
                        return Err(CodeGenError::new(String::from_str("no function type")));
                    },
                };
                proof {
                    assert(sigs[tid.0 as int] == s);
                    let si = sig_index(sigs, s);
                    assert(0 <= si < sigs.len() && sigs[si] == s);
                    assert(si == tid.0 as int);
                }
                match def {
                    FunctionDefinition::Import(md, nm) => {
                        imports.push(
                            Import {
                                module: clone_bytes(md),
                                name: clone_bytes(nm),
                                desc: ImportDesc::Func(tid.0),
                            },
                        );
                        proof {
                            assert(dsv[k3 as int]->FunctionDeclaration_2 == fndef_view(*def));
                            assert(imports_pre(dsv, k3 as int + 1, sigs) == imports_pre(
                                dsv,
                                k3 as int,
                                sigs,
                            ).push((md@, nm@, sig_index(sigs, s) as u32)));
                        }
                    },
                    FunctionDefinition::Implementation(locals, _) => {
                        proof {
                            assert(dsv[k3 as int]->FunctionDeclaration_2 == fndef_view(*def));
                            lemma_ty_views(*locals, 0);
                        }
                        fn_tyidx.push(tid.0);
                        let ghost lvv = ty_views(*locals, 0);
                        let mut lvs: Vec<Local> = Vec::new();
                        let mut j: usize = 0;
                        while j < locals.len()
                            invariant
                                0 <= j <= locals@.len(),
                                lvs@.len() == j,
                                forall|i: int|
                                    0 <= i < j ==> (#[trigger] lvs@[i]).n == 1,
                                forall|i: int|
                                    0 <= i < j ==> Some((#[trigger] lvs@[i]).value_type)
                                        == Type::to_wasm_value_type_spec(lvv[i]),
                            decreases locals@.len() - j,
                        {
                            match locals[j].to_wasm_value_type() {
                                Some(vt) => {
                                    lvs.push(Local { n: 1, value_type: vt });
                                },
                                None => {
                                    proof {
                                        lemma_params_value_types_fail(
                                            lvv,
                                            lvv.len() as int,
                                            j as int,
                                        );
                                        assert(lvv.take(lvv.len() as int) =~= lvv);
                                        assert(some_local_unconvertible(dsv));
                                    }
                                    return Err(
                                        CodeGenError::new(
                                            String::from_str("unable to convert local type"),
                                        ),
                                    );
                                },
                            }
                            j = j + 1;
                        }
                        proof {
                            assert forall|i: int|
                                0 <= i < lvv.len() implies Type::to_wasm_value_type_spec(
                                #[trigger] lvv[i],
                            ) is Some by {
                                assert(Some(lvs@[i].value_type) == Type::to_wasm_value_type_spec(
                                    lvv[i],
                                ));
                            }
                            lemma_params_value_types_pointwise(lvv);
                        }
                        let body_instrs = bodies_rest.remove(0);
                        codes.push(
                            Code {
                                func: Func {
                                    locals: lvs,
                                    expr: Expr { instructions: body_instrs },
                                },
                            },
                        );
                    },
                }
            },
            _ => {
                proof {
                    assert(false);
                }
                return Err(
                    CodeGenError::new(
                        String::from_str("root must only contain valid function definitions"),
                    ),
                );
            },
        }
        k3 = k3 + 1;
    }
    proof {
        assert(!some_local_unconvertible(dsv));
    }
    // Build the module: one section of each mandatory kind, imports only
    // when present, exports and data left to the driver.
    let mut type_sections: Vec<TypeSection> = Vec::new();
    type_sections.push(TypeSection { func_types });
    let mut import_sections: Vec<ImportSection> = Vec::new();
    if imports.len() > 0 {
        import_sections.push(ImportSection { imports });
    }
    let mut function_sections: Vec<FunctionSection> = Vec::new();
    function_sections.push(FunctionSection { types: fn_tyidx });
    let mut memories: Vec<Memory> = Vec::new();
    memories.push(Memory { memory_type: Limits { min: 1, max: None } });
    let mut memory_sections: Vec<MemorySection> = Vec::new();
    memory_sections.push(MemorySection { memories });
    let mut code_sections: Vec<CodeSection> = Vec::new();
    code_sections.push(CodeSection { codes });
    Ok(
        Module {
            type_sections,
            import_sections,
            function_sections,
            memory_sections,
            export_sections: Vec::new(),
            code_sections,
            data_sections: Vec::new(),
        },
    )
}

/// Type-interning law: the interned signature list, which the type section
/// mirrors entry for entry, holds no structural duplicates, yet every
/// declaration's signature appears in it — so two declarations with
/// structurally equal signatures share exactly one type-section entry.
pub proof fn lemma_type_interning(ds: Seq<NodeV>, p: ModulePlan)
    requires
        plan_of(NodeV::Root(ds)) == Ok::<ModulePlan, Seq<char>>(p),
    ensures
        forall|i: int, j: int|
            0 <= i < j < p.sigs.len() ==> #[trigger] p.sigs[i] != #[trigger] p.sigs[j],
        forall|i: int| 0 <= i < ds.len() ==> p.sigs.contains(sig_of(#[trigger] ds[i])),
{
    lemma_intern_pre(ds, ds.len() as int);
}

/// The positions of the implementations among the declarations `ds[..k]`.
pub open spec fn impl_index(ds: Seq<NodeV>, k: int) -> Seq<int>
    decreases k,
{
    if k <= 0 || k > ds.len() {
        Seq::empty()
    } else {
        let init = impl_index(ds, k - 1);
        match ds[k - 1]->FunctionDeclaration_2 {
            FnDefV::Implementation(_, _) => init.push(k - 1),
            _ => init,
        }
    }
}

/// Entry `j` of the function and code walkers describes the `j`-th
/// implementation: its interned type index on one side, its locals and body
/// instructions on the other.
pub open spec fn impl_entry_ok(ds: Seq<NodeV>, k: int, sigs: Seq<TyV>, j: int) -> bool {
    let i = impl_index(ds, k)[j];
    &&& 0 <= i < k
    &&& ds[i]->FunctionDeclaration_2 is Implementation
    &&& tyidx_pre(ds, k, sigs)[j] == sig_index(sigs, sig_of(ds[i])) as u32
    &&& codes_pre(ds, k)[j] == (
        Type::params_value_types(ds[i]->FunctionDeclaration_2->Implementation_0)->Some_0,
        instrs_of(*ds[i]->FunctionDeclaration_2->Implementation_1)->Ok_0,
    )
}

/// The function and code walkers push an entry for exactly the same
/// declarations: the implementations, in declaration order.
pub proof fn lemma_impl_entries(ds: Seq<NodeV>, k: int, sigs: Seq<TyV>)
    requires
        0 <= k <= ds.len(),
    ensures
        tyidx_pre(ds, k, sigs).len() == codes_pre(ds, k).len(),
        impl_index(ds, k).len() == codes_pre(ds, k).len(),
        forall|j: int|
            0 <= j < codes_pre(ds, k).len() ==> #[trigger] impl_entry_ok(ds, k, sigs, j),
    decreases k,
{
    if k > 0 {
        lemma_impl_entries(ds, k - 1, sigs);
        assert forall|j: int|
            0 <= j < codes_pre(ds, k).len() implies #[trigger] impl_entry_ok(ds, k, sigs, j) by {
            if j < codes_pre(ds, k - 1).len() {
                assert(impl_entry_ok(ds, k - 1, sigs, j));
                assert(codes_pre(ds, k)[j] == codes_pre(ds, k - 1)[j]);
                assert(tyidx_pre(ds, k, sigs)[j] == tyidx_pre(ds, k - 1, sigs)[j]);
                assert(impl_index(ds, k)[j] == impl_index(ds, k - 1)[j]);
            }
        }
    }
}

/// Function/code parity law: the function section and the code section of a
/// planned module have the same number of entries, and the entries at each
/// index describe the same implementation.
pub proof fn lemma_function_code_parity(ds: Seq<NodeV>, p: ModulePlan)
    requires
        plan_of(NodeV::Root(ds)) == Ok::<ModulePlan, Seq<char>>(p),
    ensures
        p.func_tyidx.len() == p.codes.len(),
        p.codes.len() == impl_index(ds, ds.len() as int).len(),
        forall|j: int|
            0 <= j < p.codes.len() ==> #[trigger] impl_entry_ok(
                ds,
                ds.len() as int,
                p.sigs,
                j,
            ),
{
    lemma_impl_entries(ds, ds.len() as int, p.sigs);
}

/// Every import precedes every implementation in the declaration list.
pub open spec fn imports_first(ds: Seq<NodeV>) -> bool {
    forall|i: int, j: int|
        0 <= i < j < ds.len() && (#[trigger] ds[i])->FunctionDeclaration_2 is Implementation
            ==> (#[trigger] ds[j])->FunctionDeclaration_2 is Implementation
}

/// Entry `i` of the import walker describes declaration `i` itself.
pub open spec fn import_entry_ok(ds: Seq<NodeV>, k: int, sigs: Seq<TyV>, i: int) -> bool {
    &&& ds[i]->FunctionDeclaration_2 is Import
    &&& imports_pre(ds, k, sigs)[i] == (
        ds[i]->FunctionDeclaration_2->Import_0,
        ds[i]->FunctionDeclaration_2->Import_1,
        sig_index(sigs, sig_of(ds[i])) as u32,
    )
}

/// With imports first, the walkers split the declarations exactly: import
/// entry `i` comes from declaration `i`, and the `j`-th implementation is
/// declaration `imports + j`.
pub proof fn lemma_index_split(ds: Seq<NodeV>, k: int, sigs: Seq<TyV>)
    requires
        imports_first(ds),
        0 <= k <= ds.len(),
    ensures
        imports_pre(ds, k, sigs).len() + codes_pre(ds, k).len() == k,
        forall|i: int|
            0 <= i < imports_pre(ds, k, sigs).len() ==> #[trigger] import_entry_ok(
                ds,
                k,
                sigs,
                i,
            ),
        forall|j: int|
            0 <= j < impl_index(ds, k).len() ==> #[trigger] impl_index(ds, k)[j] == imports_pre(
                ds,
                k,
                sigs,
            ).len() + j,
    decreases k,
{
    lemma_impl_entries(ds, k, sigs);
    if k > 0 {
        lemma_index_split(ds, k - 1, sigs);
        lemma_impl_entries(ds, k - 1, sigs);
        let il = imports_pre(ds, k - 1, sigs).len() as int;
        match ds[k - 1]->FunctionDeclaration_2 {
            FnDefV::Import(_, _) => {
                if codes_pre(ds, k - 1).len() > 0 {
                    assert(impl_entry_ok(ds, k - 1, sigs, 0));
                    assert(false);
                }
                assert forall|i: int|
                    0 <= i < imports_pre(ds, k, sigs).len() implies #[trigger] import_entry_ok(
                    ds,
                    k,
                    sigs,
                    i,
                ) by {
                    if i < il {
                        assert(import_entry_ok(ds, k - 1, sigs, i));
                        assert(imports_pre(ds, k, sigs)[i] == imports_pre(ds, k - 1, sigs)[i]);
                    }
                }
            },
            FnDefV::Implementation(_, _) => {
                assert forall|i: int|
                    0 <= i < imports_pre(ds, k, sigs).len() implies #[trigger] import_entry_ok(
                    ds,
                    k,
                    sigs,
                    i,
                ) by {
                    assert(import_entry_ok(ds, k - 1, sigs, i));
                    assert(imports_pre(ds, k, sigs)[i] == imports_pre(ds, k - 1, sigs)[i]);
                }
                assert forall|j: int|
                    0 <= j < impl_index(ds, k).len() implies #[trigger] impl_index(ds, k)[j]
                    == imports_pre(ds, k, sigs).len() + j by {
                    if j < impl_index(ds, k - 1).len() {
                        assert(impl_index(ds, k)[j] == impl_index(ds, k - 1)[j]);
                    }
                }
            },
        }
    }
}

/// Index-consistency law, stated for IR whose imports precede its
/// implementations: function index `k` denotes the import-section entry `k`
/// when `k < imports`, and otherwise the implementation whose function- and
/// code-section entries sit at `k - imports`. A `Call(FuncId(k), _)` in the
/// IR lowers to the instruction `call k` (see `instrs_of`), so every emitted
/// call follows this rule.
pub proof fn lemma_index_consistency(ds: Seq<NodeV>, p: ModulePlan, k: int)
    requires
        plan_of(NodeV::Root(ds)) == Ok::<ModulePlan, Seq<char>>(p),
        imports_first(ds),
        0 <= k < ds.len(),
    ensures
        p.imports.len() + p.codes.len() == ds.len(),
        k < p.imports.len() ==> ds[k]->FunctionDeclaration_2 is Import && p.imports[k] == (
            ds[k]->FunctionDeclaration_2->Import_0,
            ds[k]->FunctionDeclaration_2->Import_1,
            sig_index(p.sigs, sig_of(ds[k])) as u32,
        ),
        k >= p.imports.len() ==> ds[k]->FunctionDeclaration_2 is Implementation && p.codes[k
            - p.imports.len()] == (
            Type::params_value_types(ds[k]->FunctionDeclaration_2->Implementation_0)->Some_0,
            instrs_of(*ds[k]->FunctionDeclaration_2->Implementation_1)->Ok_0,
        ) && p.func_tyidx[k - p.imports.len()] == sig_index(p.sigs, sig_of(ds[k])) as u32,
{
    let n = ds.len() as int;
    lemma_index_split(ds, n, p.sigs);
    lemma_impl_entries(ds, n, p.sigs);
    if k < p.imports.len() {
        assert(import_entry_ok(ds, n, p.sigs, k));
    } else {
        let j = k - p.imports.len();
        assert(impl_entry_ok(ds, n, p.sigs, j));
        assert(impl_index(ds, n)[j] == k);
    }
}

/// Every instruction the IR lowering emits is encodable: the lowering only
/// produces constants, local reads, calls and stores.
pub proof fn lemma_instrs_encodable(n: NodeV)
    requires
        instrs_of(n) is Ok,
    ensures
        forall|j: int|
            0 <= j < instrs_of(n)->Ok_0.len() ==> (#[trigger] instrs_of(n)->Ok_0[j]).wasm_opt_spec()
                is Some,
    decreases n, 1int,
{
    match n {
        NodeV::Block(items, _term) => {
            lemma_instrs_pre_encodable(items, items.len() as int);
        },
        NodeV::Call(f, args) => {
            lemma_instrs_pre_encodable(args, args.len() as int);
            let a = instrs_pre(args, args.len() as int)->Ok_0;
            assert forall|j: int|
                0 <= j < instrs_of(n)->Ok_0.len() implies (#[trigger] instrs_of(n)
                ->Ok_0[j]).wasm_opt_spec() is Some by {
                if j < a.len() {
                    assert(instrs_of(n)->Ok_0[j] == a[j]);
                } else {
                    assert(instrs_of(n)->Ok_0[j] == Instruction::Call(f.0));
                }
            }
        },
        NodeV::MemSet(addr, value) => {
            lemma_instrs_encodable(*addr);
            lemma_instrs_encodable(*value);
            let a = instrs_of(*addr)->Ok_0;
            let v = instrs_of(*value)->Ok_0;
            assert forall|j: int|
                0 <= j < instrs_of(n)->Ok_0.len() implies (#[trigger] instrs_of(n)
                ->Ok_0[j]).wasm_opt_spec() is Some by {
                if j < a.len() {
                    assert(instrs_of(n)->Ok_0[j] == a[j]);
                } else if j < a.len() + v.len() {
                    assert(instrs_of(n)->Ok_0[j] == v[j - a.len()]);
                } else {
                    assert(instrs_of(n)->Ok_0[j] == Instruction::I32Store(
                        MemArg { align: 2, offset: 0 },
                    ));
                }
            }
        },
        _ => {},
    }
}

/// Every instruction a lowered expression list emits is encodable.
pub proof fn lemma_instrs_pre_encodable(items: Seq<NodeV>, k: int)
    requires
        0 <= k <= items.len(),
        instrs_pre(items, k) is Ok,
    ensures
        forall|j: int|
            0 <= j < instrs_pre(items, k)->Ok_0.len() ==> (#[trigger] instrs_pre(items, k)
                ->Ok_0[j]).wasm_opt_spec() is Some,
    decreases items, 0int, k,
{
    if k > 0 {
        lemma_instrs_pre_encodable(items, k - 1);
        lemma_instrs_encodable(items[k - 1]);
        let acc = instrs_pre(items, k - 1)->Ok_0;
        let a = instrs_of(items[k - 1])->Ok_0;
        assert forall|j: int|
            0 <= j < instrs_pre(items, k)->Ok_0.len() implies (#[trigger] instrs_pre(items, k)
            ->Ok_0[j]).wasm_opt_spec() is Some by {
            if j < acc.len() {
                assert(instrs_pre(items, k)->Ok_0[j] == acc[j]);
            } else {
                assert(instrs_pre(items, k)->Ok_0[j] == a[j - acc.len()]);
            }
        }
    }
}

/// All code entries of a vector encode when each one does.
pub proof fn lemma_codes_spec_all(v: Vec<Code>, k: int)
    requires
        0 <= k <= v.len(),
        forall|j: int| k <= j < v.len() ==> (#[trigger] v[j]).wasm_opt_spec() is Some,
    ensures
        CodeSection::codes_spec(v, k) is Some,
    decreases v.len() - k,
{
    if k < v.len() {
        lemma_codes_spec_all(v, k + 1);
    }
}

/// A module assembled from a successful plan always encodes: the lowering
/// never emits an instruction the encoder refuses.
pub proof fn lemma_module_encodable(m: Module, p: ModulePlan, ds: Seq<NodeV>)
    requires
        plan_of(NodeV::Root(ds)) == Ok::<ModulePlan, Seq<char>>(p),
        module_body_matches_plan(m, p),
        m.data_sections@.len() == 0,
    ensures
        m.wasm_opt_spec() is Some,
{
    let n = ds.len() as int;
    lemma_impl_entries(ds, n, p.sigs);
    lemma_bodies_ok(ds, n);
    let codes = m.code_sections@[0].codes;
    assert forall|j: int|
        0 <= j < codes.len() implies (#[trigger] codes[j]).wasm_opt_spec() is Some by {
        assert(code_matches(m.code_sections@[0].codes@[j], p.codes[j]));
        assert(codes_pre(ds, n)[j] == p.codes[j]);
        assert(impl_entry_ok(ds, n, p.sigs, j));
        let i = impl_index(ds, n)[j];
        let body = *ds[i]->FunctionDeclaration_2->Implementation_1;
        assert(instrs_of(body) is Ok);
        lemma_instrs_encodable(body);
        let instrs = codes[j].func.expr.instructions;
        assert forall|t: int|
            0 <= t < instrs.len() implies (#[trigger] instrs[t]).wasm_opt_spec() is Some by {
            assert(instrs[t] == instrs_of(body)->Ok_0[t]);
        }
        lemma_seq_spec_all(instrs, 0);
    }
    lemma_codes_spec_all(codes, 0);
    assert(Module::code_group_spec(m.code_sections, 1) is Some);
    assert(Module::code_group_spec(m.code_sections, 0) is Some);
    assert(Module::data_group_spec(m.data_sections, 0) is Some);
}

} // verus!
