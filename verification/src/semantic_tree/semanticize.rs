//! Lowering the parse tree to the typed IR: function-name resolution into a
//! dense index space, and the structural rewrite of expressions.
use vstd::prelude::*;

use crate::parser::{lemma_pnode_views, pnode_view, pnode_views, Node as ParseNode, PNodeV};
use crate::semantic_tree::{
    lemma_ty_views, ty_view, ty_views, FnDefV, FunctionDefinition, Node as SemNode, NodeV, TyV,
    Type,
};
use crate::wasm::FuncId;

verus! {

/// An error raised while lowering the parse tree.
#[derive(Debug, Clone)]
pub struct SemanticizeError {
    pub reason: String,
}

impl SemanticizeError {
    pub fn new(reason: String) -> (r: SemanticizeError)
        ensures
            r.reason == reason,
    {
        SemanticizeError { reason }
    }
}

/// The function table: each declared name with its assigned index.
pub open spec fn tbl_view(t: Vec<(Vec<u8>, u32)>) -> Seq<(Seq<u8>, u32)> {
    Seq::new(t@.len(), |i: int| (t@[i].0@, t@[i].1))
}

/// The index a name resolves to: its first entry in the table.
pub open spec fn fn_lookup(tbl: Seq<(Seq<u8>, u32)>, name: Seq<u8>) -> Option<u32>
    decreases tbl.len(),
{
    if tbl.len() == 0 {
        None
    } else if tbl[0].0 == name {
        Some(tbl[0].1)
    } else {
        fn_lookup(tbl.drop_first(), name)
    }
}

/// The source type a parse-tree type lowers to; every type token reads as
/// `Int` for now.
pub open spec fn sem_type_of(t: PNodeV) -> TyV {
    TyV::Int
}

/// The signature of a declaration with `n` parameters: `n` integers to one
/// integer.
pub open spec fn int_signature(n: nat) -> TyV {
    TyV::Func(Seq::new(n, |i: int| TyV::Int), Some(Box::new(TyV::Int)))
}

/// Lowering one parse node under a function table.
pub open spec fn lower(p: PNodeV, tbl: Seq<(Seq<u8>, u32)>) -> Result<NodeV, Seq<char>>
    decreases p, 1int,
{
    match p {
        PNodeV::Identifier(_) => Err("locals are not supported"@),
        PNodeV::IntegerLiteral(i) => Ok(NodeV::IntegerConstant(i)),
        PNodeV::Program(items) => match lower_pre(items, items.len() as int, tbl) {
            Ok(children) => Ok(NodeV::Root(children)),
            Err(e) => Err(e),
        },
        PNodeV::Call(target, args) => match *target {
            PNodeV::Identifier(nm) => match fn_lookup(tbl, nm) {
                Some(id) => match lower_pre(args, args.len() as int, tbl) {
                    Ok(la) => Ok(NodeV::Call(FuncId(id), la)),
                    Err(e) => Err(e),
                },
                None => Err("no function"@),
            },
            _ => Err("must call an identifier"@),
        },
        PNodeV::FunctionImport { name, module, params, return_type } => match fn_lookup(
            tbl,
            name,
        ) {
            Some(id) => Ok(
                NodeV::FunctionDeclaration(
                    FuncId(id),
                    int_signature(params.len()),
                    FnDefV::Import(module, name),
                ),
            ),
            None => Err("no internal function mapping"@),
        },
        PNodeV::FunctionImplementation { name, params, return_type, body } => match fn_lookup(
            tbl,
            name,
        ) {
            Some(id) => match lower(*body, tbl) {
                Ok(lb) => Ok(
                    NodeV::FunctionDeclaration(
                        FuncId(id),
                        int_signature(params.len()),
                        FnDefV::Implementation(Seq::empty(), Box::new(lb)),
                    ),
                ),
                Err(e) => Err(e),
            },
            None => Err("no internal function mapping"@),
        },
        PNodeV::Block(items, term) => match lower_pre(items, items.len() as int, tbl) {
            Ok(children) => Ok(NodeV::Block(children, term)),
            Err(e) => Err(e),
        },
        PNodeV::MemSet(target, value) => match (lower(*target, tbl), lower(*value, tbl)) {
            (Ok(lt), Ok(lv)) => Ok(NodeV::MemSet(Box::new(lt), Box::new(lv))),
            (Err(e), _) => Err(e),
            (_, Err(e)) => Err(e),
        },
        PNodeV::FunctionParameter(_, _) => Err("unsupported parse node"@),
    }
}

/// Lowering the parse nodes `items[..k]`, stopping at the first error.
pub open spec fn lower_pre(items: Seq<PNodeV>, k: int, tbl: Seq<(Seq<u8>, u32)>) -> Result<
    Seq<NodeV>,
    Seq<char>,
>
    decreases items, 0int, k,
{
    if k <= 0 || k > items.len() {
        Ok(Seq::empty())
    } else {
        match lower_pre(items, k - 1, tbl) {
            Ok(acc) => match lower(items[k - 1], tbl) {
                Ok(n) => Ok(acc.push(n)),
                Err(e) => Err(e),
            },
            Err(e) => Err(e),
        }
    }
}

/// Once a prefix fails to lower, every longer prefix fails the same way.
pub proof fn lemma_lower_pre_err(items: Seq<PNodeV>, k: int, n: int, tbl: Seq<(Seq<u8>, u32)>)
    requires
        0 <= k <= n <= items.len(),
        lower_pre(items, k, tbl) is Err,
    ensures
        lower_pre(items, n, tbl) == lower_pre(items, k, tbl),
    decreases n - k,
{
    if k < n {
        lemma_lower_pre_err(items, k + 1, n, tbl);
    }
}

/// Indexing the top-level items `items[..k]`: every item must declare a
/// function, names must be distinct, and indices count up from zero.
pub open spec fn table_pre(items: Seq<PNodeV>, k: int) -> Result<Seq<(Seq<u8>, u32)>, Seq<char>>
    decreases k,
{
    if k <= 0 || k > items.len() {
        Ok(Seq::empty())
    } else {
        match table_pre(items, k - 1) {
            Ok(tbl) => {
                let nm = match items[k - 1] {
                    PNodeV::FunctionImplementation { name, .. } => Some(name),
                    PNodeV::FunctionImport { name, .. } => Some(name),
                    _ => None,
                };
                match nm {
                    Some(name) => {
                        if fn_lookup(tbl, name) is Some {
                            Err("duplicate function name"@)
                        } else {
                            Ok(tbl.push((name, (k - 1) as u32)))
                        }
                    },
                    None => Err("must only have functions in program"@),
                }
            },
            Err(e) => Err(e),
        }
    }
}

/// Once the indexing fails, every longer prefix fails the same way.
pub proof fn lemma_table_pre_err(items: Seq<PNodeV>, k: int, n: int)
    requires
        0 <= k <= n <= items.len(),
        table_pre(items, k) is Err,
    ensures
        table_pre(items, n) == table_pre(items, k),
    decreases n - k,
{
    if k < n {
        lemma_table_pre_err(items, k + 1, n);
    }
}

/// The whole lowering: index the functions of a program, then lower it.
pub open spec fn sem_of(p: PNodeV) -> Result<NodeV, Seq<char>> {
    match p {
        PNodeV::Program(items) => {
            if items.len() > u32::MAX as nat {
                Err("too many function declarations"@)
            } else {
                match table_pre(items, items.len() as int) {
                    Ok(tbl) => lower(p, tbl),
                    Err(e) => Err(e),
                }
            }
        },
        _ => Err("must convert a program"@),
    }
}

/// Turning a parse tree into the typed IR.
pub trait Semanticize {
    /// The IR this parse tree lowers to, or the error reported.
    spec fn sem_spec(&self) -> Result<NodeV, Seq<char>>;

    fn to_semantic_tree(&self) -> (r: Result<SemNode, SemanticizeError>)
        ensures
            match r {
                Ok(n) => self.sem_spec() == Ok::<NodeV, Seq<char>>(n@),
                Err(e) => self.sem_spec() is Err && self.sem_spec()->Err_0 == e.reason@,
            },
    ;
}

/// Compare two byte strings.
fn bytes_eq(a: &Vec<u8>, b: &Vec<u8>) -> (r: bool)
    ensures
        r == (a@ == b@),
{
    if a.len() != b.len() {
        return false;
    }
    let mut k: usize = 0;
    while k < a.len()
        invariant
            0 <= k <= a@.len(),
            a@.len() == b@.len(),
            forall|j: int| 0 <= j < k ==> a@[j] == b@[j],
        decreases a@.len() - k,
    {
        if a[k] != b[k] {
            return false;
        }
        k = k + 1;
    }
    proof {
        assert(a@ =~= b@);
    }
    true
}

/// Look a name up in the function table.
fn lookup_fn(tbl: &Vec<(Vec<u8>, u32)>, name: &Vec<u8>) -> (r: Option<u32>)
    ensures
        r == fn_lookup(tbl_view(*tbl), name@),
{
    let ghost tv = tbl_view(*tbl);
    proof {
        assert(tv.skip(0) =~= tv);
    }
    let mut k: usize = 0;
    while k < tbl.len()
        invariant
            0 <= k <= tbl@.len(),
            tv == tbl_view(*tbl),
            tv.len() == tbl@.len(),
            fn_lookup(tv, name@) == fn_lookup(tv.skip(k as int), name@),
        decreases tbl@.len() - k,
    {
        proof {
            assert(tv.skip(k as int)[0] == (tbl@[k as int].0@, tbl@[k as int].1));
        }
        if bytes_eq(&tbl[k].0, name) {
            return Some(tbl[k].1);
        }
        proof {
            assert(tv.skip(k as int).drop_first() =~= tv.skip(k + 1));
        }
        k = k + 1;
    }
    proof {
        assert(tv.skip(tbl@.len() as int).len() == 0);
    }
    None
}

impl ParseNode {
    /// Lower a type token; every source type reads as `Int` for now.
    pub fn to_semantic_type(&self) -> (r: Result<Type, SemanticizeError>)
        ensures
            r matches Ok(t) && t@ == sem_type_of(self@),
    {
        Ok(Type::Int)
    }

    /// Lower one parse node under a function table.
    pub fn to_semantic_node(&self, functions: &Vec<(Vec<u8>, u32)>) -> (r: Result<
        SemNode,
        SemanticizeError,
    >)
        ensures
            match r {
                Ok(n) => lower(self@, tbl_view(*functions)) == Ok::<NodeV, Seq<char>>(n@),
                Err(e) => lower(self@, tbl_view(*functions)) is Err && lower(
                    self@,
                    tbl_view(*functions),
                )->Err_0 == e.reason@,
            },
        decreases self, 1int,
    {
        match self {
            ParseNode::Identifier(_) => Err(
                SemanticizeError::new(String::from_str("locals are not supported")),
            ),
            ParseNode::IntegerLiteral(i) => Ok(SemNode::IntegerConstant(*i)),
            ParseNode::Program(items) => {
                proof {
                    lemma_pnode_views(*items, 0);
                }
                let children = match lower_list(items, functions) {
                    Ok(v) => v,
                    Err(e) => {
                        return Err(e);
                    },
                };
                Ok(SemNode::Root(children))
            },
            ParseNode::Call(target, args) => match &**target {
                ParseNode::Identifier(nm) => match ({
                    proof {
                        assert(pnode_view(**target) == PNodeV::Identifier(nm@));
                    }
                    lookup_fn(functions, nm)
                }) {
                    Some(id) => {
                        proof {
                            lemma_pnode_views(*args, 0);
                        }
                        let la = match lower_list(args, functions) {
                            Ok(v) => v,
                            Err(e) => {
                                return Err(e);
                            },
                        };
                        Ok(SemNode::Call(FuncId(id), la))
                    },
                    None => Err(SemanticizeError::new(String::from_str("no function"))),
                },
                _ => {
                    proof {
                        assert(!(pnode_view(**target) is Identifier));
                    }
                    Err(SemanticizeError::new(String::from_str("must call an identifier")))
                },
            },
            ParseNode::FunctionImport { name, module, params, return_type } => {
                proof {
                    lemma_pnode_views(*params, 0);
                }
                match lookup_fn(functions, name) {
                    Some(id) => {
                        let sig = int_params_signature(params.len());
                        let md = crate::codegen::clone_bytes(module);
                        let nm = crate::codegen::clone_bytes(name);
                        let def = FunctionDefinition::Import(md, nm);
                        proof {
                            assert(crate::semantic_tree::fndef_view(def) == FnDefV::Import(
                                module@,
                                name@,
                            ));
                        }
                        Ok(SemNode::FunctionDeclaration(FuncId(id), sig, def))
                    },
                    None => Err(
                        SemanticizeError::new(String::from_str("no internal function mapping")),
                    ),
                }
            },
            ParseNode::FunctionImplementation { name, params, return_type, body } => {
                proof {
                    lemma_pnode_views(*params, 0);
                }
                match lookup_fn(functions, name) {
                    Some(id) => {
                        let lb = match (**body).to_semantic_node(functions) {
                            Ok(v) => v,
                            Err(e) => {
                                return Err(e);
                            },
                        };
                        let sig = int_params_signature(params.len());
                        let locals: Vec<Type> = Vec::new();
                        proof {
                            lemma_ty_views(locals, 0);
                            assert(ty_views(locals, 0) =~= Seq::<TyV>::empty());
                        }
                        let def = FunctionDefinition::Implementation(locals, Box::new(lb));
                        proof {
                            assert(crate::semantic_tree::fndef_view(def)
                                == FnDefV::Implementation(
                                Seq::empty(),
                                Box::new(crate::semantic_tree::node_view(*def->Implementation_1)),
                            ));
                        }
                        Ok(SemNode::FunctionDeclaration(FuncId(id), sig, def))
                    },
                    None => Err(
                        SemanticizeError::new(String::from_str("no internal function mapping")),
                    ),
                }
            },
            ParseNode::Block(items, term) => {
                proof {
                    lemma_pnode_views(*items, 0);
                }
                let children = match lower_list(items, functions) {
                    Ok(v) => v,
                    Err(e) => {
                        return Err(e);
                    },
                };
                Ok(SemNode::Block(children, *term))
            },
            ParseNode::MemSet(target, value) => {
                let lt = match (**target).to_semantic_node(functions) {
                    Ok(v) => v,
                    Err(e) => {
                        return Err(e);
                    },
                };
                let lv = match (**value).to_semantic_node(functions) {
                    Ok(v) => v,
                    Err(e) => {
                        return Err(e);
                    },
                };
                Ok(SemNode::MemSet(Box::new(lt), Box::new(lv)))
            },
            ParseNode::FunctionParameter(_, _) => Err(
                SemanticizeError::new(String::from_str("unsupported parse node")),
            ),
        }
    }
}

/// Build the all-integer signature of a declaration with `n` parameters.
fn int_params_signature(n: usize) -> (r: Type)
    ensures
        r@ == int_signature(n as nat),
{
    let mut params: Vec<Type> = Vec::new();
    let mut k: usize = 0;
    while k < n
        invariant
            0 <= k <= n,
            params@.len() == k,
            forall|j: int| 0 <= j < k ==> params@[j] == Type::Int,
        decreases n - k,
    {
        params.push(Type::Int);
        k = k + 1;
    }
    let r = Type::Function(params, Some(Box::new(Type::Int)));
    proof {
        lemma_ty_views(r->Function_0, 0);
        assert(ty_view(Type::Int) == TyV::Int);
        assert(ty_views(r->Function_0, 0) =~= Seq::new(n as nat, |i: int| TyV::Int));
    }
    r
}

/// Lower each node of a list, stopping at the first error.
#[verifier::loop_isolation(false)]
fn lower_list(items: &Vec<ParseNode>, functions: &Vec<(Vec<u8>, u32)>) -> (r: Result<
    Vec<SemNode>,
    SemanticizeError,
>)
    ensures
        match r {
            Ok(v) => lower_pre(pnode_views(*items, 0), items@.len() as int, tbl_view(*functions))
                == Ok::<Seq<NodeV>, Seq<char>>(crate::semantic_tree::node_views(v, 0)),
            Err(e) => lower_pre(
                pnode_views(*items, 0),
                items@.len() as int,
                tbl_view(*functions),
            ) is Err && lower_pre(
                pnode_views(*items, 0),
                items@.len() as int,
                tbl_view(*functions),
            )->Err_0 == e.reason@,
        },
    decreases *items, 0int,
{
    let ghost pv = pnode_views(*items, 0);
    let ghost tv = tbl_view(*functions);
    proof {
        lemma_pnode_views(*items, 0);
    }
    let mut out: Vec<SemNode> = Vec::new();
    let mut k: usize = 0;
    while k < items.len()
        invariant
            0 <= k <= items@.len(),
            lower_pre(pv, k as int, tv) == Ok::<Seq<NodeV>, Seq<char>>(
                crate::semantic_tree::node_views(out, 0),
            ),
        decreases items@.len() - k,
    {
        proof {
            crate::semantic_tree::lemma_node_views(out, 0);
        }
        match items[k].to_semantic_node(functions) {
            Ok(n) => {
                let ghost out0 = out;
                out.push(n);
                proof {
                    crate::semantic_tree::lemma_node_views(out, 0);
                    assert(crate::semantic_tree::node_views(out, 0) =~= crate::semantic_tree::node_views(
                        out0,
                        0,
                    ).push(crate::semantic_tree::node_view(n)));
                }
                k = k + 1;
            },
            Err(e) => {
                proof {
                    lemma_lower_pre_err(pv, k as int + 1, items@.len() as int, tv);
                }
                return Err(e);
            },
        }
    }
    Ok(out)
}

impl Semanticize for ParseNode {
    open spec fn sem_spec(&self) -> Result<NodeV, Seq<char>> {
        sem_of(self@)
    }

    #[verifier::loop_isolation(false)]
    fn to_semantic_tree(&self) -> (r: Result<SemNode, SemanticizeError>) {
        let program_nodes = match self {
            ParseNode::Program(nodes) => nodes,
            _ => {
                return Err(SemanticizeError::new(String::from_str("must convert a program")));
            },
        };
        let ghost pv = pnode_views(*program_nodes, 0);
        proof {
            lemma_pnode_views(*program_nodes, 0);
        }
        let slen = program_nodes.len();
        if slen > u32::MAX as usize {
            return Err(
                SemanticizeError::new(String::from_str("too many function declarations")),
            );
        }
        let mut functions: Vec<(Vec<u8>, u32)> = Vec::new();
        proof {
            assert(tbl_view(functions) =~= Seq::<(Seq<u8>, u32)>::empty());
        }
        let mut k: usize = 0;
        while k < program_nodes.len()
            invariant
                0 <= k <= program_nodes@.len(),
                program_nodes@.len() <= u32::MAX as nat,
                pv == pnode_views(*program_nodes, 0),
                pv.len() == program_nodes@.len(),
                forall|j: int|
                    0 <= j < program_nodes@.len() ==> #[trigger] pv[j] == pnode_view(
                        program_nodes@[j],
                    ),
                table_pre(pv, k as int) == Ok::<Seq<(Seq<u8>, u32)>, Seq<char>>(
                    tbl_view(functions),
                ),
            decreases program_nodes@.len() - k,
        {
            match &program_nodes[k] {
                ParseNode::FunctionImplementation { name, .. } => {
                    match lookup_fn(&functions, name) {
                        Some(_) => {
                            proof {
                                lemma_table_pre_err(pv, k as int + 1, pv.len() as int);
                            }
                            return Err(
                                SemanticizeError::new(
                                    String::from_str("duplicate function name"),
                                ),
                            );
                        },
                        None => {
                            let nm = crate::codegen::clone_bytes(name);
                            let ghost f0 = functions;
                            functions.push((nm, k as u32));
                            proof {
                                assert(tbl_view(functions) =~= tbl_view(f0).push(
                                    (name@, k as u32),
                                ));
                            }
                        },
                    }
                },
                ParseNode::FunctionImport { name, .. } => {
                    match lookup_fn(&functions, name) {
                        Some(_) => {
                            proof {
                                lemma_table_pre_err(pv, k as int + 1, pv.len() as int);
                            }
                            return Err(
                                SemanticizeError::new(
                                    String::from_str("duplicate function name"),
                                ),
                            );
                        },
                        None => {
                            let nm = crate::codegen::clone_bytes(name);
                            let ghost f0 = functions;
                            functions.push((nm, k as u32));
                            proof {
                                assert(tbl_view(functions) =~= tbl_view(f0).push(
                                    (name@, k as u32),
                                ));
                            }
                        },
                    }
                },
                _ => {
                    proof {
                        lemma_table_pre_err(pv, k as int + 1, pv.len() as int);
                    }
                    return Err(
                        SemanticizeError::new(
                            String::from_str("must only have functions in program"),
                        ),
                    );
                },
            }
            k = k + 1;
        }
        self.to_semantic_node(&functions)
    }
}

} // verus!
