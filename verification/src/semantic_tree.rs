//! The typed intermediate representation: source types and semantic nodes,
//! with their mathematical views.
use vstd::prelude::*;

use crate::wasm::base::ValueType;
use crate::wasm::sections::type_section::FuncType;
use crate::wasm::{FuncId, LocalId};

pub mod semanticize;

verus! {

/// A source-language type: the 32-bit integer, or a function type over other
/// source types with an optional result.
#[derive(Debug, Eq, PartialEq, Hash)]
pub enum Type {
    Int,
    Function(Vec<Type>, Option<Box<Type>>),
}

/// The mathematical shape of a source type; equality on it is structural.
#[verifier::ext_equal]
pub enum TyV {
    Int,
    Func(Seq<TyV>, Option<Box<TyV>>),
}

/// The view of one source type.
pub open spec fn ty_view(t: Type) -> TyV
    decreases t, 1int,
{
    match t {
        Type::Int => TyV::Int,
        Type::Function(params, ret) => TyV::Func(
            ty_views(params, 0),
            match ret {
                Some(b) => Some(Box::new(ty_view(*b))),
                None => None,
            },
        ),
    }
}

/// The views of the source types `v[i..]`.
pub open spec fn ty_views(v: Vec<Type>, i: int) -> Seq<TyV>
    decreases v, 0int, v.len() - i,
{
    if i < 0 || i >= v.len() {
        Seq::empty()
    } else {
        seq![ty_view(v[i])] + ty_views(v, i + 1)
    }
}

/// `ty_views(v, i)` holds one view per remaining element, in order.
pub proof fn lemma_ty_views(v: Vec<Type>, i: int)
    requires
        0 <= i <= v.len(),
    ensures
        ty_views(v, i).len() == v.len() - i,
        forall|k: int| 0 <= k < v.len() - i ==> #[trigger] ty_views(v, i)[k] == ty_view(v[i + k]),
    decreases v.len() - i,
{
    if i < v.len() {
        lemma_ty_views(v, i + 1);
    }
}

impl View for Type {
    type V = TyV;

    open spec fn view(&self) -> TyV {
        ty_view(*self)
    }
}

impl Clone for Type {
    /// A clone has the same view, hence the same structure.
    fn clone(&self) -> (r: Self)
        ensures
            r@ == self@,
        decreases self, 1int,
    {
        match self {
            Type::Int => Type::Int,
            Type::Function(params, ret) => {
                let ps = clone_ty_vec(params);
                let r2: Option<Box<Type>> = match ret {
                    Some(b) => Some(Box::new((**b).clone())),
                    None => None,
                };
                proof {
                    lemma_ty_views(ps, 0);
                    lemma_ty_views(*params, 0);
                    assert(ty_views(ps, 0) =~= ty_views(*params, 0));
                }
                Type::Function(ps, r2)
            },
        }
    }
}

/// Clone a vector of source types; every element keeps its view.
pub fn clone_ty_vec(v: &Vec<Type>) -> (r: Vec<Type>)
    ensures
        r.len() == v.len(),
        forall|j: int| 0 <= j < v.len() ==> #[trigger] ty_view(r[j]) == ty_view(v[j]),
    decreases *v, 0int,
{
    let mut ps: Vec<Type> = Vec::new();
    let mut k: usize = 0;
    while k < v.len()
        invariant
            0 <= k <= v.len(),
            ps.len() == k,
            forall|j: int| 0 <= j < k ==> #[trigger] ty_view(ps[j]) == ty_view(v[j]),
        decreases v.len() - k,
    {
        ps.push(v[k].clone());
        k = k + 1;
    }
    ps
}

impl Type {
    /// The Wasm value type a source type lowers to: only `Int` has one.
    pub open spec fn to_wasm_value_type_spec(t: TyV) -> Option<ValueType> {
        match t {
            TyV::Int => Some(ValueType::I32),
            _ => None,
        }
    }

    /// The parameter value types of a function type, when every parameter
    /// lowers.
    pub open spec fn params_value_types(ps: Seq<TyV>) -> Option<Seq<ValueType>>
        decreases ps.len(),
    {
        if ps.len() == 0 {
            Some(Seq::empty())
        } else {
            match (Type::params_value_types(ps.drop_last()), Type::to_wasm_value_type_spec(
                ps.last(),
            )) {
                (Some(init), Some(vt)) => Some(init.push(vt)),
                _ => None,
            }
        }
    }

    /// The parameter and result value types a source type lowers to, when it
    /// is a function type over emittable types.
    pub open spec fn to_wasm_func_type_spec(t: TyV) -> Option<(Seq<ValueType>, Seq<ValueType>)> {
        match t {
            TyV::Func(ps, ret) => match (
                Type::params_value_types(ps),
                match ret {
                    Some(b) => match Type::to_wasm_value_type_spec(*b) {
                        Some(vt) => Some(seq![vt]),
                        None => None,
                    },
                    None => Some(Seq::<ValueType>::empty()),
                },
            ) {
                (Some(pvs), Some(rvs)) => Some((pvs, rvs)),
                _ => None,
            },
            _ => None,
        }
    }

    /// Lower this type to a Wasm function type; `None` unless it is a
    /// function type whose parameters and result are all emittable.
    #[verifier::loop_isolation(false)]
    pub fn to_wasm_func_type(&self) -> (r: Option<FuncType>)
        ensures
            match Type::to_wasm_func_type_spec(self@) {
                Some((pvs, rvs)) => match r {
                    Some(ft) => ft.parameters@ == pvs && ft.results@ == rvs,
                    None => false,
                },
                None => r is None,
            },
    {
        match self {
            Type::Function(params, ret) => {
                proof {
                    lemma_ty_views(*params, 0);
                }
                let mut pvs: Vec<ValueType> = Vec::new();
                let mut k: usize = 0;
                while k < params.len()
                    invariant
                        0 <= k <= params.len(),
                        ty_views(*params, 0).len() == params.len(),
                        forall|j: int| 0 <= j < params.len() ==> #[trigger] ty_views(*params, 0)[j]
                            == ty_view(params[j]),
                        Type::params_value_types(ty_views(*params, 0).take(k as int)) == Some(
                            pvs@,
                        ),
                    decreases params.len() - k,
                {
                    let vt = match params[k].to_wasm_value_type() {
                        Some(vt) => vt,
                        None => {
                            proof {
                                lemma_params_value_types_fail(
                                    ty_views(*params, 0),
                                    params.len() as int,
                                    k as int,
                                );
                                assert(ty_views(*params, 0).take(params.len() as int) =~= ty_views(
                                    *params,
                                    0,
                                ));
                            }
                            return None;
                        },
                    };
                    pvs.push(vt);
                    proof {
                        assert(ty_views(*params, 0).take(k + 1).drop_last() =~= ty_views(
                            *params,
                            0,
                        ).take(k as int));
                    }
                    k = k + 1;
                }
                proof {
                    assert(ty_views(*params, 0).take(params.len() as int) =~= ty_views(
                        *params,
                        0,
                    ));
                }
                let rvs: Vec<ValueType> = match ret {
                    Some(b) => match (**b).to_wasm_value_type() {
                        Some(vt) => {
                            let mut v: Vec<ValueType> = Vec::new();
                            v.push(vt);
                            proof {
                                assert(v@ =~= seq![vt]);
                            }
                            v
                        },
                        None => {
                            return None;
                        },
                    },
                    None => Vec::new(),
                };
                Some(FuncType { parameters: pvs, results: rvs })
            },
            _ => None,
        }
    }

    /// Lower this type to a Wasm value type; `None` unless it is `Int`.
    pub fn to_wasm_value_type(&self) -> (r: Option<ValueType>)
        ensures
            r == Type::to_wasm_value_type_spec(self@),
    {
        match self {
            Type::Int => Some(ValueType::I32),
            _ => None,
        }
    }
}

/// If one parameter fails to lower, the whole parameter list fails.
pub proof fn lemma_params_value_types_fail(ps: Seq<TyV>, n: int, k: int)
    requires
        0 <= k < n <= ps.len(),
        Type::to_wasm_value_type_spec(ps[k]) is None,
    ensures
        Type::params_value_types(ps.take(n)) is None,
    decreases n,
{
    if k == n - 1 {
        assert(ps.take(n).last() == ps[k]);
    } else {
        lemma_params_value_types_fail(ps, n - 1, k);
        assert(ps.take(n).drop_last() =~= ps.take(n - 1));
    }
}

/// How a declared function is given: imported from a host module, or
/// implemented with locals and a body.
pub enum FunctionDefinition {
    Import(Vec<u8>, Vec<u8>),
    Implementation(Vec<Type>, Box<Node>),
}

/// A node of the typed IR.
pub enum Node {
    Root(Vec<Node>),
    FunctionDeclaration(FuncId, Type, FunctionDefinition),
    IntegerConstant(i64),
    Local(LocalId),
    MemSet(Box<Node>, Box<Node>),
    Call(FuncId, Vec<Node>),
    Block(Vec<Node>, bool),
}

/// The mathematical shape of a function definition.
pub enum FnDefV {
    Import(Seq<u8>, Seq<u8>),
    Implementation(Seq<TyV>, Box<NodeV>),
}

/// The mathematical shape of an IR node.
#[verifier::ext_equal]
pub enum NodeV {
    Root(Seq<NodeV>),
    FunctionDeclaration(FuncId, TyV, FnDefV),
    IntegerConstant(i64),
    Local(LocalId),
    MemSet(Box<NodeV>, Box<NodeV>),
    Call(FuncId, Seq<NodeV>),
    Block(Seq<NodeV>, bool),
}

/// The view of one IR node.
pub open spec fn node_view(n: Node) -> NodeV
    decreases n, 2int,
{
    match n {
        Node::Root(children) => NodeV::Root(node_views(children, 0)),
        Node::FunctionDeclaration(id, ty, def) => NodeV::FunctionDeclaration(
            id,
            ty_view(ty),
            fndef_view(def),
        ),
        Node::IntegerConstant(i) => NodeV::IntegerConstant(i),
        Node::Local(l) => NodeV::Local(l),
        Node::MemSet(a, v) => NodeV::MemSet(Box::new(node_view(*a)), Box::new(node_view(*v))),
        Node::Call(f, args) => NodeV::Call(f, node_views(args, 0)),
        Node::Block(items, term) => NodeV::Block(node_views(items, 0), term),
    }
}

/// The views of the IR nodes `v[i..]`.
pub open spec fn node_views(v: Vec<Node>, i: int) -> Seq<NodeV>
    decreases v, 0int, v.len() - i,
{
    if i < 0 || i >= v.len() {
        Seq::empty()
    } else {
        seq![node_view(v[i])] + node_views(v, i + 1)
    }
}

/// The view of a function definition.
pub open spec fn fndef_view(d: FunctionDefinition) -> FnDefV
    decreases d, 1int,
{
    match d {
        FunctionDefinition::Import(m, n) => FnDefV::Import(m@, n@),
        FunctionDefinition::Implementation(locals, body) => FnDefV::Implementation(
            ty_views(locals, 0),
            Box::new(node_view(*body)),
        ),
    }
}

/// `node_views(v, i)` holds one view per remaining element, in order.
pub proof fn lemma_node_views(v: Vec<Node>, i: int)
    requires
        0 <= i <= v.len(),
    ensures
        node_views(v, i).len() == v.len() - i,
        forall|k: int| 0 <= k < v.len() - i ==> #[trigger] node_views(v, i)[k] == node_view(
            v[i + k],
        ),
    decreases v.len() - i,
{
    if i < v.len() {
        lemma_node_views(v, i + 1);
    }
}

impl View for Node {
    type V = NodeV;

    open spec fn view(&self) -> NodeV {
        node_view(*self)
    }
}

impl View for FunctionDefinition {
    type V = FnDefV;

    open spec fn view(&self) -> FnDefV {
        fndef_view(*self)
    }
}

} // verus!
