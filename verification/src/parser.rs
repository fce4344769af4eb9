//! The Tarn parser: a recursive-descent reading of the source grammar, with
//! ordered choice and backtracking exactly as the grammar cascades.
//!
//! Each specification function consumes a prefix of the byte string and
//! reports how many bytes it took; the executable functions mirror them rule
//! for rule.
use vstd::prelude::*;

verus! {

/// A node of the parse tree. Names are kept as their UTF-8 bytes.
#[derive(Debug)]
pub enum Node {
    Program(Vec<Node>),
    Identifier(Vec<u8>),
    IntegerLiteral(i64),
    Block(Vec<Node>, bool),
    Call(Box<Node>, Vec<Node>),
    FunctionImplementation { name: Vec<u8>, params: Vec<Node>, return_type: Box<Node>, body: Box<Node> },
    FunctionImport { name: Vec<u8>, module: Vec<u8>, params: Vec<Node>, return_type: Box<Node> },
    FunctionParameter(Vec<u8>, Box<Node>),
    MemSet(Box<Node>, Box<Node>),
}

/// The mathematical shape of a parse-tree node.
#[verifier::ext_equal]
pub enum PNodeV {
    Program(Seq<PNodeV>),
    Identifier(Seq<u8>),
    IntegerLiteral(i64),
    Block(Seq<PNodeV>, bool),
    Call(Box<PNodeV>, Seq<PNodeV>),
    FunctionImplementation { name: Seq<u8>, params: Seq<PNodeV>, return_type: Box<PNodeV>, body: Box<PNodeV> },
    FunctionImport { name: Seq<u8>, module: Seq<u8>, params: Seq<PNodeV>, return_type: Box<PNodeV> },
    FunctionParameter(Seq<u8>, Box<PNodeV>),
    MemSet(Box<PNodeV>, Box<PNodeV>),
}

/// The view of one parse-tree node.
pub open spec fn pnode_view(n: Node) -> PNodeV
    decreases n, 1int,
{
    match n {
        Node::Program(items) => PNodeV::Program(pnode_views(items, 0)),
        Node::Identifier(name) => PNodeV::Identifier(name@),
        Node::IntegerLiteral(v) => PNodeV::IntegerLiteral(v),
        Node::Block(items, term) => PNodeV::Block(pnode_views(items, 0), term),
        Node::Call(callee, args) => PNodeV::Call(
            Box::new(pnode_view(*callee)),
            pnode_views(args, 0),
        ),
        Node::FunctionImplementation { name, params, return_type, body } => PNodeV::FunctionImplementation {
            name: name@,
            params: pnode_views(params, 0),
            return_type: Box::new(pnode_view(*return_type)),
            body: Box::new(pnode_view(*body)),
        },
        Node::FunctionImport { name, module, params, return_type } => PNodeV::FunctionImport {
            name: name@,
            module: module@,
            params: pnode_views(params, 0),
            return_type: Box::new(pnode_view(*return_type)),
        },
        Node::FunctionParameter(name, ty) => PNodeV::FunctionParameter(
            name@,
            Box::new(pnode_view(*ty)),
        ),
        Node::MemSet(target, value) => PNodeV::MemSet(
            Box::new(pnode_view(*target)),
            Box::new(pnode_view(*value)),
        ),
    }
}

/// The views of the parse-tree nodes `v[i..]`.
pub open spec fn pnode_views(v: Vec<Node>, i: int) -> Seq<PNodeV>
    decreases v, 0int, v.len() - i,
{
    if i < 0 || i >= v.len() {
        Seq::empty()
    } else {
        seq![pnode_view(v[i])] + pnode_views(v, i + 1)
    }
}

/// `pnode_views(v, i)` holds one view per remaining element, in order.
pub proof fn lemma_pnode_views(v: Vec<Node>, i: int)
    requires
        0 <= i <= v.len(),
    ensures
        pnode_views(v, i).len() == v.len() - i,
        forall|k: int|
            0 <= k < v.len() - i ==> #[trigger] pnode_views(v, i)[k] == pnode_view(v[i + k]),
    decreases v.len() - i,
{
    if i < v.len() {
        lemma_pnode_views(v, i + 1);
    }
}

impl View for Node {
    type V = PNodeV;

    open spec fn view(&self) -> PNodeV {
        pnode_view(*self)
    }
}

/// A syntax error: the byte offset past the longest parsed prefix.
#[derive(Debug, Clone)]
pub struct ParseError {
    pub offset: usize,
}

/// Whitespace is space, newline or tab.
pub open spec fn is_ws(b: u8) -> bool {
    b == 32 || b == 10 || b == 9
}

pub open spec fn is_ident_start(b: u8) -> bool {
    (65 <= b && b <= 90) || (97 <= b && b <= 122) || b == 95
}

pub open spec fn is_ident_char(b: u8) -> bool {
    is_ident_start(b) || (48 <= b && b <= 57)
}

pub open spec fn is_digit(b: u8) -> bool {
    48 <= b && b <= 57
}

/// The run of whitespace bytes starting at `i`.
pub open spec fn ws_len(s: Seq<u8>, i: int) -> nat
    decreases s.len() - i,
{
    if 0 <= i < s.len() && is_ws(s[i]) {
        1 + ws_len(s, i + 1)
    } else {
        0
    }
}

/// The run of identifier characters starting at `i`.
pub open spec fn ident_len(s: Seq<u8>, i: int) -> nat
    decreases s.len() - i,
{
    if 0 <= i < s.len() && is_ident_char(s[i]) {
        1 + ident_len(s, i + 1)
    } else {
        0
    }
}

/// The run of decimal digits starting at `i`.
pub open spec fn digits_len(s: Seq<u8>, i: int) -> nat
    decreases s.len() - i,
{
    if 0 <= i < s.len() && is_digit(s[i]) {
        1 + digits_len(s, i + 1)
    } else {
        0
    }
}

/// The run of semicolons starting at `i`.
pub open spec fn semi_len(s: Seq<u8>, i: int) -> nat
    decreases s.len() - i,
{
    if 0 <= i < s.len() && s[i] == 59 {
        1 + semi_len(s, i + 1)
    } else {
        0
    }
}

/// The value of the `n` decimal digits starting at `i`.
pub open spec fn digits_val(s: Seq<u8>, i: int, n: nat) -> nat
    decreases n,
{
    if n == 0 {
        0
    } else {
        (digits_val(s, i, (n - 1) as nat) * 10 + (s[i + n - 1] - 48)) as nat
    }
}

/// The bytes at `i` start with the word `w`.
pub open spec fn starts_with(s: Seq<u8>, i: int, w: Seq<u8>) -> bool {
    0 <= i && i + w.len() <= s.len() && s.subrange(i, i + w.len() as int) == w
}

pub open spec fn lit_fn() -> Seq<u8> {
    seq![102u8, 110u8]
}

pub open spec fn lit_import() -> Seq<u8> {
    seq![105u8, 109u8, 112u8, 111u8, 114u8, 116u8]
}

pub open spec fn lit_set() -> Seq<u8> {
    seq![115u8, 101u8, 116u8, 33u8]
}

pub open spec fn lit_arrow() -> Seq<u8> {
    seq![45u8, 62u8]
}

/// An identifier at `i`: an identifier-start byte followed by identifier
/// characters, not starting with a reserved word.
pub open spec fn sp_ident(s: Seq<u8>, i: int) -> Option<(Seq<u8>, nat)> {
    if starts_with(s, i, lit_fn()) || starts_with(s, i, lit_import()) {
        None
    } else if 0 <= i < s.len() && is_ident_start(s[i]) {
        let n = 1 + ident_len(s, i + 1);
        Some((s.subrange(i, i + n), n))
    } else {
        None
    }
}

/// An integer literal at `i`: an optional minus sign then decimal digits,
/// rejected when its value does not fit an `i64`.
pub open spec fn sp_integer(s: Seq<u8>, i: int) -> Option<(PNodeV, nat)> {
    let neg = 0 <= i < s.len() && s[i] == 45;
    let j = if neg { i + 1 } else { i };
    let n = digits_len(s, j);
    if n == 0 {
        None
    } else {
        let v = digits_val(s, j, n) as int;
        let sv = if neg { -v } else { v };
        if sv < i64::MIN as int || sv > i64::MAX as int {
            None
        } else {
            Some((PNodeV::IntegerLiteral(sv as i64), (if neg { 1 + n } else { n })))
        }
    }
}

/// A type at `i`: just an identifier.
pub open spec fn sp_typ(s: Seq<u8>, i: int) -> Option<(PNodeV, nat)> {
    match sp_ident(s, i) {
        Some((name, n)) => Some((PNodeV::Identifier(name), n)),
        None => None,
    }
}

/// The clamped count of bytes left at `i`; the parser's termination measure.
pub open spec fn rem(s: Seq<u8>, i: int) -> int {
    if i <= s.len() {
        s.len() - i
    } else {
        0
    }
}

/// An expression: the cascade starts at `set!`.
pub open spec fn sp_expr(s: Seq<u8>, i: int) -> Option<(PNodeV, nat)>
    decreases rem(s, i), 6int,
{
    sp_mem_set(s, i)
}

/// `set!` with a target and a value expression, or the next rule down.
pub open spec fn sp_mem_set(s: Seq<u8>, i: int) -> Option<(PNodeV, nat)>
    decreases rem(s, i), 5int,
{
    if starts_with(s, i, lit_set()) && ws_len(s, i + 4) > 0 {
        let w1 = ws_len(s, i + 4);
        match sp_expr(s, i + 4 + w1) {
            Some((target, n1)) => {
                let p = i + 4 + w1 + n1;
                if ws_len(s, p) > 0 {
                    let w2 = ws_len(s, p);
                    match sp_expr(s, p + w2) {
                        Some((value, n2)) => Some(
                            (
                                PNodeV::MemSet(Box::new(target), Box::new(value)),
                                4 + w1 + n1 + w2 + n2,
                            ),
                        ),
                        None => sp_block(s, i),
                    }
                } else {
                    sp_block(s, i)
                }
            },
            None => sp_block(s, i),
        }
    } else {
        sp_block(s, i)
    }
}

/// A braced statement list with an optional terminating semicolon, or the
/// next rule down.
pub open spec fn sp_block(s: Seq<u8>, i: int) -> Option<(PNodeV, nat)>
    decreases rem(s, i), 4int,
{
    if 0 <= i < s.len() && s[i] == 123 {
        let w0 = ws_len(s, i + 1);
        let (stmts, n) = sp_stmts(s, i + 1 + w0);
        let p = i + 1 + w0 + n;
        let w1 = ws_len(s, p);
        let term = p + w1 < s.len() && s[p + w1] == 59;
        let t: nat = if term {
            1
        } else {
            0
        };
        let w2 = ws_len(s, p + w1 + t);
        let q = p + w1 + t + w2;
        if q < s.len() && s[q] == 125 {
            Some((PNodeV::Block(stmts, term), 1 + w0 + n + w1 + t + w2 + 1))
        } else {
            sp_call(s, i)
        }
    } else {
        sp_call(s, i)
    }
}

/// Statements separated by `;` with surrounding whitespace; never fails, and
/// consumes nothing after the last statement.
pub open spec fn sp_stmts(s: Seq<u8>, i: int) -> (Seq<PNodeV>, nat)
    decreases rem(s, i), 8int,
{
    match sp_expr(s, i) {
        Some((first, n1)) => {
            let (rest, n2) = sp_stmts_more(s, i + n1);
            (seq![first] + rest, n1 + n2)
        },
        None => (Seq::empty(), 0),
    }
}

/// Further `; expression` steps after a statement; backtracks the separator
/// when no expression follows.
pub open spec fn sp_stmts_more(s: Seq<u8>, i: int) -> (Seq<PNodeV>, nat)
    decreases rem(s, i), 7int,
{
    let w1 = ws_len(s, i);
    if i + w1 < s.len() && s[i + w1] == 59 {
        let w2 = ws_len(s, i + w1 + 1);
        match sp_expr(s, i + w1 + 1 + w2) {
            Some((e, n)) => {
                let (rest, n2) = sp_stmts_more(s, i + w1 + 1 + w2 + n);
                (seq![e] + rest, w1 + 1 + w2 + n + n2)
            },
            None => (Seq::empty(), 0),
        }
    } else {
        (Seq::empty(), 0)
    }
}

/// An atom, optionally applied to a parenthesised argument list.
pub open spec fn sp_call(s: Seq<u8>, i: int) -> Option<(PNodeV, nat)>
    decreases rem(s, i), 3int,
{
    match sp_atom(s, i) {
        Some((a, na)) => {
            let j = i + na;
            if j < s.len() && s[j] == 40 {
                let w0 = ws_len(s, j + 1);
                let (args, n) = sp_args(s, j + 1 + w0);
                let p = j + 1 + w0 + n;
                let w1 = ws_len(s, p);
                if p + w1 < s.len() && s[p + w1] == 41 {
                    Some((PNodeV::Call(Box::new(a), args), na + 1 + w0 + n + w1 + 1))
                } else {
                    Some((a, na))
                }
            } else {
                Some((a, na))
            }
        },
        None => None,
    }
}

/// Call arguments separated by `,` with surrounding whitespace.
pub open spec fn sp_args(s: Seq<u8>, i: int) -> (Seq<PNodeV>, nat)
    decreases rem(s, i), 8int,
{
    match sp_expr(s, i) {
        Some((first, n1)) => {
            let (rest, n2) = sp_args_more(s, i + n1);
            (seq![first] + rest, n1 + n2)
        },
        None => (Seq::empty(), 0),
    }
}

/// Further `, expression` steps after an argument.
pub open spec fn sp_args_more(s: Seq<u8>, i: int) -> (Seq<PNodeV>, nat)
    decreases rem(s, i), 7int,
{
    let w1 = ws_len(s, i);
    if i + w1 < s.len() && s[i + w1] == 44 {
        let w2 = ws_len(s, i + w1 + 1);
        match sp_expr(s, i + w1 + 1 + w2) {
            Some((e, n)) => {
                let (rest, n2) = sp_args_more(s, i + w1 + 1 + w2 + n);
                (seq![e] + rest, w1 + 1 + w2 + n + n2)
            },
            None => (Seq::empty(), 0),
        }
    } else {
        (Seq::empty(), 0)
    }
}

/// An identifier, an integer literal, or a parenthesised expression.
pub open spec fn sp_atom(s: Seq<u8>, i: int) -> Option<(PNodeV, nat)>
    decreases rem(s, i), 2int,
{
    match sp_ident(s, i) {
        Some((name, n)) => Some((PNodeV::Identifier(name), n)),
        None => match sp_integer(s, i) {
            Some(r) => Some(r),
            None => {
                if 0 <= i < s.len() && s[i] == 40 {
                    let w0 = ws_len(s, i + 1);
                    match sp_expr(s, i + 1 + w0) {
                        Some((e, n)) => {
                            let p = i + 1 + w0 + n;
                            let w1 = ws_len(s, p);
                            if p + w1 < s.len() && s[p + w1] == 41 {
                                Some((e, 1 + w0 + n + w1 + 1))
                            } else {
                                None
                            }
                        },
                        None => None,
                    }
                } else {
                    None
                }
            },
        },
    }
}

/// `name : Type`, one formal parameter.
pub open spec fn sp_param(s: Seq<u8>, i: int) -> Option<(PNodeV, nat)> {
    match sp_ident(s, i) {
        Some((name, n1)) => {
            let w1 = ws_len(s, i + n1);
            let p = i + n1 + w1;
            if p < s.len() && s[p] == 58 {
                let w2 = ws_len(s, p + 1);
                match sp_typ(s, p + 1 + w2) {
                    Some((ty, n2)) => Some(
                        (
                            PNodeV::FunctionParameter(name, Box::new(ty)),
                            n1 + w1 + 1 + w2 + n2,
                        ),
                    ),
                    None => None,
                }
            } else {
                None
            }
        },
        None => None,
    }
}

/// Parameters separated by `,` followed by whitespace.
pub open spec fn sp_params(s: Seq<u8>, i: int) -> (Seq<PNodeV>, nat) {
    match sp_param(s, i) {
        Some((first, n1)) => {
            let (rest, n2) = sp_params_more(s, i + n1);
            (seq![first] + rest, n1 + n2)
        },
        None => (Seq::empty(), 0),
    }
}

/// Further `, parameter` steps; the comma comes right after the previous
/// parameter and may be followed by whitespace.
pub open spec fn sp_params_more(s: Seq<u8>, i: int) -> (Seq<PNodeV>, nat)
    decreases rem(s, i),
{
    if 0 <= i < s.len() && s[i] == 44 {
        let w = ws_len(s, i + 1);
        match sp_param(s, i + 1 + w) {
            Some((p, n)) => {
                let (rest, n2) = sp_params_more(s, i + 1 + w + n);
                (seq![p] + rest, 1 + w + n + n2)
            },
            None => (Seq::empty(), 0),
        }
    } else {
        (Seq::empty(), 0)
    }
}

/// `fn name(params) -> Type body`.
pub open spec fn sp_fn_impl(s: Seq<u8>, i: int) -> Option<(PNodeV, nat)> {
    if starts_with(s, i, lit_fn()) && ws_len(s, i + 2) > 0 {
        let w1 = ws_len(s, i + 2);
        match sp_ident(s, i + 2 + w1) {
            Some((name, nn)) => {
                let p = i + 2 + w1 + nn;
                if p < s.len() && s[p] == 40 {
                    let w2 = ws_len(s, p + 1);
                    let (params, np) = sp_params(s, p + 1 + w2);
                    let q = p + 1 + w2 + np;
                    let w3 = ws_len(s, q);
                    if q + w3 < s.len() && s[q + w3] == 41 {
                        let q2 = q + w3 + 1;
                        let w4 = ws_len(s, q2);
                        if starts_with(s, q2 + w4, lit_arrow()) {
                            let q3 = q2 + w4 + 2;
                            let w5 = ws_len(s, q3);
                            match sp_typ(s, q3 + w5) {
                                Some((rt, nt)) => {
                                    let q4 = q3 + w5 + nt;
                                    let w6 = ws_len(s, q4);
                                    if w6 > 0 {
                                        match sp_expr(s, q4 + w6) {
                                            Some((body, nb)) => Some(
                                                (
                                                    PNodeV::FunctionImplementation {
                                                        name,
                                                        params,
                                                        return_type: Box::new(rt),
                                                        body: Box::new(body),
                                                    },
                                                    2 + w1 + nn + 1 + w2 + np + w3 + 1 + w4 + 2
                                                        + w5 + nt + w6 + nb,
                                                ),
                                            ),
                                            None => None,
                                        }
                                    } else {
                                        None
                                    }
                                },
                                None => None,
                            }
                        } else {
                            None
                        }
                    } else {
                        None
                    }
                } else {
                    None
                }
            },
            None => None,
        }
    } else {
        None
    }
}

/// `import fn module name(params) -> Type ;`.
pub open spec fn sp_fn_import(s: Seq<u8>, i: int) -> Option<(PNodeV, nat)> {
    if starts_with(s, i, lit_import()) && ws_len(s, i + 6) > 0 {
        let w1 = ws_len(s, i + 6);
        let p0 = i + 6 + w1;
        if starts_with(s, p0, lit_fn()) && ws_len(s, p0 + 2) > 0 {
            let w2 = ws_len(s, p0 + 2);
            match sp_ident(s, p0 + 2 + w2) {
                Some((module, nm)) => {
                    let p1 = p0 + 2 + w2 + nm;
                    if ws_len(s, p1) > 0 {
                        let w3 = ws_len(s, p1);
                        match sp_ident(s, p1 + w3) {
                            Some((name, nn)) => {
                                let p = p1 + w3 + nn;
                                if p < s.len() && s[p] == 40 {
                                    let w4 = ws_len(s, p + 1);
                                    let (params, np) = sp_params(s, p + 1 + w4);
                                    let q = p + 1 + w4 + np;
                                    let w5 = ws_len(s, q);
                                    if q + w5 < s.len() && s[q + w5] == 41 {
                                        let q2 = q + w5 + 1;
                                        let w6 = ws_len(s, q2);
                                        if starts_with(s, q2 + w6, lit_arrow()) {
                                            let q3 = q2 + w6 + 2;
                                            let w7 = ws_len(s, q3);
                                            match sp_typ(s, q3 + w7) {
                                                Some((rt, nt)) => {
                                                    let q4 = q3 + w7 + nt;
                                                    let w8 = ws_len(s, q4);
                                                    if q4 + w8 < s.len() && s[q4 + w8] == 59 {
                                                        Some(
                                                            (
                                                                PNodeV::FunctionImport {
                                                                    name,
                                                                    module,
                                                                    params,
                                                                    return_type: Box::new(rt),
                                                                },
                                                                6 + w1 + 2 + w2 + nm + w3 + nn + 1
                                                                    + w4 + np + w5 + 1 + w6 + 2
                                                                    + w7 + nt + w8 + 1,
                                                            ),
                                                        )
                                                    } else {
                                                        None
                                                    }
                                                },
                                                None => None,
                                            }
                                        } else {
                                            None
                                        }
                                    } else {
                                        None
                                    }
                                } else {
                                    None
                                }
                            },
                            None => None,
                        }
                    } else {
                        None
                    }
                },
                None => None,
            }
        } else {
            None
        }
    } else {
        None
    }
}

/// One top-level item: an import, else an implementation.
pub open spec fn sp_top_item(s: Seq<u8>, i: int) -> Option<(PNodeV, nat)> {
    match sp_fn_import(s, i) {
        Some(r) => Some(r),
        None => sp_fn_impl(s, i),
    }
}

/// Top-level items separated by whitespace and semicolon runs.
pub open spec fn sp_items(s: Seq<u8>, i: int) -> (Seq<PNodeV>, nat) {
    match sp_top_item(s, i) {
        Some((first, n1)) => {
            let (rest, n2) = sp_items_more(s, i + n1);
            (seq![first] + rest, n1 + n2)
        },
        None => (Seq::empty(), 0),
    }
}

/// Further separated items; the separator is whitespace, a run of
/// semicolons, then whitespace, and backtracks when no item follows.
pub open spec fn sp_items_more(s: Seq<u8>, i: int) -> (Seq<PNodeV>, nat)
    decreases rem(s, i),
{
    let w1 = ws_len(s, i);
    let t = semi_len(s, i + w1);
    let w2 = ws_len(s, i + w1 + t);
    match sp_top_item(s, i + w1 + t + w2) {
        Some((e, n)) => {
            if n > 0 {
                let (rest, n2) = sp_items_more(s, i + w1 + t + w2 + n);
                (seq![e] + rest, w1 + t + w2 + n + n2)
            } else {
                (seq![e], w1 + t + w2)
            }
        },
        None => (Seq::empty(), 0),
    }
}

/// A whole program: leading semicolons and whitespace, the items, trailing
/// semicolons and whitespace. Returns the program and how many bytes it
/// consumed; the parse succeeds only when that is the whole input.
pub open spec fn sp_program(s: Seq<u8>, i: int) -> (PNodeV, nat) {
    let t0 = semi_len(s, i);
    let w0 = ws_len(s, i + t0);
    let (items, n) = sp_items(s, i + t0 + w0);
    let p = i + t0 + w0 + n;
    let t1 = semi_len(s, p);
    let w1 = ws_len(s, p + t1);
    (PNodeV::Program(items), t0 + w0 + n + t1 + w1)
}

/// Scan past whitespace.
fn ws_end(s: &[u8], i: usize) -> (r: usize)
    requires
        i <= s@.len(),
    ensures
        r == i + ws_len(s@, i as int),
        i <= r <= s@.len(),
{
    let mut j = i;
    while j < s.len() && (s[j] == 32 || s[j] == 10 || s[j] == 9)
        invariant
            i <= j <= s@.len(),
            ws_len(s@, i as int) == (j - i) + ws_len(s@, j as int),
        decreases s@.len() - j,
    {
        j = j + 1;
    }
    j
}

/// Scan past identifier characters.
fn ident_end(s: &[u8], i: usize) -> (r: usize)
    requires
        i <= s@.len(),
    ensures
        r == i + ident_len(s@, i as int),
        i <= r <= s@.len(),
{
    let mut j = i;
    while j < s.len() && ((65 <= s[j] && s[j] <= 90) || (97 <= s[j] && s[j] <= 122) || s[j] == 95
        || (48 <= s[j] && s[j] <= 57))
        invariant
            i <= j <= s@.len(),
            ident_len(s@, i as int) == (j - i) + ident_len(s@, j as int),
        decreases s@.len() - j,
    {
        j = j + 1;
    }
    j
}

/// Scan past decimal digits.
fn digits_end(s: &[u8], i: usize) -> (r: usize)
    requires
        i <= s@.len(),
    ensures
        r == i + digits_len(s@, i as int),
        i <= r <= s@.len(),
{
    let mut j = i;
    while j < s.len() && 48 <= s[j] && s[j] <= 57
        invariant
            i <= j <= s@.len(),
            digits_len(s@, i as int) == (j - i) + digits_len(s@, j as int),
        decreases s@.len() - j,
    {
        j = j + 1;
    }
    j
}

/// Scan past semicolons.
fn semi_end(s: &[u8], i: usize) -> (r: usize)
    requires
        i <= s@.len(),
    ensures
        r == i + semi_len(s@, i as int),
        i <= r <= s@.len(),
{
    let mut j = i;
    while j < s.len() && s[j] == 59
        invariant
            i <= j <= s@.len(),
            semi_len(s@, i as int) == (j - i) + semi_len(s@, j as int),
        decreases s@.len() - j,
    {
        j = j + 1;
    }
    j
}

/// Copy the bytes `s[i..j]`.
fn copy_range(s: &[u8], i: usize, j: usize) -> (r: Vec<u8>)
    requires
        i <= j <= s@.len(),
    ensures
        r@ == s@.subrange(i as int, j as int),
{
    let mut out: Vec<u8> = Vec::new();
    let mut k = i;
    while k < j
        invariant
            i <= k <= j <= s@.len(),
            out@ == s@.subrange(i as int, k as int),
        decreases j - k,
    {
        out.push(s[k]);
        proof {
            assert(out@ =~= s@.subrange(i as int, k + 1));
        }
        k = k + 1;
    }
    out
}

/// Test for the word `fn`.
fn has_fn(s: &[u8], i: usize) -> (r: bool)
    requires
        i <= s@.len(),
    ensures
        r == starts_with(s@, i as int, lit_fn()),
{
    if s.len() - i < 2 {
        return false;
    }
    let r = s[i] == 102 && s[i + 1] == 110;
    proof {
        if starts_with(s@, i as int, lit_fn()) {
            assert(s@.subrange(i as int, i + 2)[0] == 102);
            assert(s@.subrange(i as int, i + 2)[1] == 110);
        }
        if r {
            assert(s@.subrange(i as int, i + 2) =~= lit_fn());
        }
    }
    r
}

/// Test for the word `import`.
fn has_import(s: &[u8], i: usize) -> (r: bool)
    requires
        i <= s@.len(),
    ensures
        r == starts_with(s@, i as int, lit_import()),
{
    if s.len() - i < 6 {
        return false;
    }
    let r = s[i] == 105 && s[i + 1] == 109 && s[i + 2] == 112 && s[i + 3] == 111 && s[i + 4]
        == 114 && s[i + 5] == 116;
    proof {
        if starts_with(s@, i as int, lit_import()) {
            assert(s@.subrange(i as int, i + 6)[0] == 105);
            assert(s@.subrange(i as int, i + 6)[1] == 109);
            assert(s@.subrange(i as int, i + 6)[2] == 112);
            assert(s@.subrange(i as int, i + 6)[3] == 111);
            assert(s@.subrange(i as int, i + 6)[4] == 114);
            assert(s@.subrange(i as int, i + 6)[5] == 116);
        }
        if r {
            assert(s@.subrange(i as int, i + 6) =~= lit_import());
        }
    }
    r
}

/// Test for the word `set!`.
fn has_set(s: &[u8], i: usize) -> (r: bool)
    requires
        i <= s@.len(),
    ensures
        r == starts_with(s@, i as int, lit_set()),
{
    if s.len() - i < 4 {
        return false;
    }
    let r = s[i] == 115 && s[i + 1] == 101 && s[i + 2] == 116 && s[i + 3] == 33;
    proof {
        if starts_with(s@, i as int, lit_set()) {
            assert(s@.subrange(i as int, i + 4)[0] == 115);
            assert(s@.subrange(i as int, i + 4)[1] == 101);
            assert(s@.subrange(i as int, i + 4)[2] == 116);
            assert(s@.subrange(i as int, i + 4)[3] == 33);
        }
        if r {
            assert(s@.subrange(i as int, i + 4) =~= lit_set());
        }
    }
    r
}

/// Test for the arrow `->`.
fn has_arrow(s: &[u8], i: usize) -> (r: bool)
    requires
        i <= s@.len(),
    ensures
        r == starts_with(s@, i as int, lit_arrow()),
{
    if s.len() - i < 2 {
        return false;
    }
    let r = s[i] == 45 && s[i + 1] == 62;
    proof {
        if starts_with(s@, i as int, lit_arrow()) {
            assert(s@.subrange(i as int, i + 2)[0] == 45);
            assert(s@.subrange(i as int, i + 2)[1] == 62);
        }
        if r {
            assert(s@.subrange(i as int, i + 2) =~= lit_arrow());
        }
    }
    r
}

/// Parse an identifier and return its bytes.
fn p_ident(s: &[u8], i: usize) -> (r: Option<(Vec<u8>, usize)>)
    requires
        i <= s@.len(),
    ensures
        match sp_ident(s@, i as int) {
            Some((name, n)) => r matches Some((v, j)) && v@ == name && j == i + n && i < j
                <= s@.len(),
            None => r is None,
        },
{
    if has_fn(s, i) || has_import(s, i) {
        return None;
    }
    if i < s.len() && ((65 <= s[i] && s[i] <= 90) || (97 <= s[i] && s[i] <= 122) || s[i] == 95) {
        let j = ident_end(s, i + 1);
        let name = copy_range(s, i, j);
        Some((name, j))
    } else {
        None
    }
}

/// Every byte inside a digit run is a digit.
proof fn lemma_digits_range(s: Seq<u8>, i: int)
    ensures
        forall|k: int| i <= k < i + digits_len(s, i) ==> is_digit(#[trigger] s[k]),
    decreases s.len() - i,
{
    if 0 <= i < s.len() && is_digit(s[i]) {
        lemma_digits_range(s, i + 1);
    }
}

/// Parse an integer literal.
#[verifier::loop_isolation(false)]
fn p_integer(s: &[u8], i: usize) -> (r: Option<(Node, usize)>)
    requires
        i <= s@.len(),
    ensures
        match sp_integer(s@, i as int) {
            Some((nv, n)) => r matches Some((node, j)) && node@ == nv && j == i + n && i < j
                <= s@.len(),
            None => r is None,
        },
{
    let neg = i < s.len() && s[i] == 45;
    let j = if neg {
        i + 1
    } else {
        i
    };
    let e = digits_end(s, j);
    if e == j {
        return None;
    }
    let ghost nd = digits_len(s@, j as int);
    proof {
        lemma_digits_range(s@, j as int);
    }
    let mut acc: u64 = 0;
    let mut big = false;
    let mut k = j;
    while k < e
        invariant
            j <= k <= e,
            !big ==> acc == digits_val(s@, j as int, (k - j) as nat),
            big ==> digits_val(s@, j as int, (k - j) as nat) > 0x8000_0000_0000_0000,
        decreases e - k,
    {
        let ghost kk = (k - j) as nat;
        let ghost prev = digits_val(s@, j as int, kk);
        proof {
            assert(is_digit(s@[j + kk]));
            assert(digits_val(s@, j as int, kk + 1) == prev * 10 + (s@[j + kk] - 48));
        }
        if big {
            proof {
                assert(prev * 10 + (s@[j + kk] - 48) > 0x8000_0000_0000_0000) by (nonlinear_arith)
                    requires
                        prev > 0x8000_0000_0000_0000,
                        s@[j + kk] >= 48,
                ;
            }
        } else if acc > (u64::MAX - 9) / 10 {
            big = true;
            proof {
                assert(prev * 10 + (s@[j + kk] - 48) > 0x8000_0000_0000_0000) by (nonlinear_arith)
                    requires
                        prev > (u64::MAX - 9) / 10,
                        s@[j + kk] >= 48,
                ;
            }
        } else {
            proof {
                assert(acc * 10 + 9 <= u64::MAX) by (nonlinear_arith)
                    requires
                        acc <= (u64::MAX - 9) / 10,
                ;
                assert(48 <= s@[k as int] <= 57);
            }
            let d = s[k] - 48;
            acc = acc * 10 + (d as u64);
        }
        k = k + 1;
    }
    if big {
        return None;
    }
    if neg {
        if acc > 0x8000_0000_0000_0000 {
            None
        } else if acc == 0x8000_0000_0000_0000 {
            Some((Node::IntegerLiteral(i64::MIN), e))
        } else {
            Some((Node::IntegerLiteral(-(acc as i64)), e))
        }
    } else {
        if acc > i64::MAX as u64 {
            None
        } else {
            Some((Node::IntegerLiteral(acc as i64), e))
        }
    }
}

/// Parse a type: an identifier.
pub fn typ(s: &[u8], i: usize) -> (r: Option<(Node, usize)>)
    requires
        i <= s@.len(),
    ensures
        match sp_typ(s@, i as int) {
            Some((nv, n)) => r matches Some((node, j)) && node@ == nv && j == i + n && i < j
                <= s@.len(),
            None => r is None,
        },
{
    match p_ident(s, i) {
        Some((name, j)) => Some((Node::Identifier(name), j)),
        None => None,
    }
}

/// Parse an expression: the cascade starts at `set!`.
pub fn expr(s: &[u8], i: usize) -> (r: Option<(Node, usize)>)
    requires
        i <= s@.len(),
    ensures
        match sp_expr(s@, i as int) {
            Some((nv, n)) => r matches Some((node, j)) && node@ == nv && j == i + n && i < j
                <= s@.len(),
            None => r is None,
        },
    decreases rem(s@, i as int), 6int,
{
    mem_set(s, i)
}

/// Parse `set!` with a target and a value, or fall through the cascade.
pub fn mem_set(s: &[u8], i: usize) -> (r: Option<(Node, usize)>)
    requires
        i <= s@.len(),
    ensures
        match sp_mem_set(s@, i as int) {
            Some((nv, n)) => r matches Some((node, j)) && node@ == nv && j == i + n && i < j
                <= s@.len(),
            None => r is None,
        },
    decreases rem(s@, i as int), 5int,
{
    let _slen: usize = s.len();
    if has_set(s, i) {
        proof {
            assert(lit_set().len() == 4);
        }
        let w1e = ws_end(s, i + 4);
        if w1e > i + 4 {
            match expr(s, w1e) {
                Some((t_node, p)) => {
                    let w2e = ws_end(s, p);
                    if w2e > p {
                        match expr(s, w2e) {
                            Some((v_node, q)) => Some(
                                (Node::MemSet(Box::new(t_node), Box::new(v_node)), q),
                            ),
                            None => block(s, i),
                        }
                    } else {
                        block(s, i)
                    }
                },
                None => block(s, i),
            }
        } else {
            block(s, i)
        }
    } else {
        block(s, i)
    }
}

/// Parse a braced statement list, or fall through the cascade.
fn block(s: &[u8], i: usize) -> (r: Option<(Node, usize)>)
    requires
        i <= s@.len(),
    ensures
        match sp_block(s@, i as int) {
            Some((nv, n)) => r matches Some((node, j)) && node@ == nv && j == i + n && i < j
                <= s@.len(),
            None => r is None,
        },
    decreases rem(s@, i as int), 4int,
{
    if i < s.len() && s[i] == 123 {
        let w0e = ws_end(s, i + 1);
        let (stmts_v, p) = stmts(s, w0e);
        let w1e = ws_end(s, p);
        let term = w1e < s.len() && s[w1e] == 59;
        let t: usize = if term {
            1
        } else {
            0
        };
        let w2e = ws_end(s, w1e + t);
        if w2e < s.len() && s[w2e] == 125 {
            Some((Node::Block(stmts_v, term), w2e + 1))
        } else {
            call(s, i)
        }
    } else {
        call(s, i)
    }
}

/// Parse statements separated by `;`.
fn stmts(s: &[u8], i: usize) -> (r: (Vec<Node>, usize))
    requires
        i <= s@.len(),
    ensures
        pnode_views(r.0, 0) == sp_stmts(s@, i as int).0,
        r.1 == i + sp_stmts(s@, i as int).1,
        i <= r.1 <= s@.len(),
    decreases rem(s@, i as int), 8int,
{
    match expr(s, i) {
        Some((first, j)) => {
            let (rest, j2) = stmts_more(s, j);
            let ghost rest0 = rest;
            let mut rest_mut = rest;
            let mut out: Vec<Node> = Vec::new();
            out.push(first);
            out.append(&mut rest_mut);
            proof {
                lemma_pnode_views(out, 0);
                lemma_pnode_views(rest0, 0);
                assert(pnode_views(out, 0) =~= seq![pnode_view(first)] + pnode_views(rest0, 0));
            }
            (out, j2)
        },
        None => {
            let out: Vec<Node> = Vec::new();
            proof {
                assert(pnode_views(out, 0) =~= Seq::<PNodeV>::empty());
            }
            (out, i)
        },
    }
}

/// Parse further `; expression` steps.
fn stmts_more(s: &[u8], i: usize) -> (r: (Vec<Node>, usize))
    requires
        i <= s@.len(),
    ensures
        pnode_views(r.0, 0) == sp_stmts_more(s@, i as int).0,
        r.1 == i + sp_stmts_more(s@, i as int).1,
        i <= r.1 <= s@.len(),
    decreases rem(s@, i as int), 7int,
{
    let w1e = ws_end(s, i);
    if w1e < s.len() && s[w1e] == 59 {
        let w2e = ws_end(s, w1e + 1);
        match expr(s, w2e) {
            Some((e_node, j)) => {
                let (rest, j2) = stmts_more(s, j);
                let ghost rest0 = rest;
                let mut rest_mut = rest;
                let mut out: Vec<Node> = Vec::new();
                out.push(e_node);
                out.append(&mut rest_mut);
                proof {
                    lemma_pnode_views(out, 0);
                    lemma_pnode_views(rest0, 0);
                    assert(pnode_views(out, 0) =~= seq![pnode_view(e_node)] + pnode_views(
                        rest0,
                        0,
                    ));
                }
                (out, j2)
            },
            None => {
                let out: Vec<Node> = Vec::new();
                proof {
                    assert(pnode_views(out, 0) =~= Seq::<PNodeV>::empty());
                }
                (out, i)
            },
        }
    } else {
        let out: Vec<Node> = Vec::new();
        proof {
            assert(pnode_views(out, 0) =~= Seq::<PNodeV>::empty());
        }
        (out, i)
    }
}

/// Parse an atom with an optional argument list.
fn call(s: &[u8], i: usize) -> (r: Option<(Node, usize)>)
    requires
        i <= s@.len(),
    ensures
        match sp_call(s@, i as int) {
            Some((nv, n)) => r matches Some((node, j)) && node@ == nv && j == i + n && i < j
                <= s@.len(),
            None => r is None,
        },
    decreases rem(s@, i as int), 3int,
{
    match atom(s, i) {
        Some((a, ja)) => {
            if ja < s.len() && s[ja] == 40 {
                let w0e = ws_end(s, ja + 1);
                let (args_v, p) = args(s, w0e);
                let w1e = ws_end(s, p);
                if w1e < s.len() && s[w1e] == 41 {
                    Some((Node::Call(Box::new(a), args_v), w1e + 1))
                } else {
                    Some((a, ja))
                }
            } else {
                Some((a, ja))
            }
        },
        None => None,
    }
}

/// Parse call arguments separated by `,`.
fn args(s: &[u8], i: usize) -> (r: (Vec<Node>, usize))
    requires
        i <= s@.len(),
    ensures
        pnode_views(r.0, 0) == sp_args(s@, i as int).0,
        r.1 == i + sp_args(s@, i as int).1,
        i <= r.1 <= s@.len(),
    decreases rem(s@, i as int), 8int,
{
    match expr(s, i) {
        Some((first, j)) => {
            let (rest, j2) = args_more(s, j);
            let ghost rest0 = rest;
            let mut rest_mut = rest;
            let mut out: Vec<Node> = Vec::new();
            out.push(first);
            out.append(&mut rest_mut);
            proof {
                lemma_pnode_views(out, 0);
                lemma_pnode_views(rest0, 0);
                assert(pnode_views(out, 0) =~= seq![pnode_view(first)] + pnode_views(rest0, 0));
            }
            (out, j2)
        },
        None => {
            let out: Vec<Node> = Vec::new();
            proof {
                assert(pnode_views(out, 0) =~= Seq::<PNodeV>::empty());
            }
            (out, i)
        },
    }
}

/// Parse further `, expression` steps.
fn args_more(s: &[u8], i: usize) -> (r: (Vec<Node>, usize))
    requires
        i <= s@.len(),
    ensures
        pnode_views(r.0, 0) == sp_args_more(s@, i as int).0,
        r.1 == i + sp_args_more(s@, i as int).1,
        i <= r.1 <= s@.len(),
    decreases rem(s@, i as int), 7int,
{
    let w1e = ws_end(s, i);
    if w1e < s.len() && s[w1e] == 44 {
        let w2e = ws_end(s, w1e + 1);
        match expr(s, w2e) {
            Some((e_node, j)) => {
                let (rest, j2) = args_more(s, j);
                let ghost rest0 = rest;
                let mut rest_mut = rest;
                let mut out: Vec<Node> = Vec::new();
                out.push(e_node);
                out.append(&mut rest_mut);
                proof {
                    lemma_pnode_views(out, 0);
                    lemma_pnode_views(rest0, 0);
                    assert(pnode_views(out, 0) =~= seq![pnode_view(e_node)] + pnode_views(
                        rest0,
                        0,
                    ));
                }
                (out, j2)
            },
            None => {
                let out: Vec<Node> = Vec::new();
                proof {
                    assert(pnode_views(out, 0) =~= Seq::<PNodeV>::empty());
                }
                (out, i)
            },
        }
    } else {
        let out: Vec<Node> = Vec::new();
        proof {
            assert(pnode_views(out, 0) =~= Seq::<PNodeV>::empty());
        }
        (out, i)
    }
}

/// Parse an identifier, an integer literal, or a parenthesised expression.
fn atom(s: &[u8], i: usize) -> (r: Option<(Node, usize)>)
    requires
        i <= s@.len(),
    ensures
        match sp_atom(s@, i as int) {
            Some((nv, n)) => r matches Some((node, j)) && node@ == nv && j == i + n && i < j
                <= s@.len(),
            None => r is None,
        },
    decreases rem(s@, i as int), 2int,
{
    match p_ident(s, i) {
        Some((name, j)) => Some((Node::Identifier(name), j)),
        None => match p_integer(s, i) {
            Some(r) => Some(r),
            None => {
                if i < s.len() && s[i] == 40 {
                    let w0e = ws_end(s, i + 1);
                    match expr(s, w0e) {
                        Some((e_node, p)) => {
                            let w1e = ws_end(s, p);
                            if w1e < s.len() && s[w1e] == 41 {
                                Some((e_node, w1e + 1))
                            } else {
                                None
                            }
                        },
                        None => None,
                    }
                } else {
                    None
                }
            },
        },
    }
}

/// Parse one formal parameter `name : Type`.
fn function_parameter(s: &[u8], i: usize) -> (r: Option<(Node, usize)>)
    requires
        i <= s@.len(),
    ensures
        match sp_param(s@, i as int) {
            Some((nv, n)) => r matches Some((node, j)) && node@ == nv && j == i + n && i < j
                <= s@.len(),
            None => r is None,
        },
{
    match p_ident(s, i) {
        Some((name, j1)) => {
            let w1e = ws_end(s, j1);
            if w1e < s.len() && s[w1e] == 58 {
                let w2e = ws_end(s, w1e + 1);
                match typ(s, w2e) {
                    Some((ty_n, j)) => Some((Node::FunctionParameter(name, Box::new(ty_n)), j)),
                    None => None,
                }
            } else {
                None
            }
        },
        None => None,
    }
}

/// Parse parameters separated by `,`.
fn params(s: &[u8], i: usize) -> (r: (Vec<Node>, usize))
    requires
        i <= s@.len(),
    ensures
        pnode_views(r.0, 0) == sp_params(s@, i as int).0,
        r.1 == i + sp_params(s@, i as int).1,
        i <= r.1 <= s@.len(),
{
    match function_parameter(s, i) {
        Some((first, j)) => {
            let (rest, j2) = params_more(s, j);
            let ghost rest0 = rest;
            let mut rest_mut = rest;
            let mut out: Vec<Node> = Vec::new();
            out.push(first);
            out.append(&mut rest_mut);
            proof {
                lemma_pnode_views(out, 0);
                lemma_pnode_views(rest0, 0);
                assert(pnode_views(out, 0) =~= seq![pnode_view(first)] + pnode_views(rest0, 0));
            }
            (out, j2)
        },
        None => {
            let out: Vec<Node> = Vec::new();
            proof {
                assert(pnode_views(out, 0) =~= Seq::<PNodeV>::empty());
            }
            (out, i)
        },
    }
}

/// Parse further `, parameter` steps.
fn params_more(s: &[u8], i: usize) -> (r: (Vec<Node>, usize))
    requires
        i <= s@.len(),
    ensures
        pnode_views(r.0, 0) == sp_params_more(s@, i as int).0,
        r.1 == i + sp_params_more(s@, i as int).1,
        i <= r.1 <= s@.len(),
    decreases rem(s@, i as int),
{
    if i < s.len() && s[i] == 44 {
        let we = ws_end(s, i + 1);
        match function_parameter(s, we) {
            Some((p_node, j)) => {
                let (rest, j2) = params_more(s, j);
                let ghost rest0 = rest;
                let mut rest_mut = rest;
                let mut out: Vec<Node> = Vec::new();
                out.push(p_node);
                out.append(&mut rest_mut);
                proof {
                    lemma_pnode_views(out, 0);
                    lemma_pnode_views(rest0, 0);
                    assert(pnode_views(out, 0) =~= seq![pnode_view(p_node)] + pnode_views(
                        rest0,
                        0,
                    ));
                }
                (out, j2)
            },
            None => {
                let out: Vec<Node> = Vec::new();
                proof {
                    assert(pnode_views(out, 0) =~= Seq::<PNodeV>::empty());
                }
                (out, i)
            },
        }
    } else {
        let out: Vec<Node> = Vec::new();
        proof {
            assert(pnode_views(out, 0) =~= Seq::<PNodeV>::empty());
        }
        (out, i)
    }
}

/// Parse `fn name(params) -> Type body`.
pub fn function_implementation(s: &[u8], i: usize) -> (r: Option<(Node, usize)>)
    requires
        i <= s@.len(),
    ensures
        match sp_fn_impl(s@, i as int) {
            Some((nv, n)) => r matches Some((node, j)) && node@ == nv && j == i + n && i < j
                <= s@.len(),
            None => r is None,
        },
{
    let _slen: usize = s.len();
    if !has_fn(s, i) {
        return None;
    }
    proof {
        assert(lit_fn().len() == 2);
    }
    let w1e = ws_end(s, i + 2);
    if w1e == i + 2 {
        return None;
    }
    let (name, j1) = match p_ident(s, w1e) {
        Some(r) => r,
        None => {
            return None;
        },
    };
    if !(j1 < s.len() && s[j1] == 40) {
        return None;
    }
    let w2e = ws_end(s, j1 + 1);
    let (params_v, j2) = params(s, w2e);
    let w3e = ws_end(s, j2);
    if !(w3e < s.len() && s[w3e] == 41) {
        return None;
    }
    let w4e = ws_end(s, w3e + 1);
    if !has_arrow(s, w4e) {
        return None;
    }
    proof {
        assert(lit_arrow().len() == 2);
    }
    let w5e = ws_end(s, w4e + 2);
    let (rt, j3) = match typ(s, w5e) {
        Some(r) => r,
        None => {
            return None;
        },
    };
    let w6e = ws_end(s, j3);
    if w6e == j3 {
        return None;
    }
    match expr(s, w6e) {
        Some((body, j4)) => Some(
            (
                Node::FunctionImplementation {
                    name,
                    params: params_v,
                    return_type: Box::new(rt),
                    body: Box::new(body),
                },
                j4,
            ),
        ),
        None => None,
    }
}

/// Parse `import fn module name(params) -> Type ;`.
pub fn function_import(s: &[u8], i: usize) -> (r: Option<(Node, usize)>)
    requires
        i <= s@.len(),
    ensures
        match sp_fn_import(s@, i as int) {
            Some((nv, n)) => r matches Some((node, j)) && node@ == nv && j == i + n && i < j
                <= s@.len(),
            None => r is None,
        },
{
    let _slen: usize = s.len();
    if !has_import(s, i) {
        return None;
    }
    proof {
        assert(lit_import().len() == 6);
    }
    let w1e = ws_end(s, i + 6);
    if w1e == i + 6 {
        return None;
    }
    if !has_fn(s, w1e) {
        return None;
    }
    proof {
        assert(lit_fn().len() == 2);
    }
    let w2e = ws_end(s, w1e + 2);
    if w2e == w1e + 2 {
        return None;
    }
    let (module, j1) = match p_ident(s, w2e) {
        Some(r) => r,
        None => {
            return None;
        },
    };
    let w3e = ws_end(s, j1);
    if w3e == j1 {
        return None;
    }
    let (name, j2) = match p_ident(s, w3e) {
        Some(r) => r,
        None => {
            return None;
        },
    };
    if !(j2 < s.len() && s[j2] == 40) {
        return None;
    }
    let w4e = ws_end(s, j2 + 1);
    let (params_v, j3) = params(s, w4e);
    let w5e = ws_end(s, j3);
    if !(w5e < s.len() && s[w5e] == 41) {
        return None;
    }
    let w6e = ws_end(s, w5e + 1);
    if !has_arrow(s, w6e) {
        return None;
    }
    proof {
        assert(lit_arrow().len() == 2);
    }
    let w7e = ws_end(s, w6e + 2);
    let (rt, j4) = match typ(s, w7e) {
        Some(r) => r,
        None => {
            return None;
        },
    };
    let w8e = ws_end(s, j4);
    if w8e < s.len() && s[w8e] == 59 {
        Some(
            (
                Node::FunctionImport {
                    name,
                    module,
                    params: params_v,
                    return_type: Box::new(rt),
                },
                w8e + 1,
            ),
        )
    } else {
        None
    }
}

/// Parse one top-level item: an import, else an implementation.
fn top_item(s: &[u8], i: usize) -> (r: Option<(Node, usize)>)
    requires
        i <= s@.len(),
    ensures
        match sp_top_item(s@, i as int) {
            Some((nv, n)) => r matches Some((node, j)) && node@ == nv && j == i + n && i < j
                <= s@.len(),
            None => r is None,
        },
{
    match function_import(s, i) {
        Some(r) => Some(r),
        None => function_implementation(s, i),
    }
}

/// Parse the top-level items with their separators.
fn items(s: &[u8], i: usize) -> (r: (Vec<Node>, usize))
    requires
        i <= s@.len(),
    ensures
        pnode_views(r.0, 0) == sp_items(s@, i as int).0,
        r.1 == i + sp_items(s@, i as int).1,
        i <= r.1 <= s@.len(),
{
    match top_item(s, i) {
        Some((first, j)) => {
            let (rest, j2) = items_more(s, j);
            let ghost rest0 = rest;
            let mut rest_mut = rest;
            let mut out: Vec<Node> = Vec::new();
            out.push(first);
            out.append(&mut rest_mut);
            proof {
                lemma_pnode_views(out, 0);
                lemma_pnode_views(rest0, 0);
                assert(pnode_views(out, 0) =~= seq![pnode_view(first)] + pnode_views(rest0, 0));
            }
            (out, j2)
        },
        None => {
            let out: Vec<Node> = Vec::new();
            proof {
                assert(pnode_views(out, 0) =~= Seq::<PNodeV>::empty());
            }
            (out, i)
        },
    }
}

/// Parse further separated top-level items.
fn items_more(s: &[u8], i: usize) -> (r: (Vec<Node>, usize))
    requires
        i <= s@.len(),
    ensures
        pnode_views(r.0, 0) == sp_items_more(s@, i as int).0,
        r.1 == i + sp_items_more(s@, i as int).1,
        i <= r.1 <= s@.len(),
    decreases rem(s@, i as int),
{
    let w1e = ws_end(s, i);
    let te = semi_end(s, w1e);
    let w2e = ws_end(s, te);
    match top_item(s, w2e) {
        Some((first, j)) => {
            let (rest, j2) = items_more(s, j);
            let ghost rest0 = rest;
            let mut rest_mut = rest;
            let mut out: Vec<Node> = Vec::new();
            out.push(first);
            out.append(&mut rest_mut);
            proof {
                lemma_pnode_views(out, 0);
                lemma_pnode_views(rest0, 0);
                assert(pnode_views(out, 0) =~= seq![pnode_view(first)] + pnode_views(rest0, 0));
            }
            (out, j2)
        },
        None => {
            let out: Vec<Node> = Vec::new();
            proof {
                assert(pnode_views(out, 0) =~= Seq::<PNodeV>::empty());
            }
            (out, i)
        },
    }
}

/// Parse a whole program. The parse succeeds only when the grammar consumes
/// the entire input; otherwise the error reports the byte offset past the
/// longest prefix the grammar accepted.
pub fn program(s: &[u8]) -> (r: Result<Node, ParseError>)
    ensures
        ({
            let (pv, n) = sp_program(s@, 0);
            if n == s@.len() {
                r matches Ok(node) && node@ == pv
            } else {
                r matches Err(e) && e.offset == n
            }
        }),
{
    let t0e = semi_end(s, 0);
    let w0e = ws_end(s, t0e);
    let (items_v, p) = items(s, w0e);
    let t1e = semi_end(s, p);
    let w1e = ws_end(s, t1e);
    if w1e == s.len() {
        Ok(Node::Program(items_v))
    } else {
        Err(ParseError { offset: w1e })
    }
}

} // verus!
