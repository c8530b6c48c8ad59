//! What the semantic analyzer computes, as functions on the models of the
//! syntax tree.
//!
//! The analysis makes three walks over the tree:
//! - a walk in pre-order that builds the symbol table and records where each
//!   variable is used (`sym_tree`);
//! - a walk in post-order that infers the type of each expression and checks
//!   the types that statements and operators need (`ty_tree`);
//! - a walk in post-order that computes the value of each expression known
//!   before run time and records in the table the last value assigned to each
//!   variable (`ev_tree`).
//!
//! Each walk gives `None` where the analyzer stops the program: a node
//! without a position where one is needed, an operator that the parser never
//! builds, an integer operation that overflows.

use vstd::prelude::*;
use crate::structures::{DeclV, ExpType, ExpV, NodeV, StmtV, SymbolDataV, SymbolErrorV, TreeV, ValueV};
use crate::token::{spec_fake_cursor, Cursor, TokenType};

verus! {

// ---------------------------------------------------------------------------
// The symbol table
// ---------------------------------------------------------------------------

/// `tab` holds an entry for `name` at index `i`.
pub open spec fn key_at(tab: Seq<(Seq<char>, SymbolDataV)>, name: Seq<char>, i: int) -> bool {
    0 <= i < tab.len() && tab[i].0 == name
}

/// No name occurs twice in the table.
pub open spec fn unique_keys(tab: Seq<(Seq<char>, SymbolDataV)>) -> bool {
    forall|i: int, j: int|
        0 <= i < tab.len() && 0 <= j < tab.len() && i != j ==> #[trigger] tab[i].0 != #[trigger] tab[j].0
}

/// Each variable has the memory location given by its place in the table
/// (the order of the declarations).
pub open spec fn locations_in_order(tab: Seq<(Seq<char>, SymbolDataV)>) -> bool {
    forall|i: int| 0 <= i < tab.len() ==> #[trigger] tab[i].1.mem_location == i
}

/// The index of the entry for `name`, or `-1` where there is none.
pub open spec fn index_of(tab: Seq<(Seq<char>, SymbolDataV)>, name: Seq<char>) -> int {
    if exists|i: int| key_at(tab, name, i) {
        choose|i: int| key_at(tab, name, i)
    } else {
        -1
    }
}

pub open spec fn sym_err(message: Seq<char>, cursor: Cursor) -> SymbolErrorV {
    SymbolErrorV { message, cursor }
}

pub open spec fn msg_undeclared() -> Seq<char> {
    "Uso antes de declaración"@
}

pub open spec fn msg_redeclared() -> Seq<char> {
    "Doble declaración"@
}

// ---------------------------------------------------------------------------
// First walk: the symbol table
// ---------------------------------------------------------------------------

/// What the first walk carries: the table, the errors found so far and the
/// next free memory location.
pub struct SymState {
    pub tab: Seq<(Seq<char>, SymbolDataV)>,
    pub errs: Seq<SymbolErrorV>,
    pub loc: i32,
}

pub open spec fn sym_start() -> SymState {
    SymState { tab: seq![], errs: seq![], loc: 0 }
}

/// A use of `name` at `cursor`: recorded in its entry, or an error where it
/// was not declared before.
pub open spec fn sym_use(s: SymState, name: Seq<char>, cursor: Option<Cursor>) -> Option<SymState> {
    match cursor {
        None => None,
        Some(c) => {
            let i = index_of(s.tab, name);
            if i >= 0 {
                let e = s.tab[i];
                let d = SymbolDataV { usages: e.1.usages.push(c), ..e.1 };
                Some(SymState { tab: s.tab.update(i, (e.0, d)), ..s })
            } else {
                Some(SymState { errs: s.errs.push(sym_err(msg_undeclared(), c)), ..s })
            }
        },
    }
}

/// The declaration of `name` with type `typ` at `cursor`.
pub open spec fn sym_decl(s: SymState, name: Seq<char>, typ: ExpType, cursor: Option<Cursor>) -> Option<SymState> {
    match cursor {
        None => None,
        Some(c) => {
            if index_of(s.tab, name) >= 0 {
                Some(SymState { errs: s.errs.push(sym_err(msg_redeclared(), c)), ..s })
            } else if s.loc == i32::MAX {
                None
            } else {
                let d = SymbolDataV { mem_location: s.loc, typ, declaration: c, value: None, usages: seq![] };
                Some(SymState { tab: s.tab.push((name, d)), errs: s.errs, loc: (s.loc + 1) as i32 })
            }
        },
    }
}

/// What the first walk does at one node.
pub open spec fn sym_visit(n: NodeV, s: SymState) -> Option<SymState> {
    match n {
        NodeV::Exp { kind: ExpV::Id { name }, cursor, .. } => sym_use(s, name, cursor),
        NodeV::Decl { kind: DeclV::Var { typ, name }, cursor } => sym_decl(s, name, typ, cursor),
        NodeV::Stmt { kind: StmtV::Assign { name, .. }, cursor } => sym_use(s, name, cursor),
        NodeV::Stmt { kind: StmtV::In { name }, cursor } => sym_use(s, name, cursor),
        _ => Some(s),
    }
}

/// The first walk over a node, its children and then its siblings.
pub open spec fn sym_tree(t: TreeV, s: SymState) -> Option<SymState>
    decreases t,
{
    match sym_visit(t.node, s) {
        None => None,
        Some(s1) => match sym_children(t.node, s1) {
            None => None,
            Some(s2) => sym_opt(t.sibling, s2),
        },
    }
}

pub open spec fn sym_opt(o: Option<Box<TreeV>>, s: SymState) -> Option<SymState>
    decreases o,
{
    match o {
        Some(t) => sym_tree(*t, s),
        None => Some(s),
    }
}

/// The first walk over the children of a node, in order.
pub open spec fn sym_children(n: NodeV, s: SymState) -> Option<SymState>
    decreases n,
{
    match n {
        NodeV::Stmt { kind, .. } => match kind {
            StmtV::If { condition, then_branch, else_branch } => match sym_tree(*condition, s) {
                None => None,
                Some(s1) => match sym_opt(then_branch, s1) {
                    None => None,
                    Some(s2) => sym_opt(else_branch, s2),
                },
            },
            StmtV::While { condition, body } => match sym_tree(*condition, s) {
                None => None,
                Some(s1) => sym_opt(body, s1),
            },
            StmtV::Do { body, condition } => match sym_opt(body, s) {
                None => None,
                Some(s1) => sym_tree(*condition, s1),
            },
            StmtV::Assign { value, .. } => sym_tree(*value, s),
            StmtV::In { .. } => Some(s),
            StmtV::Out { expression } => sym_tree(*expression, s),
        },
        NodeV::Exp { kind, .. } => match kind {
            ExpV::Op { left, right, .. } => match sym_tree(*left, s) {
                None => None,
                Some(s1) => sym_opt(right, s1),
            },
            _ => Some(s),
        },
        NodeV::Decl { .. } => Some(s),
    }
}

/// The table is well formed: no name twice, and memory locations in the
/// order of the declarations, the next one being `loc`.
pub open spec fn sym_wf(s: SymState) -> bool {
    &&& unique_keys(s.tab)
    &&& locations_in_order(s.tab)
    &&& s.loc == s.tab.len()
}

pub proof fn lemma_sym_visit_wf(n: NodeV, s: SymState)
    requires
        unique_keys(s.tab),
    ensures
        sym_visit(n, s) matches Some(s2) ==> unique_keys(s2.tab) && (sym_wf(s) ==> sym_wf(s2)),
{
    if let Some(s2) = sym_visit(n, s) {
        if s2.tab.len() == s.tab.len() + 1 {
            let name = s2.tab.last().0;
            if index_of(s.tab, name) == -1 {
                assert forall|i: int| 0 <= i < s.tab.len() implies #[trigger] s.tab[i].0 != name by {
                    if s.tab[i].0 == name {
                        assert(key_at(s.tab, name, i));
                    }
                }
            }
            assert(forall|i: int| 0 <= i < s.tab.len() ==> s2.tab[i] == s.tab[i]);
        } else {
            assert(s2.tab.len() == s.tab.len());
            assert(forall|i: int| 0 <= i < s.tab.len() ==> #[trigger] s2.tab[i].0 == s.tab[i].0
                && s2.tab[i].1.mem_location == s.tab[i].1.mem_location);
        }
    }
}

/// The first walk never puts a name twice in the table; started from an
/// empty table, each variable has the memory location of its place in the
/// order of the declarations.
pub proof fn lemma_sym_tree_wf(t: TreeV, s: SymState)
    requires
        unique_keys(s.tab),
    ensures
        sym_tree(t, s) matches Some(s2) ==> unique_keys(s2.tab) && (sym_wf(s) ==> sym_wf(s2)),
    decreases t,
{
    lemma_sym_visit_wf(t.node, s);
    if let Some(s1) = sym_visit(t.node, s) {
        lemma_sym_children_wf(t.node, s1);
        if let Some(s2) = sym_children(t.node, s1) {
            lemma_sym_opt_wf(t.sibling, s2);
        }
    }
}

pub proof fn lemma_sym_opt_wf(o: Option<Box<TreeV>>, s: SymState)
    requires
        unique_keys(s.tab),
    ensures
        sym_opt(o, s) matches Some(s2) ==> unique_keys(s2.tab) && (sym_wf(s) ==> sym_wf(s2)),
    decreases o,
{
    if let Some(t) = o {
        lemma_sym_tree_wf(*t, s);
    }
}

pub proof fn lemma_sym_children_wf(n: NodeV, s: SymState)
    requires
        unique_keys(s.tab),
    ensures
        sym_children(n, s) matches Some(s2) ==> unique_keys(s2.tab) && (sym_wf(s) ==> sym_wf(s2)),
    decreases n,
{
    match n {
        NodeV::Stmt { kind, .. } => match kind {
            StmtV::If { condition, then_branch, else_branch } => {
                lemma_sym_tree_wf(*condition, s);
                if let Some(s1) = sym_tree(*condition, s) {
                    lemma_sym_opt_wf(then_branch, s1);
                    if let Some(s2) = sym_opt(then_branch, s1) {
                        lemma_sym_opt_wf(else_branch, s2);
                    }
                }
            },
            StmtV::While { condition, body } => {
                lemma_sym_tree_wf(*condition, s);
                if let Some(s1) = sym_tree(*condition, s) {
                    lemma_sym_opt_wf(body, s1);
                }
            },
            StmtV::Do { body, condition } => {
                lemma_sym_opt_wf(body, s);
                if let Some(s1) = sym_opt(body, s) {
                    lemma_sym_tree_wf(*condition, s1);
                }
            },
            StmtV::Assign { value, .. } => lemma_sym_tree_wf(*value, s),
            StmtV::In { .. } => {},
            StmtV::Out { expression } => lemma_sym_tree_wf(*expression, s),
        },
        NodeV::Exp { kind, .. } => match kind {
            ExpV::Op { left, right, .. } => {
                lemma_sym_tree_wf(*left, s);
                if let Some(s1) = sym_tree(*left, s) {
                    lemma_sym_opt_wf(right, s1);
                }
            },
            _ => {},
        },
        NodeV::Decl { .. } => {},
    }
}

// ---------------------------------------------------------------------------
// Second walk: the types
// ---------------------------------------------------------------------------

pub open spec fn cursor_or_fake(c: Option<Cursor>) -> Cursor {
    match c {
        Some(c) => c,
        None => spec_fake_cursor(),
    }
}

pub open spec fn is_num(t: ExpType) -> bool {
    t == ExpType::Integer || t == ExpType::Float
}

/// `<`, `<=`, `>` and `>=`.
pub open spec fn is_order_op(op: TokenType) -> bool {
    op == TokenType::LT || op == TokenType::LE || op == TokenType::GT || op == TokenType::GE
}

pub open spec fn is_equality_op(op: TokenType) -> bool {
    op == TokenType::NE || op == TokenType::EQ
}

pub open spec fn is_logic_op(op: TokenType) -> bool {
    op == TokenType::AND || op == TokenType::OR
}

pub open spec fn msg_if_not_bool() -> Seq<char> {
    "Condicion de IF no es booleana"@
}

pub open spec fn msg_while_not_bool() -> Seq<char> {
    "Condicion de While no es booleana"@
}

pub open spec fn msg_do_not_bool() -> Seq<char> {
    "Condicion de Do no es booleana"@
}

pub open spec fn msg_bool_assign() -> Seq<char> {
    "No se puede asignar una expresion booleana a una variable"@
}

pub open spec fn msg_type_mismatch() -> Seq<char> {
    "Se asigno un valor de tipo distinto!"@
}

pub open spec fn msg_out_type() -> Seq<char> {
    "La sentencia out solo está definida para expresiones Enteras y Flotantes!"@
}

pub open spec fn msg_arith_type() -> Seq<char> {
    "Una operacion arimetica no puede ser aplicada en un tipo distinto a float o entero"@
}

pub open spec fn msg_order_type() -> Seq<char> {
    "Una operacion de comparacion aritmetica no puede ser aplicada en un tipo distinto a float o entero"@
}

pub open spec fn msg_logic_type() -> Seq<char> {
    "Una operacion lógica no puede ser aplicada en un tipo distinto a booleano"@
}

pub open spec fn msg_no_right() -> Seq<char> {
    "Operacion binaria sin lado derecho"@
}

pub open spec fn msg_neg_type() -> Seq<char> {
    "Operacion de negacion solo esta disponible para booleanos"@
}

/// The condition of an `if`, `while` or `do` must be boolean.
pub open spec fn cond_check(c: NodeV, errs: Seq<SymbolErrorV>, msg: Seq<char>) -> Seq<SymbolErrorV> {
    match c {
        NodeV::Exp { typ, cursor, .. } => if typ != ExpType::Boolean {
            errs.push(sym_err(msg, cursor_or_fake(cursor)))
        } else {
            errs
        },
        _ => errs,
    }
}

/// The value assigned to a declared variable must not be boolean, and must
/// have the variable's type.
pub open spec fn assign_check(
    v: NodeV,
    tab: Seq<(Seq<char>, SymbolDataV)>,
    name: Seq<char>,
    errs: Seq<SymbolErrorV>,
) -> Seq<SymbolErrorV> {
    match v {
        NodeV::Exp { typ, cursor, .. } => {
            let i = index_of(tab, name);
            if i < 0 {
                errs
            } else if typ == ExpType::Boolean {
                errs.push(sym_err(msg_bool_assign(), cursor_or_fake(cursor)))
            } else if tab[i].1.typ != typ {
                errs.push(sym_err(msg_type_mismatch(), cursor_or_fake(cursor)))
            } else {
                errs
            }
        },
        _ => errs,
    }
}

/// What `cout` writes must be a number.
pub open spec fn out_check(x: NodeV, errs: Seq<SymbolErrorV>) -> Seq<SymbolErrorV> {
    match x {
        NodeV::Exp { typ, cursor, .. } => if !is_num(typ) {
            errs.push(sym_err(msg_out_type(), cursor_or_fake(cursor)))
        } else {
            errs
        },
        _ => errs,
    }
}

/// The type of an operator node whose children have been typed, with the
/// errors its operands give; `None` for an operator that the parser never
/// puts in a binary node.
pub open spec fn op_typing(
    op: TokenType,
    l: NodeV,
    r: Option<Box<TreeV>>,
    typ: ExpType,
    cursor: Option<Cursor>,
    errs: Seq<SymbolErrorV>,
) -> Option<(ExpType, Seq<SymbolErrorV>)> {
    let c = cursor_or_fake(cursor);
    match r {
        Some(rb) => {
            if !(crate::codegen::is_arith(op) || is_order_op(op) || is_equality_op(op) || is_logic_op(op)) {
                None
            } else {
                match (l, rb.node) {
                    (NodeV::Exp { typ: lt, .. }, NodeV::Exp { typ: rt, .. }) => {
                        if crate::codegen::is_arith(op) {
                            let e = if !is_num(lt) || !is_num(rt) { errs.push(sym_err(msg_arith_type(), c)) } else { errs };
                            Some((if lt == ExpType::Float || rt == ExpType::Float { ExpType::Float } else { ExpType::Integer }, e))
                        } else if is_order_op(op) {
                            let e = if !is_num(lt) || !is_num(rt) { errs.push(sym_err(msg_order_type(), c)) } else { errs };
                            Some((ExpType::Boolean, e))
                        } else if is_equality_op(op) {
                            let e = if (!is_num(lt) && lt != ExpType::Boolean) || (!is_num(rt) && rt != ExpType::Boolean) {
                                errs.push(sym_err(msg_order_type(), c))
                            } else {
                                errs
                            };
                            Some((ExpType::Boolean, e))
                        } else {
                            let e = if lt != ExpType::Boolean || rt != ExpType::Boolean { errs.push(sym_err(msg_logic_type(), c)) } else { errs };
                            Some((ExpType::Boolean, e))
                        }
                    },
                    _ => Some((typ, errs)),
                }
            }
        },
        None => {
            if op != TokenType::NEG {
                Some((typ, errs.push(sym_err(msg_no_right(), c))))
            } else {
                let e = match l {
                    NodeV::Exp { typ: lt, .. } => if lt != ExpType::Boolean { errs.push(sym_err(msg_neg_type(), c)) } else { errs },
                    _ => errs,
                };
                Some((ExpType::Boolean, e))
            }
        },
    }
}

/// The second walk over a node and then its siblings: the children first,
/// then the node itself.
pub open spec fn ty_tree(t: TreeV, tab: Seq<(Seq<char>, SymbolDataV)>, errs: Seq<SymbolErrorV>) -> Option<(TreeV, Seq<SymbolErrorV>)>
    decreases t,
{
    match ty_node(t.node, tab, errs) {
        None => None,
        Some((n2, e1)) => match ty_opt(t.sibling, tab, e1) {
            None => None,
            Some((s2, e2)) => Some((TreeV { sibling: s2, node: n2 }, e2)),
        },
    }
}

pub open spec fn ty_opt(o: Option<Box<TreeV>>, tab: Seq<(Seq<char>, SymbolDataV)>, errs: Seq<SymbolErrorV>) -> Option<(Option<Box<TreeV>>, Seq<SymbolErrorV>)>
    decreases o,
{
    match o {
        Some(t) => match ty_tree(*t, tab, errs) {
            None => None,
            Some((t2, e)) => Some((Some(Box::new(t2)), e)),
        },
        None => Some((None, errs)),
    }
}

pub open spec fn ty_node(n: NodeV, tab: Seq<(Seq<char>, SymbolDataV)>, errs: Seq<SymbolErrorV>) -> Option<(NodeV, Seq<SymbolErrorV>)>
    decreases n,
{
    match n {
        NodeV::Stmt { kind, cursor } => match kind {
            StmtV::If { condition, then_branch, else_branch } => match ty_tree(*condition, tab, errs) {
                None => None,
                Some((c2, e1)) => match ty_opt(then_branch, tab, e1) {
                    None => None,
                    Some((t2, e2)) => match ty_opt(else_branch, tab, e2) {
                        None => None,
                        Some((x2, e3)) => Some((
                            NodeV::Stmt { kind: StmtV::If { condition: Box::new(c2), then_branch: t2, else_branch: x2 }, cursor },
                            cond_check(c2.node, e3, msg_if_not_bool()),
                        )),
                    },
                },
            },
            StmtV::While { condition, body } => match ty_tree(*condition, tab, errs) {
                None => None,
                Some((c2, e1)) => match ty_opt(body, tab, e1) {
                    None => None,
                    Some((b2, e2)) => Some((
                        NodeV::Stmt { kind: StmtV::While { condition: Box::new(c2), body: b2 }, cursor },
                        cond_check(c2.node, e2, msg_while_not_bool()),
                    )),
                },
            },
            StmtV::Do { body, condition } => match ty_opt(body, tab, errs) {
                None => None,
                Some((b2, e1)) => match ty_tree(*condition, tab, e1) {
                    None => None,
                    Some((c2, e2)) => Some((
                        NodeV::Stmt { kind: StmtV::Do { body: b2, condition: Box::new(c2) }, cursor },
                        cond_check(c2.node, e2, msg_do_not_bool()),
                    )),
                },
            },
            StmtV::Assign { name, value } => match ty_tree(*value, tab, errs) {
                None => None,
                Some((v2, e1)) => Some((
                    NodeV::Stmt { kind: StmtV::Assign { name, value: Box::new(v2) }, cursor },
                    assign_check(v2.node, tab, name, e1),
                )),
            },
            StmtV::In { .. } => Some((n, errs)),
            StmtV::Out { expression } => match ty_tree(*expression, tab, errs) {
                None => None,
                Some((x2, e1)) => Some((
                    NodeV::Stmt { kind: StmtV::Out { expression: Box::new(x2) }, cursor },
                    out_check(x2.node, e1),
                )),
            },
        },
        NodeV::Exp { kind, typ, cursor, val } => match kind {
            ExpV::Op { op, left, right } => match ty_tree(*left, tab, errs) {
                None => None,
                Some((l2, e1)) => match ty_opt(right, tab, e1) {
                    None => None,
                    Some((r2, e2)) => match op_typing(op, l2.node, r2, typ, cursor, e2) {
                        None => None,
                        Some((t3, e3)) => Some((
                            NodeV::Exp { kind: ExpV::Op { op, left: Box::new(l2), right: r2 }, typ: t3, cursor, val },
                            e3,
                        )),
                    },
                },
            },
            ExpV::Const { .. } => Some((NodeV::Exp { kind, typ: ExpType::Integer, cursor, val }, errs)),
            ExpV::ConstF { .. } => Some((NodeV::Exp { kind, typ: ExpType::Float, cursor, val }, errs)),
            ExpV::Id { name } => {
                let i = index_of(tab, name);
                let t2 = if i >= 0 { tab[i].1.typ } else { typ };
                Some((NodeV::Exp { kind, typ: t2, cursor, val }, errs))
            },
        },
        NodeV::Decl { .. } => Some((n, errs)),
    }
}

// ---------------------------------------------------------------------------
// Third walk: the values known before run time
// ---------------------------------------------------------------------------

/// What the third walk carries: the table, whose entries receive the values
/// assigned to the variables, and the errors found so far.
pub struct EvState {
    pub tab: Seq<(Seq<char>, SymbolDataV)>,
    pub errs: Seq<SymbolErrorV>,
}

/// The arithmetic and comparisons of `f32` that the analyzer needs, given
/// from outside: `fl(op, l, r)` is what the operator `op` gives on `l` and
/// `r` where one of them is a float.
pub type FloatOps = spec_fn(TokenType, ValueV, ValueV) -> ValueV;

pub open spec fn says_true(fl: FloatOps, op: TokenType, l: ValueV, r: ValueV) -> bool {
    fl(op, l, r) == ValueV::Boolean(true)
}

pub open spec fn is_number(v: ValueV) -> bool {
    v is Int || v is Float
}

/// The value of an expression node as an operator above it reads it:
/// constants give their value, variables the value in the table, operators
/// the value computed for them.
pub open spec fn expr_value(t: TreeV, tab: Seq<(Seq<char>, SymbolDataV)>) -> Option<ValueV> {
    match t.node {
        NodeV::Exp { kind, val, .. } => match kind {
            ExpV::Const { value } => Some(ValueV::Int(value)),
            ExpV::ConstF { value } => Some(ValueV::Float(value)),
            ExpV::Id { name } => {
                let i = index_of(tab, name);
                if i >= 0 { tab[i].1.value } else { None }
            },
            ExpV::Op { .. } => val,
        },
        _ => None,
    }
}

/// What an arithmetic operator gives on two values.
pub enum Arith {
    /// The program stops (an integer overflow).
    Panic,
    /// An operand is not a number.
    NotNumbers,
    Value(ValueV),
}

pub open spec fn arith(op: TokenType, l: ValueV, r: ValueV, fl: FloatOps) -> Arith {
    match (l, r) {
        (ValueV::Int(a), ValueV::Int(b)) => match crate::values::int_arith(op, a, b) {
            Some(x) => Arith::Value(ValueV::Int(x)),
            None => Arith::Panic,
        },
        _ => if is_number(l) && is_number(r) { Arith::Value(fl(op, l, r)) } else { Arith::NotNumbers },
    }
}

/// `l == r`, with an integer equal to `true` when it is `1`.
pub open spec fn values_eq(l: ValueV, r: ValueV, fl: FloatOps) -> bool {
    match (l, r) {
        (ValueV::Int(a), ValueV::Int(b)) => a == b,
        (ValueV::Int(a), ValueV::Boolean(b)) => (a == 1) == b,
        (ValueV::Boolean(a), ValueV::Int(b)) => a == (b == 1),
        (ValueV::Boolean(a), ValueV::Boolean(b)) => a == b,
        (ValueV::Float(_), ValueV::Boolean(b)) => says_true(fl, TokenType::EQ, l, ValueV::Int(1)) == b,
        (ValueV::Boolean(a), ValueV::Float(_)) => a == says_true(fl, TokenType::EQ, r, ValueV::Int(1)),
        _ => says_true(fl, TokenType::EQ, l, r),
    }
}

/// `l < r` (and `<=`, `>`, `>=`); false where an operand is a boolean.
pub open spec fn values_order(op: TokenType, l: ValueV, r: ValueV, fl: FloatOps) -> bool {
    match (l, r) {
        (ValueV::Int(a), ValueV::Int(b)) => if op == TokenType::LT {
            a < b
        } else if op == TokenType::LE {
            a <= b
        } else if op == TokenType::GT {
            a > b
        } else {
            a >= b
        },
        _ => is_number(l) && is_number(r) && says_true(fl, op, l, r),
    }
}

pub open spec fn is_zero(v: ValueV, fl: FloatOps) -> bool {
    match v {
        ValueV::Int(b) => b == 0,
        ValueV::Float(_) => says_true(fl, TokenType::EQ, v, ValueV::Int(0)),
        ValueV::Boolean(_) => false,
    }
}

pub open spec fn msg_div_zero() -> Seq<char> {
    "División entre cero"@
}

/// The error of an operator applied to values it is not defined for.
pub open spec fn msg_bad_operands(op: TokenType) -> Seq<char> {
    if op == TokenType::SUM {
        "La suma solo está definida para numeros"@
    } else if op == TokenType::MIN {
        "La resta solo está definida para numeros"@
    } else if op == TokenType::TIMES {
        "La multiplicación solo está definida para numeros"@
    } else if op == TokenType::MODULUS {
        "El módulo solo está definida para numeros"@
    } else if op == TokenType::POWER {
        "La exponenciación solo está definida para numeros"@
    } else if op == TokenType::DIV {
        "La división solo está definida para numeros"@
    } else if op == TokenType::AND {
        "El operador AND solo está definida para booleanos"@
    } else {
        "El operador OR solo está definida para booleanos"@
    }
}

pub open spec fn msg_undeclared_value(name: Seq<char>) -> Seq<char> {
    "No se puede evaluar el valor de una variable no declarada: "@ + name
}

/// What the third walk does to the value of an operator node.
pub enum EvStep {
    /// The program stops.
    Crash,
    /// The value stays as it was.
    Keep(Seq<SymbolErrorV>),
    /// The value becomes the one given.
    Becomes(Option<ValueV>, Seq<SymbolErrorV>),
}

/// A binary operator on the values of both operands.
pub open spec fn binop_step(op: TokenType, l: ValueV, r: ValueV, cursor: Option<Cursor>, errs: Seq<SymbolErrorV>, fl: FloatOps) -> EvStep {
    let c = cursor_or_fake(cursor);
    if op == TokenType::DIV && is_zero(r, fl) {
        match cursor {
            None => EvStep::Crash,
            Some(c0) => EvStep::Keep(errs.push(sym_err(msg_div_zero(), c0))),
        }
    } else if crate::codegen::is_arith(op) {
        match arith(op, l, r, fl) {
            Arith::Panic => EvStep::Crash,
            Arith::NotNumbers => EvStep::Becomes(None, errs.push(sym_err(msg_bad_operands(op), c))),
            Arith::Value(v) => EvStep::Becomes(Some(v), errs),
        }
    } else if op == TokenType::NE {
        EvStep::Becomes(Some(ValueV::Boolean(!values_eq(l, r, fl))), errs)
    } else if op == TokenType::EQ {
        EvStep::Becomes(Some(ValueV::Boolean(values_eq(l, r, fl))), errs)
    } else if is_order_op(op) {
        EvStep::Becomes(Some(ValueV::Boolean(values_order(op, l, r, fl))), errs)
    } else if is_logic_op(op) {
        match (l, r) {
            (ValueV::Boolean(a), ValueV::Boolean(b)) => EvStep::Becomes(
                Some(ValueV::Boolean(if op == TokenType::AND { a && b } else { a || b })),
                errs,
            ),
            _ => EvStep::Becomes(None, errs.push(sym_err(msg_bad_operands(op), c))),
        }
    } else {
        EvStep::Crash
    }
}

/// An operator node whose operands have been evaluated.
pub open spec fn op_step(
    op: TokenType,
    lval: Option<ValueV>,
    right: Option<Box<TreeV>>,
    tab: Seq<(Seq<char>, SymbolDataV)>,
    cursor: Option<Cursor>,
    errs: Seq<SymbolErrorV>,
    fl: FloatOps,
) -> EvStep {
    match lval {
        None => EvStep::Becomes(None, errs),
        Some(lv) => {
            let rv = match right {
                Some(rb) => expr_value(*rb, tab),
                None => None,
            };
            match rv {
                Some(rv) => binop_step(op, lv, rv, cursor, errs, fl),
                None => if op == TokenType::NEG {
                    match lv {
                        ValueV::Boolean(b) => EvStep::Becomes(Some(ValueV::Boolean(!b)), errs),
                        _ => EvStep::Keep(errs),
                    }
                } else {
                    EvStep::Keep(errs)
                },
            }
        },
    }
}

/// The table after `name` is assigned `v`.
pub open spec fn assign_value(tab: Seq<(Seq<char>, SymbolDataV)>, name: Seq<char>, v: Option<ValueV>) -> Seq<(Seq<char>, SymbolDataV)> {
    let i = index_of(tab, name);
    if i >= 0 {
        tab.update(i, (tab[i].0, SymbolDataV { value: v, ..tab[i].1 }))
    } else {
        tab
    }
}

/// The third walk over a node and then its siblings: the children first,
/// then the node itself.
pub open spec fn ev_tree(t: TreeV, s: EvState, fl: FloatOps) -> Option<(TreeV, EvState)>
    decreases t,
{
    match ev_node(t.node, s, fl) {
        None => None,
        Some((n2, s1)) => match ev_opt(t.sibling, s1, fl) {
            None => None,
            Some((o2, s2)) => Some((TreeV { sibling: o2, node: n2 }, s2)),
        },
    }
}

pub open spec fn ev_opt(o: Option<Box<TreeV>>, s: EvState, fl: FloatOps) -> Option<(Option<Box<TreeV>>, EvState)>
    decreases o,
{
    match o {
        Some(t) => match ev_tree(*t, s, fl) {
            None => None,
            Some((t2, s1)) => Some((Some(Box::new(t2)), s1)),
        },
        None => Some((None, s)),
    }
}

pub open spec fn ev_node(n: NodeV, s: EvState, fl: FloatOps) -> Option<(NodeV, EvState)>
    decreases n,
{
    match n {
        NodeV::Stmt { kind, cursor } => match kind {
            StmtV::If { condition, then_branch, else_branch } => match ev_tree(*condition, s, fl) {
                None => None,
                Some((c2, s1)) => match ev_opt(then_branch, s1, fl) {
                    None => None,
                    Some((t2, s2)) => match ev_opt(else_branch, s2, fl) {
                        None => None,
                        Some((x2, s3)) => Some((
                            NodeV::Stmt { kind: StmtV::If { condition: Box::new(c2), then_branch: t2, else_branch: x2 }, cursor },
                            s3,
                        )),
                    },
                },
            },
            StmtV::While { condition, body } => match ev_tree(*condition, s, fl) {
                None => None,
                Some((c2, s1)) => match ev_opt(body, s1, fl) {
                    None => None,
                    Some((b2, s2)) => Some((NodeV::Stmt { kind: StmtV::While { condition: Box::new(c2), body: b2 }, cursor }, s2)),
                },
            },
            StmtV::Do { body, condition } => match ev_opt(body, s, fl) {
                None => None,
                Some((b2, s1)) => match ev_tree(*condition, s1, fl) {
                    None => None,
                    Some((c2, s2)) => Some((NodeV::Stmt { kind: StmtV::Do { body: b2, condition: Box::new(c2) }, cursor }, s2)),
                },
            },
            StmtV::Assign { name, value } => match ev_tree(*value, s, fl) {
                None => None,
                Some((v2, s1)) => match v2.node {
                    NodeV::Exp { val, .. } => Some((
                        NodeV::Stmt { kind: StmtV::Assign { name, value: Box::new(v2) }, cursor },
                        EvState { tab: assign_value(s1.tab, name, val), errs: s1.errs },
                    )),
                    _ => None,
                },
            },
            StmtV::In { .. } => Some((n, s)),
            StmtV::Out { expression } => match ev_tree(*expression, s, fl) {
                None => None,
                Some((x2, s1)) => Some((NodeV::Stmt { kind: StmtV::Out { expression: Box::new(x2) }, cursor }, s1)),
            },
        },
        NodeV::Exp { kind, typ, cursor, val } => match kind {
            ExpV::Op { op, left, right } => match ev_tree(*left, s, fl) {
                None => None,
                Some((l2, s1)) => match ev_opt(right, s1, fl) {
                    None => None,
                    Some((r2, s2)) => {
                        let k2 = ExpV::Op { op, left: Box::new(l2), right: r2 };
                        match op_step(op, expr_value(l2, s2.tab), r2, s2.tab, cursor, s2.errs, fl) {
                            EvStep::Crash => None,
                            EvStep::Keep(e3) => Some((NodeV::Exp { kind: k2, typ, cursor, val }, EvState { tab: s2.tab, errs: e3 })),
                            EvStep::Becomes(v, e3) => Some((NodeV::Exp { kind: k2, typ, cursor, val: v }, EvState { tab: s2.tab, errs: e3 })),
                        }
                    },
                },
            },
            ExpV::Const { value } => Some((NodeV::Exp { kind, typ, cursor, val: Some(ValueV::Int(value)) }, s)),
            ExpV::ConstF { value } => Some((NodeV::Exp { kind, typ, cursor, val: Some(ValueV::Float(value)) }, s)),
            ExpV::Id { name } => {
                let i = index_of(s.tab, name);
                if i >= 0 {
                    Some((NodeV::Exp { kind, typ, cursor, val: s.tab[i].1.value }, s))
                } else {
                    match cursor {
                        None => None,
                        Some(c) => Some((
                            NodeV::Exp { kind, typ, cursor, val },
                            EvState { tab: s.tab, errs: s.errs.push(sym_err(msg_undeclared_value(name), c)) },
                        )),
                    }
                }
            },
        },
        NodeV::Decl { .. } => Some((n, s)),
    }
}

// ---------------------------------------------------------------------------
// The whole analysis
// ---------------------------------------------------------------------------

/// The analysis of a program by an analyzer that already holds the errors
/// `errs` and the table `tab`: the annotated tree, the errors and the symbol
/// table; `None` where the analyzer stops the program.
pub open spec fn analysis(
    t: TreeV,
    errs: Seq<SymbolErrorV>,
    tab: Seq<(Seq<char>, SymbolDataV)>,
    fl: FloatOps,
) -> Option<(TreeV, Seq<SymbolErrorV>, Seq<(Seq<char>, SymbolDataV)>)> {
    match sym_tree(t, SymState { tab, errs, loc: 0 }) {
        None => None,
        Some(s1) => match ty_tree(t, s1.tab, s1.errs) {
            None => None,
            Some((t2, e2)) => match ev_tree(t2, EvState { tab: s1.tab, errs: e2 }, fl) {
                None => None,
                Some((t3, s3)) => Some((t3, s3.errs, s3.tab)),
            },
        },
    }
}

// ---------------------------------------------------------------------------
// Laws
// ---------------------------------------------------------------------------

/// The two tables hold the same names, in the same order, at the same
/// memory locations.
pub open spec fn same_names(a: Seq<(Seq<char>, SymbolDataV)>, b: Seq<(Seq<char>, SymbolDataV)>) -> bool {
    &&& a.len() == b.len()
    &&& forall|i: int| 0 <= i < a.len() ==> #[trigger] b[i].0 == a[i].0 && b[i].1.mem_location == a[i].1.mem_location
}

proof fn lemma_assign_value_names(tab: Seq<(Seq<char>, SymbolDataV)>, name: Seq<char>, v: Option<ValueV>)
    ensures
        same_names(tab, assign_value(tab, name, v)),
{
}

/// The third walk only records values: it keeps the names and the memory
/// locations of the table.
pub proof fn lemma_ev_tree_names(t: TreeV, s: EvState, fl: FloatOps)
    ensures
        ev_tree(t, s, fl) matches Some((_, s2)) ==> same_names(s.tab, s2.tab),
    decreases t,
{
    lemma_ev_node_names(t.node, s, fl);
    if let Some((_, s1)) = ev_node(t.node, s, fl) {
        lemma_ev_opt_names(t.sibling, s1, fl);
        if let Some((_, s2)) = ev_opt(t.sibling, s1, fl) {
            lemma_same_names_trans(s.tab, s1.tab, s2.tab);
        }
    }
}

pub proof fn lemma_ev_opt_names(o: Option<Box<TreeV>>, s: EvState, fl: FloatOps)
    ensures
        ev_opt(o, s, fl) matches Some((_, s2)) ==> same_names(s.tab, s2.tab),
    decreases o,
{
    if let Some(t) = o {
        lemma_ev_tree_names(*t, s, fl);
    }
}

proof fn lemma_same_names_trans(
    a: Seq<(Seq<char>, SymbolDataV)>,
    b: Seq<(Seq<char>, SymbolDataV)>,
    c: Seq<(Seq<char>, SymbolDataV)>,
)
    requires
        same_names(a, b),
        same_names(b, c),
    ensures
        same_names(a, c),
{
    assert forall|i: int| 0 <= i < a.len() implies #[trigger] c[i].0 == a[i].0 && c[i].1.mem_location == a[i].1.mem_location by {
        assert(b[i].0 == a[i].0);
        assert(c[i].0 == b[i].0);
    }
}

pub proof fn lemma_ev_node_names(n: NodeV, s: EvState, fl: FloatOps)
    ensures
        ev_node(n, s, fl) matches Some((_, s2)) ==> same_names(s.tab, s2.tab),
    decreases n,
{
    match n {
        NodeV::Stmt { kind, .. } => match kind {
            StmtV::If { condition, then_branch, else_branch } => {
                lemma_ev_tree_names(*condition, s, fl);
                if let Some((_, s1)) = ev_tree(*condition, s, fl) {
                    lemma_ev_opt_names(then_branch, s1, fl);
                    if let Some((_, s2)) = ev_opt(then_branch, s1, fl) {
                        lemma_same_names_trans(s.tab, s1.tab, s2.tab);
                        lemma_ev_opt_names(else_branch, s2, fl);
                        if let Some((_, s3)) = ev_opt(else_branch, s2, fl) {
                            lemma_same_names_trans(s.tab, s2.tab, s3.tab);
                        }
                    }
                }
            },
            StmtV::While { condition, body } => {
                lemma_ev_tree_names(*condition, s, fl);
                if let Some((_, s1)) = ev_tree(*condition, s, fl) {
                    lemma_ev_opt_names(body, s1, fl);
                    if let Some((_, s2)) = ev_opt(body, s1, fl) {
                        lemma_same_names_trans(s.tab, s1.tab, s2.tab);
                    }
                }
            },
            StmtV::Do { body, condition } => {
                lemma_ev_opt_names(body, s, fl);
                if let Some((_, s1)) = ev_opt(body, s, fl) {
                    lemma_ev_tree_names(*condition, s1, fl);
                    if let Some((_, s2)) = ev_tree(*condition, s1, fl) {
                        lemma_same_names_trans(s.tab, s1.tab, s2.tab);
                    }
                }
            },
            StmtV::Assign { name, value } => {
                lemma_ev_tree_names(*value, s, fl);
                if let Some((v2, s1)) = ev_tree(*value, s, fl) {
                    if let NodeV::Exp { val, .. } = v2.node {
                        lemma_assign_value_names(s1.tab, name, val);
                        lemma_same_names_trans(s.tab, s1.tab, assign_value(s1.tab, name, val));
                    }
                }
            },
            StmtV::In { .. } => {},
            StmtV::Out { expression } => lemma_ev_tree_names(*expression, s, fl),
        },
        NodeV::Exp { kind, .. } => match kind {
            ExpV::Op { left, right, .. } => {
                lemma_ev_tree_names(*left, s, fl);
                if let Some((_, s1)) = ev_tree(*left, s, fl) {
                    lemma_ev_opt_names(right, s1, fl);
                    if let Some((_, s2)) = ev_opt(right, s1, fl) {
                        lemma_same_names_trans(s.tab, s1.tab, s2.tab);
                    }
                }
            },
            _ => {},
        },
        NodeV::Decl { .. } => {},
    }
}

/// The table that the analysis of a program gives, with a new analyzer,
/// never holds a name twice, and gives each variable the memory location of
/// its place in the order of the declarations (0, 1, 2, ...).
pub proof fn lemma_analysis_table(t: TreeV, fl: FloatOps)
    ensures
        analysis(t, seq![], seq![], fl) matches Some((_, _, tab)) ==> unique_keys(tab) && locations_in_order(tab),
{
    let s0 = SymState { tab: seq![], errs: seq![], loc: 0 };
    lemma_sym_tree_wf(t, s0);
    if let Some(s1) = sym_tree(t, s0) {
        if let Some((t2, e2)) = ty_tree(t, s1.tab, s1.errs) {
            let es = EvState { tab: s1.tab, errs: e2 };
            lemma_ev_tree_names(t2, es, fl);
            if let Some((_, s3)) = ev_tree(t2, es, fl) {
                assert forall|i: int, j: int|
                    0 <= i < s3.tab.len() && 0 <= j < s3.tab.len() && i != j implies #[trigger] s3.tab[i].0
                    != #[trigger] s3.tab[j].0 by {
                    assert(s3.tab[i].0 == s1.tab[i].0);
                    assert(s3.tab[j].0 == s1.tab[j].0);
                }
                assert forall|i: int| 0 <= i < s3.tab.len() implies #[trigger] s3.tab[i].1.mem_location == i by {
                    assert(s3.tab[i].0 == s1.tab[i].0);
                    assert(s3.tab[i].1.mem_location == s1.tab[i].1.mem_location);
                }
            }
        }
    }
}

/// The tree without the types and values that the analysis writes into it.
pub open spec fn erase(t: TreeV) -> TreeV
    decreases t,
{
    TreeV { sibling: erase_opt(t.sibling), node: erase_node(t.node) }
}

pub open spec fn erase_opt(o: Option<Box<TreeV>>) -> Option<Box<TreeV>>
    decreases o,
{
    match o {
        Some(t) => Some(Box::new(erase(*t))),
        None => None,
    }
}

pub open spec fn erase_node(n: NodeV) -> NodeV
    decreases n,
{
    match n {
        NodeV::Stmt { kind, cursor } => NodeV::Stmt {
            kind: match kind {
                StmtV::If { condition, then_branch, else_branch } => StmtV::If {
                    condition: Box::new(erase(*condition)),
                    then_branch: erase_opt(then_branch),
                    else_branch: erase_opt(else_branch),
                },
                StmtV::While { condition, body } => StmtV::While { condition: Box::new(erase(*condition)), body: erase_opt(body) },
                StmtV::Do { body, condition } => StmtV::Do { body: erase_opt(body), condition: Box::new(erase(*condition)) },
                StmtV::Assign { name, value } => StmtV::Assign { name, value: Box::new(erase(*value)) },
                StmtV::In { name } => StmtV::In { name },
                StmtV::Out { expression } => StmtV::Out { expression: Box::new(erase(*expression)) },
            },
            cursor,
        },
        NodeV::Exp { kind, cursor, .. } => NodeV::Exp {
            kind: match kind {
                ExpV::Op { op, left, right } => ExpV::Op { op, left: Box::new(erase(*left)), right: erase_opt(right) },
                _ => kind,
            },
            typ: ExpType::Void,
            cursor,
            val: None,
        },
        NodeV::Decl { .. } => n,
    }
}

/// Type checking only writes types: the tree is otherwise unchanged.
pub proof fn lemma_ty_tree_shape(t: TreeV, tab: Seq<(Seq<char>, SymbolDataV)>, errs: Seq<SymbolErrorV>)
    ensures
        ty_tree(t, tab, errs) matches Some((t2, _)) ==> erase(t2) == erase(t),
    decreases t,
{
    lemma_ty_node_shape(t.node, tab, errs);
    if let Some((_, e1)) = ty_node(t.node, tab, errs) {
        lemma_ty_opt_shape(t.sibling, tab, e1);
    }
}

pub proof fn lemma_ty_opt_shape(o: Option<Box<TreeV>>, tab: Seq<(Seq<char>, SymbolDataV)>, errs: Seq<SymbolErrorV>)
    ensures
        ty_opt(o, tab, errs) matches Some((o2, _)) ==> erase_opt(o2) == erase_opt(o),
    decreases o,
{
    if let Some(t) = o {
        lemma_ty_tree_shape(*t, tab, errs);
    }
}

pub proof fn lemma_ty_node_shape(n: NodeV, tab: Seq<(Seq<char>, SymbolDataV)>, errs: Seq<SymbolErrorV>)
    ensures
        ty_node(n, tab, errs) matches Some((n2, _)) ==> erase_node(n2) == erase_node(n),
    decreases n,
{
    match n {
        NodeV::Stmt { kind, .. } => match kind {
            StmtV::If { condition, then_branch, else_branch } => {
                lemma_ty_tree_shape(*condition, tab, errs);
                if let Some((_, e1)) = ty_tree(*condition, tab, errs) {
                    lemma_ty_opt_shape(then_branch, tab, e1);
                    if let Some((_, e2)) = ty_opt(then_branch, tab, e1) {
                        lemma_ty_opt_shape(else_branch, tab, e2);
                    }
                }
            },
            StmtV::While { condition, body } => {
                lemma_ty_tree_shape(*condition, tab, errs);
                if let Some((_, e1)) = ty_tree(*condition, tab, errs) {
                    lemma_ty_opt_shape(body, tab, e1);
                }
            },
            StmtV::Do { body, condition } => {
                lemma_ty_opt_shape(body, tab, errs);
                if let Some((_, e1)) = ty_opt(body, tab, errs) {
                    lemma_ty_tree_shape(*condition, tab, e1);
                }
            },
            StmtV::Assign { value, .. } => lemma_ty_tree_shape(*value, tab, errs),
            StmtV::In { .. } => {},
            StmtV::Out { expression } => lemma_ty_tree_shape(*expression, tab, errs),
        },
        NodeV::Exp { kind, .. } => match kind {
            ExpV::Op { left, right, .. } => {
                lemma_ty_tree_shape(*left, tab, errs);
                if let Some((_, e1)) = ty_tree(*left, tab, errs) {
                    lemma_ty_opt_shape(right, tab, e1);
                }
            },
            _ => {},
        },
        NodeV::Decl { .. } => {},
    }
}

/// Evaluation only writes values: the tree is otherwise unchanged.
pub proof fn lemma_ev_tree_shape(t: TreeV, s: EvState, fl: FloatOps)
    ensures
        ev_tree(t, s, fl) matches Some((t2, _)) ==> erase(t2) == erase(t),
    decreases t,
{
    lemma_ev_node_shape(t.node, s, fl);
    if let Some((_, s1)) = ev_node(t.node, s, fl) {
        lemma_ev_opt_shape(t.sibling, s1, fl);
    }
}

pub proof fn lemma_ev_opt_shape(o: Option<Box<TreeV>>, s: EvState, fl: FloatOps)
    ensures
        ev_opt(o, s, fl) matches Some((o2, _)) ==> erase_opt(o2) == erase_opt(o),
    decreases o,
{
    if let Some(t) = o {
        lemma_ev_tree_shape(*t, s, fl);
    }
}

pub proof fn lemma_ev_node_shape(n: NodeV, s: EvState, fl: FloatOps)
    ensures
        ev_node(n, s, fl) matches Some((n2, _)) ==> erase_node(n2) == erase_node(n),
    decreases n,
{
    match n {
        NodeV::Stmt { kind, .. } => match kind {
            StmtV::If { condition, then_branch, else_branch } => {
                lemma_ev_tree_shape(*condition, s, fl);
                if let Some((_, s1)) = ev_tree(*condition, s, fl) {
                    lemma_ev_opt_shape(then_branch, s1, fl);
                    if let Some((_, s2)) = ev_opt(then_branch, s1, fl) {
                        lemma_ev_opt_shape(else_branch, s2, fl);
                    }
                }
            },
            StmtV::While { condition, body } => {
                lemma_ev_tree_shape(*condition, s, fl);
                if let Some((_, s1)) = ev_tree(*condition, s, fl) {
                    lemma_ev_opt_shape(body, s1, fl);
                }
            },
            StmtV::Do { body, condition } => {
                lemma_ev_opt_shape(body, s, fl);
                if let Some((_, s1)) = ev_opt(body, s, fl) {
                    lemma_ev_tree_shape(*condition, s1, fl);
                }
            },
            StmtV::Assign { value, .. } => lemma_ev_tree_shape(*value, s, fl),
            StmtV::In { .. } => {},
            StmtV::Out { expression } => lemma_ev_tree_shape(*expression, s, fl),
        },
        NodeV::Exp { kind, .. } => match kind {
            ExpV::Op { left, right, .. } => {
                lemma_ev_tree_shape(*left, s, fl);
                if let Some((_, s1)) = ev_tree(*left, s, fl) {
                    lemma_ev_opt_shape(right, s1, fl);
                }
            },
            _ => {},
        },
        NodeV::Decl { .. } => {},
    }
}

/// The analysis annotates the program without changing it: the tree it
/// gives differs from the one it was given only in the types and values of
/// the expressions.
pub proof fn lemma_analysis_shape(t: TreeV, errs: Seq<SymbolErrorV>, tab: Seq<(Seq<char>, SymbolDataV)>, fl: FloatOps)
    ensures
        analysis(t, errs, tab, fl) matches Some((t3, _, _)) ==> erase(t3) == erase(t),
{
    if let Some(s1) = sym_tree(t, SymState { tab, errs, loc: 0 }) {
        lemma_ty_tree_shape(t, s1.tab, s1.errs);
        if let Some((t2, e2)) = ty_tree(t, s1.tab, s1.errs) {
            lemma_ev_tree_shape(t2, EvState { tab: s1.tab, errs: e2 }, fl);
        }
    }
}

/// Equality of values is symmetric, where the float comparison is.
pub proof fn lemma_values_eq_symmetric(l: ValueV, r: ValueV, fl: FloatOps)
    requires
        forall|a: ValueV, b: ValueV| #[trigger] says_true(fl, TokenType::EQ, a, b) == says_true(fl, TokenType::EQ, b, a),
    ensures
        values_eq(l, r, fl) == values_eq(r, l, fl),
{
    assert(says_true(fl, TokenType::EQ, l, r) == says_true(fl, TokenType::EQ, r, l));
}

/// The errors `b` begin with the errors `a`.
pub open spec fn errs_kept(a: Seq<SymbolErrorV>, b: Seq<SymbolErrorV>) -> bool {
    a.len() <= b.len() && forall|i: int| 0 <= i < a.len() ==> #[trigger] b[i] == a[i]
}

proof fn lemma_errs_kept_trans(a: Seq<SymbolErrorV>, b: Seq<SymbolErrorV>, c: Seq<SymbolErrorV>)
    requires
        errs_kept(a, b),
        errs_kept(b, c),
    ensures
        errs_kept(a, c),
{
    assert forall|i: int| 0 <= i < a.len() implies #[trigger] c[i] == a[i] by {
        assert(c[i] == b[i]);
    }
}

proof fn lemma_sym_visit_errs(n: NodeV, s: SymState)
    ensures
        sym_visit(n, s) matches Some(s2) ==> errs_kept(s.errs, s2.errs),
{
}

/// The first walk only adds errors: those it was given stay first.
pub proof fn lemma_sym_tree_errs(t: TreeV, s: SymState)
    ensures
        sym_tree(t, s) matches Some(s2) ==> errs_kept(s.errs, s2.errs),
    decreases t,
{
    lemma_sym_visit_errs(t.node, s);
    if let Some(s1) = sym_visit(t.node, s) {
        lemma_sym_children_errs(t.node, s1);
        if let Some(s2) = sym_children(t.node, s1) {
            lemma_errs_kept_trans(s.errs, s1.errs, s2.errs);
            lemma_sym_opt_errs(t.sibling, s2);
            if let Some(s3) = sym_opt(t.sibling, s2) {
                lemma_errs_kept_trans(s.errs, s2.errs, s3.errs);
            }
        }
    }
}

proof fn lemma_sym_opt_errs(o: Option<Box<TreeV>>, s: SymState)
    ensures
        sym_opt(o, s) matches Some(s2) ==> errs_kept(s.errs, s2.errs),
    decreases o,
{
    if let Some(t) = o {
        lemma_sym_tree_errs(*t, s);
    }
}

proof fn lemma_sym_children_errs(n: NodeV, s: SymState)
    ensures
        sym_children(n, s) matches Some(s2) ==> errs_kept(s.errs, s2.errs),
    decreases n,
{
    match n {
        NodeV::Stmt { kind, .. } => match kind {
            StmtV::If { condition, then_branch, else_branch } => {
                lemma_sym_tree_errs(*condition, s);
                if let Some(s1) = sym_tree(*condition, s) {
                    lemma_sym_opt_errs(then_branch, s1);
                    if let Some(s2) = sym_opt(then_branch, s1) {
                        lemma_errs_kept_trans(s.errs, s1.errs, s2.errs);
                        lemma_sym_opt_errs(else_branch, s2);
                        if let Some(s3) = sym_opt(else_branch, s2) {
                            lemma_errs_kept_trans(s.errs, s2.errs, s3.errs);
                        }
                    }
                }
            },
            StmtV::While { condition, body } => {
                lemma_sym_tree_errs(*condition, s);
                if let Some(s1) = sym_tree(*condition, s) {
                    lemma_sym_opt_errs(body, s1);
                    if let Some(s2) = sym_opt(body, s1) {
                        lemma_errs_kept_trans(s.errs, s1.errs, s2.errs);
                    }
                }
            },
            StmtV::Do { body, condition } => {
                lemma_sym_opt_errs(body, s);
                if let Some(s1) = sym_opt(body, s) {
                    lemma_sym_tree_errs(*condition, s1);
                    if let Some(s2) = sym_tree(*condition, s1) {
                        lemma_errs_kept_trans(s.errs, s1.errs, s2.errs);
                    }
                }
            },
            StmtV::Assign { value, .. } => lemma_sym_tree_errs(*value, s),
            StmtV::In { .. } => {},
            StmtV::Out { expression } => lemma_sym_tree_errs(*expression, s),
        },
        NodeV::Exp { kind, .. } => match kind {
            ExpV::Op { left, right, .. } => {
                lemma_sym_tree_errs(*left, s);
                if let Some(s1) = sym_tree(*left, s) {
                    lemma_sym_opt_errs(right, s1);
                    if let Some(s2) = sym_opt(right, s1) {
                        lemma_errs_kept_trans(s.errs, s1.errs, s2.errs);
                    }
                }
            },
            _ => {},
        },
        NodeV::Decl { .. } => {},
    }
}

proof fn lemma_checks_keep_errs(
    c: NodeV,
    tab: Seq<(Seq<char>, SymbolDataV)>,
    name: Seq<char>,
    msg: Seq<char>,
    errs: Seq<SymbolErrorV>,
)
    ensures
        errs_kept(errs, cond_check(c, errs, msg)),
        errs_kept(errs, assign_check(c, tab, name, errs)),
        errs_kept(errs, out_check(c, errs)),
{
}

proof fn lemma_op_typing_errs(
    op: TokenType,
    l: NodeV,
    r: Option<Box<TreeV>>,
    typ: ExpType,
    cursor: Option<Cursor>,
    errs: Seq<SymbolErrorV>,
)
    ensures
        op_typing(op, l, r, typ, cursor, errs) matches Some((_, e)) ==> errs_kept(errs, e),
{
}

/// Type checking only adds errors: those it was given stay first.
pub proof fn lemma_ty_tree_errs(t: TreeV, tab: Seq<(Seq<char>, SymbolDataV)>, errs: Seq<SymbolErrorV>)
    ensures
        ty_tree(t, tab, errs) matches Some((_, e)) ==> errs_kept(errs, e),
    decreases t,
{
    lemma_ty_node_errs(t.node, tab, errs);
    if let Some((_, e1)) = ty_node(t.node, tab, errs) {
        lemma_ty_opt_errs(t.sibling, tab, e1);
        if let Some((_, e2)) = ty_opt(t.sibling, tab, e1) {
            lemma_errs_kept_trans(errs, e1, e2);
        }
    }
}

proof fn lemma_ty_opt_errs(o: Option<Box<TreeV>>, tab: Seq<(Seq<char>, SymbolDataV)>, errs: Seq<SymbolErrorV>)
    ensures
        ty_opt(o, tab, errs) matches Some((_, e)) ==> errs_kept(errs, e),
    decreases o,
{
    if let Some(t) = o {
        lemma_ty_tree_errs(*t, tab, errs);
    }
}

proof fn lemma_ty_node_errs(n: NodeV, tab: Seq<(Seq<char>, SymbolDataV)>, errs: Seq<SymbolErrorV>)
    ensures
        ty_node(n, tab, errs) matches Some((_, e)) ==> errs_kept(errs, e),
    decreases n,
{
    match n {
        NodeV::Stmt { kind, .. } => match kind {
            StmtV::If { condition, then_branch, else_branch } => {
                lemma_ty_tree_errs(*condition, tab, errs);
                if let Some((c2, e1)) = ty_tree(*condition, tab, errs) {
                    lemma_ty_opt_errs(then_branch, tab, e1);
                    if let Some((_, e2)) = ty_opt(then_branch, tab, e1) {
                        lemma_errs_kept_trans(errs, e1, e2);
                        lemma_ty_opt_errs(else_branch, tab, e2);
                        if let Some((_, e3)) = ty_opt(else_branch, tab, e2) {
                            lemma_errs_kept_trans(errs, e2, e3);
                            lemma_checks_keep_errs(c2.node, tab, seq![], msg_if_not_bool(), e3);
                            lemma_errs_kept_trans(errs, e3, cond_check(c2.node, e3, msg_if_not_bool()));
                        }
                    }
                }
            },
            StmtV::While { condition, body } => {
                lemma_ty_tree_errs(*condition, tab, errs);
                if let Some((c2, e1)) = ty_tree(*condition, tab, errs) {
                    lemma_ty_opt_errs(body, tab, e1);
                    if let Some((_, e2)) = ty_opt(body, tab, e1) {
                        lemma_errs_kept_trans(errs, e1, e2);
                        lemma_checks_keep_errs(c2.node, tab, seq![], msg_while_not_bool(), e2);
                        lemma_errs_kept_trans(errs, e2, cond_check(c2.node, e2, msg_while_not_bool()));
                    }
                }
            },
            StmtV::Do { body, condition } => {
                lemma_ty_opt_errs(body, tab, errs);
                if let Some((_, e1)) = ty_opt(body, tab, errs) {
                    lemma_ty_tree_errs(*condition, tab, e1);
                    if let Some((c2, e2)) = ty_tree(*condition, tab, e1) {
                        lemma_errs_kept_trans(errs, e1, e2);
                        lemma_checks_keep_errs(c2.node, tab, seq![], msg_do_not_bool(), e2);
                        lemma_errs_kept_trans(errs, e2, cond_check(c2.node, e2, msg_do_not_bool()));
                    }
                }
            },
            StmtV::Assign { name, value } => {
                lemma_ty_tree_errs(*value, tab, errs);
                if let Some((v2, e1)) = ty_tree(*value, tab, errs) {
                    lemma_checks_keep_errs(v2.node, tab, name, seq![], e1);
                    lemma_errs_kept_trans(errs, e1, assign_check(v2.node, tab, name, e1));
                }
            },
            StmtV::In { .. } => {},
            StmtV::Out { expression } => {
                lemma_ty_tree_errs(*expression, tab, errs);
                if let Some((x2, e1)) = ty_tree(*expression, tab, errs) {
                    lemma_checks_keep_errs(x2.node, tab, seq![], seq![], e1);
                    lemma_errs_kept_trans(errs, e1, out_check(x2.node, e1));
                }
            },
        },
        NodeV::Exp { kind, typ, cursor, .. } => match kind {
            ExpV::Op { op, left, right } => {
                lemma_ty_tree_errs(*left, tab, errs);
                if let Some((l2, e1)) = ty_tree(*left, tab, errs) {
                    lemma_ty_opt_errs(right, tab, e1);
                    if let Some((r2, e2)) = ty_opt(right, tab, e1) {
                        lemma_errs_kept_trans(errs, e1, e2);
                        lemma_op_typing_errs(op, l2.node, r2, typ, cursor, e2);
                        if let Some((_, e3)) = op_typing(op, l2.node, r2, typ, cursor, e2) {
                            lemma_errs_kept_trans(errs, e2, e3);
                        }
                    }
                }
            },
            _ => {},
        },
        NodeV::Decl { .. } => {},
    }
}

proof fn lemma_op_step_errs(
    op: TokenType,
    lval: Option<ValueV>,
    right: Option<Box<TreeV>>,
    tab: Seq<(Seq<char>, SymbolDataV)>,
    cursor: Option<Cursor>,
    errs: Seq<SymbolErrorV>,
    fl: FloatOps,
)
    ensures
        op_step(op, lval, right, tab, cursor, errs, fl) matches EvStep::Keep(e) ==> errs_kept(errs, e),
        op_step(op, lval, right, tab, cursor, errs, fl) matches EvStep::Becomes(_, e) ==> errs_kept(errs, e),
{
}

/// Evaluation only adds errors: those it was given stay first.
pub proof fn lemma_ev_tree_errs(t: TreeV, s: EvState, fl: FloatOps)
    ensures
        ev_tree(t, s, fl) matches Some((_, s2)) ==> errs_kept(s.errs, s2.errs),
    decreases t,
{
    lemma_ev_node_errs(t.node, s, fl);
    if let Some((_, s1)) = ev_node(t.node, s, fl) {
        lemma_ev_opt_errs(t.sibling, s1, fl);
        if let Some((_, s2)) = ev_opt(t.sibling, s1, fl) {
            lemma_errs_kept_trans(s.errs, s1.errs, s2.errs);
        }
    }
}

proof fn lemma_ev_opt_errs(o: Option<Box<TreeV>>, s: EvState, fl: FloatOps)
    ensures
        ev_opt(o, s, fl) matches Some((_, s2)) ==> errs_kept(s.errs, s2.errs),
    decreases o,
{
    if let Some(t) = o {
        lemma_ev_tree_errs(*t, s, fl);
    }
}

proof fn lemma_ev_node_errs(n: NodeV, s: EvState, fl: FloatOps)
    ensures
        ev_node(n, s, fl) matches Some((_, s2)) ==> errs_kept(s.errs, s2.errs),
    decreases n,
{
    match n {
        NodeV::Stmt { kind, .. } => match kind {
            StmtV::If { condition, then_branch, else_branch } => {
                lemma_ev_tree_errs(*condition, s, fl);
                if let Some((_, s1)) = ev_tree(*condition, s, fl) {
                    lemma_ev_opt_errs(then_branch, s1, fl);
                    if let Some((_, s2)) = ev_opt(then_branch, s1, fl) {
                        lemma_errs_kept_trans(s.errs, s1.errs, s2.errs);
                        lemma_ev_opt_errs(else_branch, s2, fl);
                        if let Some((_, s3)) = ev_opt(else_branch, s2, fl) {
                            lemma_errs_kept_trans(s.errs, s2.errs, s3.errs);
                        }
                    }
                }
            },
            StmtV::While { condition, body } => {
                lemma_ev_tree_errs(*condition, s, fl);
                if let Some((_, s1)) = ev_tree(*condition, s, fl) {
                    lemma_ev_opt_errs(body, s1, fl);
                    if let Some((_, s2)) = ev_opt(body, s1, fl) {
                        lemma_errs_kept_trans(s.errs, s1.errs, s2.errs);
                    }
                }
            },
            StmtV::Do { body, condition } => {
                lemma_ev_opt_errs(body, s, fl);
                if let Some((_, s1)) = ev_opt(body, s, fl) {
                    lemma_ev_tree_errs(*condition, s1, fl);
                    if let Some((_, s2)) = ev_tree(*condition, s1, fl) {
                        lemma_errs_kept_trans(s.errs, s1.errs, s2.errs);
                    }
                }
            },
            StmtV::Assign { value, .. } => lemma_ev_tree_errs(*value, s, fl),
            StmtV::In { .. } => {},
            StmtV::Out { expression } => lemma_ev_tree_errs(*expression, s, fl),
        },
        NodeV::Exp { kind, cursor, .. } => match kind {
            ExpV::Op { op, left, right } => {
                lemma_ev_tree_errs(*left, s, fl);
                if let Some((l2, s1)) = ev_tree(*left, s, fl) {
                    lemma_ev_opt_errs(right, s1, fl);
                    if let Some((r2, s2)) = ev_opt(right, s1, fl) {
                        lemma_errs_kept_trans(s.errs, s1.errs, s2.errs);
                        lemma_op_step_errs(op, expr_value(l2, s2.tab), r2, s2.tab, cursor, s2.errs, fl);
                        match op_step(op, expr_value(l2, s2.tab), r2, s2.tab, cursor, s2.errs, fl) {
                            EvStep::Keep(e3) => lemma_errs_kept_trans(s.errs, s2.errs, e3),
                            EvStep::Becomes(_, e3) => lemma_errs_kept_trans(s.errs, s2.errs, e3),
                            EvStep::Crash => {},
                        }
                    }
                }
            },
            _ => {},
        },
        NodeV::Decl { .. } => {},
    }
}

/// The analysis only adds errors: the errors the analyzer held before stay
/// first, in order, in the errors it gives.
pub proof fn lemma_analysis_keeps_errors(
    t: TreeV,
    errs: Seq<SymbolErrorV>,
    tab: Seq<(Seq<char>, SymbolDataV)>,
    fl: FloatOps,
)
    ensures
        analysis(t, errs, tab, fl) matches Some((_, e3, _)) ==> errs_kept(errs, e3),
{
    let s0 = SymState { tab, errs, loc: 0 };
    lemma_sym_tree_errs(t, s0);
    if let Some(s1) = sym_tree(t, s0) {
        lemma_ty_tree_errs(t, s1.tab, s1.errs);
        if let Some((t2, e2)) = ty_tree(t, s1.tab, s1.errs) {
            lemma_errs_kept_trans(errs, s1.errs, e2);
            let es = EvState { tab: s1.tab, errs: e2 };
            lemma_ev_tree_errs(t2, es, fl);
            if let Some((_, s3)) = ev_tree(t2, es, fl) {
                lemma_errs_kept_trans(errs, e2, s3.errs);
            }
        }
    }
}

/// The type an operator node gets from the types of its operands: a float
/// for an arithmetic operator with a float operand, an integer for one
/// without, a boolean for a comparison, `&&`, `||` and `!`.
pub open spec fn op_type_rule(op: TokenType, l: NodeV, r: Option<Box<TreeV>>, typ: ExpType) -> bool {
    match r {
        Some(rb) => match (l, rb.node) {
            (NodeV::Exp { typ: lt, .. }, NodeV::Exp { typ: rt, .. }) => if crate::codegen::is_arith(op) {
                typ == (if lt == ExpType::Float || rt == ExpType::Float { ExpType::Float } else { ExpType::Integer })
            } else {
                typ == ExpType::Boolean
            },
            _ => true,
        },
        None => op == TokenType::NEG ==> typ == ExpType::Boolean,
    }
}

/// Every expression of the list has the type its kind calls for: an integer
/// constant `Integer`, a float constant `Float`, a declared variable the
/// type of its declaration, an operator the type `op_type_rule` gives it.
pub open spec fn typed_tree(t: TreeV, tab: Seq<(Seq<char>, SymbolDataV)>) -> bool
    decreases t,
{
    &&& typed_node(t.node, tab)
    &&& match t.sibling {
        Some(s) => typed_tree(*s, tab),
        None => true,
    }
}

pub open spec fn typed_node(n: NodeV, tab: Seq<(Seq<char>, SymbolDataV)>) -> bool
    decreases n,
{
    match n {
        NodeV::Stmt { kind, .. } => match kind {
            StmtV::If { condition, then_branch, else_branch } => {
                &&& typed_tree(*condition, tab)
                &&& match then_branch {
                    Some(b) => typed_tree(*b, tab),
                    None => true,
                }
                &&& match else_branch {
                    Some(b) => typed_tree(*b, tab),
                    None => true,
                }
            },
            StmtV::While { condition, body } => {
                &&& typed_tree(*condition, tab)
                &&& match body {
                    Some(b) => typed_tree(*b, tab),
                    None => true,
                }
            },
            StmtV::Do { body, condition } => {
                &&& typed_tree(*condition, tab)
                &&& match body {
                    Some(b) => typed_tree(*b, tab),
                    None => true,
                }
            },
            StmtV::Assign { value, .. } => typed_tree(*value, tab),
            StmtV::In { .. } => true,
            StmtV::Out { expression } => typed_tree(*expression, tab),
        },
        NodeV::Exp { kind, typ, .. } => match kind {
            ExpV::Const { .. } => typ == ExpType::Integer,
            ExpV::ConstF { .. } => typ == ExpType::Float,
            ExpV::Id { name } => index_of(tab, name) >= 0 ==> typ == tab[index_of(tab, name)].1.typ,
            ExpV::Op { op, left, right } => {
                &&& typed_tree(*left, tab)
                &&& match right {
                    Some(r) => typed_tree(*r, tab),
                    None => true,
                }
                &&& op_type_rule(op, left.node, right, typ)
            },
        },
        NodeV::Decl { .. } => true,
    }
}

/// Type checking gives every expression the type its kind calls for, the
/// operands being typed before the operator reads their types.
pub proof fn lemma_ty_tree_typed(t: TreeV, tab: Seq<(Seq<char>, SymbolDataV)>, errs: Seq<SymbolErrorV>)
    ensures
        ty_tree(t, tab, errs) matches Some((t2, _)) ==> typed_tree(t2, tab),
    decreases t,
{
    lemma_ty_node_typed(t.node, tab, errs);
    if let Some((_, e1)) = ty_node(t.node, tab, errs) {
        lemma_ty_opt_typed(t.sibling, tab, e1);
    }
}

proof fn lemma_ty_opt_typed(o: Option<Box<TreeV>>, tab: Seq<(Seq<char>, SymbolDataV)>, errs: Seq<SymbolErrorV>)
    ensures
        ty_opt(o, tab, errs) matches Some((o2, _)) ==> match o2 {
            Some(r) => typed_tree(*r, tab),
            None => true,
        },
    decreases o,
{
    if let Some(t) = o {
        lemma_ty_tree_typed(*t, tab, errs);
    }
}

proof fn lemma_ty_node_typed(n: NodeV, tab: Seq<(Seq<char>, SymbolDataV)>, errs: Seq<SymbolErrorV>)
    ensures
        ty_node(n, tab, errs) matches Some((n2, _)) ==> typed_node(n2, tab),
    decreases n,
{
    match n {
        NodeV::Stmt { kind, .. } => match kind {
            StmtV::If { condition, then_branch, else_branch } => {
                lemma_ty_tree_typed(*condition, tab, errs);
                if let Some((_, e1)) = ty_tree(*condition, tab, errs) {
                    lemma_ty_opt_typed(then_branch, tab, e1);
                    if let Some((_, e2)) = ty_opt(then_branch, tab, e1) {
                        lemma_ty_opt_typed(else_branch, tab, e2);
                    }
                }
            },
            StmtV::While { condition, body } => {
                lemma_ty_tree_typed(*condition, tab, errs);
                if let Some((_, e1)) = ty_tree(*condition, tab, errs) {
                    lemma_ty_opt_typed(body, tab, e1);
                }
            },
            StmtV::Do { body, condition } => {
                lemma_ty_opt_typed(body, tab, errs);
                if let Some((_, e1)) = ty_opt(body, tab, errs) {
                    lemma_ty_tree_typed(*condition, tab, e1);
                }
            },
            StmtV::Assign { value, .. } => lemma_ty_tree_typed(*value, tab, errs),
            StmtV::In { .. } => {},
            StmtV::Out { expression } => lemma_ty_tree_typed(*expression, tab, errs),
        },
        NodeV::Exp { kind, .. } => match kind {
            ExpV::Op { left, right, .. } => {
                lemma_ty_tree_typed(*left, tab, errs);
                if let Some((_, e1)) = ty_tree(*left, tab, errs) {
                    lemma_ty_opt_typed(right, tab, e1);
                }
            },
            _ => {},
        },
        NodeV::Decl { .. } => {},
    }
}

} // verus!
