//! What type checking writes: every expression of the checked tree has the
//! type of its kind.

use vstd::prelude::*;
use crate::analyze_model::{
    index_of, is_equality_op, is_logic_op, is_order_op, op_typing, ty_node, ty_opt, ty_tree,
};
use crate::codegen::is_arith;
use crate::structures::{ExpType, ExpV, NodeV, StmtV, SymbolDataV, SymbolErrorV, TreeV};
use crate::token::{Cursor, TokenType};

verus! {

/// The type an operator node must have, its operands being typed: an
/// arithmetic operator gives a float where an operand is a float and an
/// integer otherwise; a comparison, `&&`, `||` and `!` give a boolean.
/// Other operators, and operands that are no expressions, constrain
/// nothing.
pub open spec fn op_type_ok(op: TokenType, l: NodeV, r: Option<Box<TreeV>>, typ: ExpType) -> bool {
    match r {
        Some(rb) => match (l, rb.node) {
            (NodeV::Exp { typ: lt, .. }, NodeV::Exp { typ: rt, .. }) => if is_arith(op) {
                typ == if lt == ExpType::Float || rt == ExpType::Float {
                    ExpType::Float
                } else {
                    ExpType::Integer
                }
            } else if is_order_op(op) || is_equality_op(op) || is_logic_op(op) {
                typ == ExpType::Boolean
            } else {
                true
            },
            _ => true,
        },
        None => op == TokenType::NEG ==> typ == ExpType::Boolean,
    }
}

/// Every expression in a list of nodes has the type of its kind: an integer
/// constant is an integer, a float constant a float, a declared variable has
/// the type of its declaration in `tab`, and an operator the type
/// `op_type_ok` gives.
pub open spec fn typed_tree(t: TreeV, tab: Seq<(Seq<char>, SymbolDataV)>) -> bool
    decreases t,
{
    typed_node(t.node, tab) && typed_opt(t.sibling, tab)
}

pub open spec fn typed_opt(o: Option<Box<TreeV>>, tab: Seq<(Seq<char>, SymbolDataV)>) -> bool
    decreases o,
{
    match o {
        Some(t) => typed_tree(*t, tab),
        None => true,
    }
}

pub open spec fn typed_node(n: NodeV, tab: Seq<(Seq<char>, SymbolDataV)>) -> bool
    decreases n,
{
    match n {
        NodeV::Stmt { kind, .. } => match kind {
            StmtV::If { condition, then_branch, else_branch } => typed_tree(*condition, tab) && typed_opt(then_branch, tab)
                && typed_opt(else_branch, tab),
            StmtV::While { condition, body } => typed_tree(*condition, tab) && typed_opt(body, tab),
            StmtV::Do { body, condition } => typed_opt(body, tab) && typed_tree(*condition, tab),
            StmtV::Assign { value, .. } => typed_tree(*value, tab),
            StmtV::In { .. } => true,
            StmtV::Out { expression } => typed_tree(*expression, tab),
        },
        NodeV::Exp { kind, typ, .. } => match kind {
            ExpV::Op { op, left, right } => typed_tree(*left, tab) && typed_opt(right, tab) && op_type_ok(
                op,
                left.node,
                right,
                typ,
            ),
            ExpV::Const { .. } => typ == ExpType::Integer,
            ExpV::ConstF { .. } => typ == ExpType::Float,
            ExpV::Id { name } => index_of(tab, name) >= 0 ==> typ == tab[index_of(tab, name)].1.typ,
        },
        NodeV::Decl { .. } => true,
    }
}

proof fn lemma_op_typing_ok(
    op: TokenType,
    l: NodeV,
    r: Option<Box<TreeV>>,
    typ: ExpType,
    cursor: Option<Cursor>,
    errs: Seq<SymbolErrorV>,
)
    ensures
        op_typing(op, l, r, typ, cursor, errs) matches Some((t3, _)) ==> op_type_ok(op, l, r, t3),
{
}

/// Type checking gives every expression the type of its kind, children
/// before their parents: integer constants are integers, float constants
/// floats, declared variables have their declared type, arithmetic is a
/// float where an operand is one and an integer otherwise, and comparisons,
/// `&&`, `||` and `!` are booleans.
pub proof fn lemma_ty_tree_typed(t: TreeV, tab: Seq<(Seq<char>, SymbolDataV)>, errs: Seq<SymbolErrorV>)
    ensures
        ty_tree(t, tab, errs) matches Some((t2, _)) ==> typed_tree(t2, tab),
    decreases t,
{
    lemma_ty_node_typed(t.node, tab, errs);
    if let Some((_, e1)) = ty_node(t.node, tab, errs) {
        lemma_ty_opt_typed(t.sibling, tab, e1);
    }
}

pub proof fn lemma_ty_opt_typed(o: Option<Box<TreeV>>, tab: Seq<(Seq<char>, SymbolDataV)>, errs: Seq<SymbolErrorV>)
    ensures
        ty_opt(o, tab, errs) matches Some((o2, _)) ==> typed_opt(o2, tab),
    decreases o,
{
    if let Some(t) = o {
        lemma_ty_tree_typed(*t, tab, errs);
    }
}

pub proof fn lemma_ty_node_typed(n: NodeV, tab: Seq<(Seq<char>, SymbolDataV)>, errs: Seq<SymbolErrorV>)
    ensures
        ty_node(n, tab, errs) matches Some((n2, _)) ==> typed_node(n2, tab),
    decreases n,
{
    match n {
        NodeV::Stmt { kind, .. } => match kind {
            StmtV::If { condition, then_branch, else_branch } => {
                lemma_ty_tree_typed(*condition, tab, errs);
                if let Some((_, e1)) = ty_tree(*condition, tab, errs) {
                    lemma_ty_opt_typed(then_branch, tab, e1);
                    if let Some((_, e2)) = ty_opt(then_branch, tab, e1) {
                        lemma_ty_opt_typed(else_branch, tab, e2);
                    }
                }
            },
            StmtV::While { condition, body } => {
                lemma_ty_tree_typed(*condition, tab, errs);
                if let Some((_, e1)) = ty_tree(*condition, tab, errs) {
                    lemma_ty_opt_typed(body, tab, e1);
                }
            },
            StmtV::Do { body, condition } => {
                lemma_ty_opt_typed(body, tab, errs);
                if let Some((_, e1)) = ty_opt(body, tab, errs) {
                    lemma_ty_tree_typed(*condition, tab, e1);
                }
            },
            StmtV::Assign { value, .. } => lemma_ty_tree_typed(*value, tab, errs),
            StmtV::In { .. } => {},
            StmtV::Out { expression } => lemma_ty_tree_typed(*expression, tab, errs),
        },
        NodeV::Exp { kind, typ, cursor, .. } => match kind {
            ExpV::Op { op, left, right } => {
                lemma_ty_tree_typed(*left, tab, errs);
                if let Some((l2, e1)) = ty_tree(*left, tab, errs) {
                    lemma_ty_opt_typed(right, tab, e1);
                    if let Some((r2, e2)) = ty_opt(right, tab, e1) {
                        lemma_op_typing_ok(op, l2.node, r2, typ, cursor, e2);
                    }
                }
            },
            _ => {},
        },
        NodeV::Decl { .. } => {},
    }
}

} // verus!
