//! Programs without floats: their analysis does not depend on the float
//! operations the analyzer is handed.

use vstd::prelude::*;
use crate::analyze_model::{
    analysis, assign_value, binop_step, ev_node, ev_opt, ev_tree, expr_value, index_of, op_step, sym_children, sym_decl,
    sym_opt, sym_tree, sym_use, sym_visit, ty_node, ty_opt, ty_tree, EvState, EvStep, FloatOps, SymState,
};
use crate::structures::{DeclV, ExpV, NodeV, StmtV, SymbolDataV, SymbolErrorV, TreeV, ValueV};
use crate::token::{Cursor, TokenType};

verus! {


/// A value that is no float.
pub open spec fn not_float(v: Option<ValueV>) -> bool {
    !(v matches Some(ValueV::Float(_)))
}

/// No entry of the table holds a float.
pub open spec fn tab_float_free(tab: Seq<(Seq<char>, SymbolDataV)>) -> bool {
    forall|i: int| 0 <= i < tab.len() ==> not_float(#[trigger] tab[i].1.value)
}

/// The list holds no float constant and no float value.
pub open spec fn float_free(t: TreeV) -> bool
    decreases t,
{
    &&& node_float_free(t.node)
    &&& match t.sibling {
        Some(s) => float_free(*s),
        None => true,
    }
}

pub open spec fn opt_float_free(o: Option<Box<TreeV>>) -> bool
    decreases o,
{
    match o {
        Some(b) => float_free(*b),
        None => true,
    }
}

pub open spec fn node_float_free(n: NodeV) -> bool
    decreases n,
{
    match n {
        NodeV::Stmt { kind, .. } => match kind {
            StmtV::If { condition, then_branch, else_branch } => float_free(*condition) && opt_float_free(then_branch)
                && opt_float_free(else_branch),
            StmtV::While { condition, body } => float_free(*condition) && opt_float_free(body),
            StmtV::Do { body, condition } => opt_float_free(body) && float_free(*condition),
            StmtV::Assign { value, .. } => float_free(*value),
            StmtV::In { .. } => true,
            StmtV::Out { expression } => float_free(*expression),
        },
        NodeV::Exp { kind, val, .. } => not_float(val) && match kind {
            ExpV::Op { left, right, .. } => float_free(*left) && opt_float_free(right),
            ExpV::ConstF { .. } => false,
            _ => true,
        },
        NodeV::Decl { .. } => true,
    }
}

#[verifier::spinoff_prover]
proof fn lemma_sym_visit_float_free(n: NodeV, s: SymState)
    requires
        tab_float_free(s.tab),
    ensures
        sym_visit(n, s) matches Some(s2) ==> tab_float_free(s2.tab),
{
    match n {
        NodeV::Exp { kind: ExpV::Id { name }, cursor, .. } => lemma_sym_use_float_free(s, name, cursor),
        NodeV::Stmt { kind: StmtV::Assign { name, .. }, cursor } => lemma_sym_use_float_free(s, name, cursor),
        NodeV::Stmt { kind: StmtV::In { name }, cursor } => lemma_sym_use_float_free(s, name, cursor),
        NodeV::Decl { kind: DeclV::Var { typ, name }, cursor } => {
            if let Some(s2) = sym_decl(s, name, typ, cursor) {
                assert forall|i: int| 0 <= i < s2.tab.len() implies not_float(#[trigger] s2.tab[i].1.value) by {
                    if i < s.tab.len() {
                        assert(s2.tab[i] == s.tab[i]);
                    }
                }
            }
        },
        _ => {},
    }
}

#[verifier::spinoff_prover]
proof fn lemma_sym_use_float_free(s: SymState, name: Seq<char>, cursor: Option<Cursor>)
    requires
        tab_float_free(s.tab),
    ensures
        sym_use(s, name, cursor) matches Some(s2) ==> tab_float_free(s2.tab),
{
    if let Some(s2) = sym_use(s, name, cursor) {
        assert forall|i: int| 0 <= i < s2.tab.len() implies not_float(#[trigger] s2.tab[i].1.value) by {
            assert(s2.tab[i].1.value == s.tab[i].1.value);
        }
    }
}

#[verifier::spinoff_prover]
pub proof fn lemma_sym_tree_float_free(t: TreeV, s: SymState)
    requires
        tab_float_free(s.tab),
    ensures
        sym_tree(t, s) matches Some(s2) ==> tab_float_free(s2.tab),
    decreases t,
{
    lemma_sym_visit_float_free(t.node, s);
    if let Some(s1) = sym_visit(t.node, s) {
        lemma_sym_children_float_free(t.node, s1);
        if let Some(s2) = sym_children(t.node, s1) {
            lemma_sym_opt_float_free(t.sibling, s2);
        }
    }
}

#[verifier::spinoff_prover]
proof fn lemma_sym_opt_float_free(o: Option<Box<TreeV>>, s: SymState)
    requires
        tab_float_free(s.tab),
    ensures
        sym_opt(o, s) matches Some(s2) ==> tab_float_free(s2.tab),
    decreases o,
{
    if let Some(t) = o {
        lemma_sym_tree_float_free(*t, s);
    }
}

#[verifier::spinoff_prover]
proof fn lemma_sym_children_float_free(n: NodeV, s: SymState)
    requires
        tab_float_free(s.tab),
    ensures
        sym_children(n, s) matches Some(s2) ==> tab_float_free(s2.tab),
    decreases n,
{
    match n {
        NodeV::Stmt { kind, .. } => match kind {
            StmtV::If { condition, then_branch, else_branch } => {
                lemma_sym_tree_float_free(*condition, s);
                if let Some(s1) = sym_tree(*condition, s) {
                    lemma_sym_opt_float_free(then_branch, s1);
                    if let Some(s2) = sym_opt(then_branch, s1) {
                        lemma_sym_opt_float_free(else_branch, s2);
                    }
                }
            },
            StmtV::While { condition, body } => {
                lemma_sym_tree_float_free(*condition, s);
                if let Some(s1) = sym_tree(*condition, s) {
                    lemma_sym_opt_float_free(body, s1);
                }
            },
            StmtV::Do { body, condition } => {
                lemma_sym_opt_float_free(body, s);
                if let Some(s1) = sym_opt(body, s) {
                    lemma_sym_tree_float_free(*condition, s1);
                }
            },
            StmtV::Assign { value, .. } => lemma_sym_tree_float_free(*value, s),
            StmtV::In { .. } => {},
            StmtV::Out { expression } => lemma_sym_tree_float_free(*expression, s),
        },
        NodeV::Exp { kind, .. } => match kind {
            ExpV::Op { left, right, .. } => {
                lemma_sym_tree_float_free(*left, s);
                if let Some(s1) = sym_tree(*left, s) {
                    lemma_sym_opt_float_free(right, s1);
                }
            },
            _ => {},
        },
        NodeV::Decl { .. } => {},
    }
}

#[verifier::spinoff_prover]
pub proof fn lemma_ty_tree_float_free(t: TreeV, tab: Seq<(Seq<char>, SymbolDataV)>, errs: Seq<SymbolErrorV>)
    requires
        float_free(t),
    ensures
        ty_tree(t, tab, errs) matches Some((t2, _)) ==> float_free(t2),
    decreases t,
{
    lemma_ty_node_float_free(t.node, tab, errs);
    if let Some((_, e1)) = ty_node(t.node, tab, errs) {
        lemma_ty_opt_float_free(t.sibling, tab, e1);
    }
}

#[verifier::spinoff_prover]
proof fn lemma_ty_opt_float_free(o: Option<Box<TreeV>>, tab: Seq<(Seq<char>, SymbolDataV)>, errs: Seq<SymbolErrorV>)
    requires
        opt_float_free(o),
    ensures
        ty_opt(o, tab, errs) matches Some((o2, _)) ==> opt_float_free(o2),
    decreases o,
{
    if let Some(t) = o {
        lemma_ty_tree_float_free(*t, tab, errs);
    }
}

#[verifier::spinoff_prover]
proof fn lemma_ty_node_float_free(n: NodeV, tab: Seq<(Seq<char>, SymbolDataV)>, errs: Seq<SymbolErrorV>)
    requires
        node_float_free(n),
    ensures
        ty_node(n, tab, errs) matches Some((n2, _)) ==> node_float_free(n2),
    decreases n,
{
    match n {
        NodeV::Stmt { kind, .. } => match kind {
            StmtV::If { condition, then_branch, else_branch } => {
                lemma_ty_tree_float_free(*condition, tab, errs);
                if let Some((_, e1)) = ty_tree(*condition, tab, errs) {
                    lemma_ty_opt_float_free(then_branch, tab, e1);
                    if let Some((_, e2)) = ty_opt(then_branch, tab, e1) {
                        lemma_ty_opt_float_free(else_branch, tab, e2);
                    }
                }
            },
            StmtV::While { condition, body } => {
                lemma_ty_tree_float_free(*condition, tab, errs);
                if let Some((_, e1)) = ty_tree(*condition, tab, errs) {
                    lemma_ty_opt_float_free(body, tab, e1);
                }
            },
            StmtV::Do { body, condition } => {
                lemma_ty_opt_float_free(body, tab, errs);
                if let Some((_, e1)) = ty_opt(body, tab, errs) {
                    lemma_ty_tree_float_free(*condition, tab, e1);
                }
            },
            StmtV::Assign { value, .. } => lemma_ty_tree_float_free(*value, tab, errs),
            StmtV::In { .. } => {},
            StmtV::Out { expression } => lemma_ty_tree_float_free(*expression, tab, errs),
        },
        NodeV::Exp { kind, .. } => match kind {
            ExpV::Op { left, right, .. } => {
                lemma_ty_tree_float_free(*left, tab, errs);
                if let Some((_, e1)) = ty_tree(*left, tab, errs) {
                    lemma_ty_opt_float_free(right, tab, e1);
                }
            },
            _ => {},
        },
        NodeV::Decl { .. } => {},
    }
}

/// What an operator step gives on values that are no floats does not depend
/// on the float operations, and is no float.
#[verifier::spinoff_prover]
proof fn lemma_op_step_no_floats(
    op: TokenType,
    lval: Option<ValueV>,
    right: Option<Box<TreeV>>,
    tab: Seq<(Seq<char>, SymbolDataV)>,
    cursor: Option<Cursor>,
    errs: Seq<SymbolErrorV>,
    fl1: FloatOps,
    fl2: FloatOps,
)
    requires
        not_float(lval),
        right matches Some(rb) ==> not_float(expr_value(*rb, tab)),
    ensures
        op_step(op, lval, right, tab, cursor, errs, fl1) == op_step(op, lval, right, tab, cursor, errs, fl2),
        op_step(op, lval, right, tab, cursor, errs, fl1) matches EvStep::Becomes(v, _) ==> not_float(v),
{
    if let (Some(l), Some(rb)) = (lval, right) {
        if let Some(r) = expr_value(*rb, tab) {
            assert(binop_step(op, l, r, cursor, errs, fl1) == binop_step(op, l, r, cursor, errs, fl2));
        }
    }
}

#[verifier::spinoff_prover]
pub proof fn lemma_expr_value_no_float(t: TreeV, tab: Seq<(Seq<char>, SymbolDataV)>)
    requires
        float_free(t),
        tab_float_free(tab),
    ensures
        not_float(expr_value(t, tab)),
{
    assert(node_float_free(t.node));
    if let NodeV::Exp { kind: ExpV::Id { name }, .. } = t.node {
        let i = index_of(tab, name);
        if i >= 0 {
            assert(not_float(tab[i].1.value));
        }
    }
}

/// Evaluating a list without floats, with a table without floats, does not
/// depend on the float operations, and gives a list and a table without
/// floats.
#[verifier::spinoff_prover]
pub proof fn lemma_ev_tree_no_floats(t: TreeV, s: EvState, fl1: FloatOps, fl2: FloatOps)
    requires
        float_free(t),
        tab_float_free(s.tab),
    ensures
        ev_tree(t, s, fl1) == ev_tree(t, s, fl2),
        ev_tree(t, s, fl1) matches Some((t2, s2)) ==> float_free(t2) && tab_float_free(s2.tab),
    decreases t,
{
    lemma_ev_node_no_floats(t.node, s, fl1, fl2);
    if let Some((_, s1)) = ev_node(t.node, s, fl1) {
        lemma_ev_opt_no_floats(t.sibling, s1, fl1, fl2);
    }
}

#[verifier::spinoff_prover]
pub proof fn lemma_ev_opt_no_floats(o: Option<Box<TreeV>>, s: EvState, fl1: FloatOps, fl2: FloatOps)
    requires
        opt_float_free(o),
        tab_float_free(s.tab),
    ensures
        ev_opt(o, s, fl1) == ev_opt(o, s, fl2),
        ev_opt(o, s, fl1) matches Some((o2, s2)) ==> opt_float_free(o2) && tab_float_free(s2.tab),
    decreases o,
{
    if let Some(t) = o {
        lemma_ev_tree_no_floats(*t, s, fl1, fl2);
    }
}

#[verifier::spinoff_prover]
pub proof fn lemma_ev_node_no_floats(n: NodeV, s: EvState, fl1: FloatOps, fl2: FloatOps)
    requires
        node_float_free(n),
        tab_float_free(s.tab),
    ensures
        ev_node(n, s, fl1) == ev_node(n, s, fl2),
        ev_node(n, s, fl1) matches Some((n2, s2)) ==> node_float_free(n2) && tab_float_free(s2.tab),
    decreases n,
{
    match n {
        NodeV::Stmt { kind, .. } => match kind {
            StmtV::If { condition, then_branch, else_branch } => {
                lemma_ev_tree_no_floats(*condition, s, fl1, fl2);
                if let Some((_, s1)) = ev_tree(*condition, s, fl1) {
                    lemma_ev_opt_no_floats(then_branch, s1, fl1, fl2);
                    if let Some((_, s2)) = ev_opt(then_branch, s1, fl1) {
                        lemma_ev_opt_no_floats(else_branch, s2, fl1, fl2);
                    }
                }
            },
            StmtV::While { condition, body } => {
                lemma_ev_tree_no_floats(*condition, s, fl1, fl2);
                if let Some((_, s1)) = ev_tree(*condition, s, fl1) {
                    lemma_ev_opt_no_floats(body, s1, fl1, fl2);
                }
            },
            StmtV::Do { body, condition } => {
                lemma_ev_opt_no_floats(body, s, fl1, fl2);
                if let Some((_, s1)) = ev_opt(body, s, fl1) {
                    lemma_ev_tree_no_floats(*condition, s1, fl1, fl2);
                }
            },
            StmtV::Assign { name, value } => {
                lemma_ev_tree_no_floats(*value, s, fl1, fl2);
                if let Some((v2, s1)) = ev_tree(*value, s, fl1) {
                    assert(node_float_free(v2.node));
                    if let NodeV::Exp { val, .. } = v2.node {
                        assert(not_float(val));
                        let tab2 = assign_value(s1.tab, name, val);
                        let j = index_of(s1.tab, name);
                        assert forall|i: int| 0 <= i < tab2.len() implies not_float(#[trigger] tab2[i].1.value) by {
                            if j >= 0 && i == j {
                                assert(tab2[i].1.value == val);
                            } else {
                                assert(tab2[i] == s1.tab[i]);
                            }
                        }
                    }
                }
            },
            StmtV::In { .. } => {},
            StmtV::Out { expression } => lemma_ev_tree_no_floats(*expression, s, fl1, fl2),
        },
        NodeV::Exp { kind, cursor, .. } => match kind {
            ExpV::Op { op, left, right } => {
                lemma_ev_tree_no_floats(*left, s, fl1, fl2);
                if let Some((l2, s1)) = ev_tree(*left, s, fl1) {
                    lemma_ev_opt_no_floats(right, s1, fl1, fl2);
                    if let Some((r2, s2)) = ev_opt(right, s1, fl1) {
                        lemma_expr_value_no_float(l2, s2.tab);
                        if let Some(rb) = r2 {
                            lemma_expr_value_no_float(*rb, s2.tab);
                        }
                        lemma_op_step_no_floats(op, expr_value(l2, s2.tab), r2, s2.tab, cursor, s2.errs, fl1, fl2);
                    }
                }
            },
            ExpV::Id { name } => {
                let i = index_of(s.tab, name);
                if i >= 0 {
                    assert(not_float(s.tab[i].1.value));
                }
            },
            _ => {},
        },
        NodeV::Decl { .. } => {},
    }
}

/// The analysis of a program without floats, by an analyzer whose table
/// holds no float, does not depend on the float operations: any two give
/// the same result.
#[verifier::spinoff_prover]
pub proof fn lemma_analysis_without_floats(
    t: TreeV,
    errs: Seq<SymbolErrorV>,
    tab: Seq<(Seq<char>, SymbolDataV)>,
    fl1: FloatOps,
    fl2: FloatOps,
)
    requires
        float_free(t),
        tab_float_free(tab),
    ensures
        analysis(t, errs, tab, fl1) == analysis(t, errs, tab, fl2),
{
    let s0 = SymState { tab, errs, loc: 0 };
    lemma_sym_tree_float_free(t, s0);
    if let Some(s1) = sym_tree(t, s0) {
        lemma_ty_tree_float_free(t, s1.tab, s1.errs);
        if let Some((t2, e2)) = ty_tree(t, s1.tab, s1.errs) {
            lemma_ev_tree_no_floats(t2, EvState { tab: s1.tab, errs: e2 }, fl1, fl2);
        }
    }
}

} // verus!
