//! What the evaluation leaves in the symbol table: each variable holds the
//! value of the last assignment to it, read off the evaluated tree.

use vstd::prelude::*;
use crate::analyze_model::{
    analysis, assign_value, ev_node, ev_opt, ev_tree, index_of, key_at, lemma_ev_node_names, lemma_ev_opt_names,
    lemma_ev_tree_names, lemma_sym_tree_wf, same_names, sym_children, sym_opt, sym_tree, sym_visit, ty_tree, unique_keys,
    EvState, FloatOps, SymState,
};
use crate::structures::{ExpV, NodeV, StmtV, SymbolDataV, TreeV, ValueV};

verus! {

/// The value `name` holds after the assignments of a list of nodes, walked
/// as the evaluation walks it (a node's children before the node, a node
/// before its siblings), when it held `v` before them: the value of the
/// last assignment to `name`, or `v` where none assigns it.
pub open spec fn stored_tree(t: TreeV, name: Seq<char>, v: Option<ValueV>) -> Option<ValueV>
    decreases t,
{
    stored_opt(t.sibling, name, stored_node(t.node, name, v))
}

pub open spec fn stored_opt(o: Option<Box<TreeV>>, name: Seq<char>, v: Option<ValueV>) -> Option<ValueV>
    decreases o,
{
    match o {
        Some(t) => stored_tree(*t, name, v),
        None => v,
    }
}

pub open spec fn stored_node(n: NodeV, name: Seq<char>, v: Option<ValueV>) -> Option<ValueV>
    decreases n,
{
    match n {
        NodeV::Stmt { kind, .. } => match kind {
            StmtV::If { condition, then_branch, else_branch } => stored_opt(
                else_branch,
                name,
                stored_opt(then_branch, name, stored_tree(*condition, name, v)),
            ),
            StmtV::While { condition, body } => stored_opt(body, name, stored_tree(*condition, name, v)),
            StmtV::Do { body, condition } => stored_tree(*condition, name, stored_opt(body, name, v)),
            StmtV::Assign { name: target, value } => {
                let after = stored_tree(*value, name, v);
                match value.node {
                    NodeV::Exp { val, .. } => if target == name { val } else { after },
                    _ => after,
                }
            },
            StmtV::In { .. } => v,
            StmtV::Out { expression } => stored_tree(*expression, name, v),
        },
        NodeV::Exp { kind, .. } => match kind {
            ExpV::Op { left, right, .. } => stored_opt(right, name, stored_tree(*left, name, v)),
            _ => v,
        },
        NodeV::Decl { .. } => v,
    }
}

/// An assignment changes the entry of its own name and no other.
proof fn lemma_assign_value_at(
    tab: Seq<(Seq<char>, SymbolDataV)>,
    target: Seq<char>,
    v: Option<ValueV>,
    i: int,
)
    requires
        unique_keys(tab),
        0 <= i < tab.len(),
    ensures
        assign_value(tab, target, v)[i].1.value == if target == tab[i].0 { v } else { tab[i].1.value },
{
    let j = index_of(tab, target);
    if target == tab[i].0 {
        assert(key_at(tab, target, i));
        assert(key_at(tab, target, j));
        assert(j == i);
    } else if j >= 0 {
        assert(key_at(tab, target, j));
        assert(j != i);
    }
}

/// Names the entry `i` keeps through the walk, with the table's keys unique.
pub open spec fn entry_of(s: EvState, i: int, name: Seq<char>) -> bool {
    &&& unique_keys(s.tab)
    &&& 0 <= i < s.tab.len()
    &&& s.tab[i].0 == name
}

proof fn lemma_entry_kept(s: EvState, s2: EvState, i: int, name: Seq<char>)
    requires
        entry_of(s, i, name),
        same_names(s.tab, s2.tab),
    ensures
        entry_of(s2, i, name),
{
    assert forall|a: int, b: int|
        0 <= a < s2.tab.len() && 0 <= b < s2.tab.len() && a != b implies #[trigger] s2.tab[a].0
        != #[trigger] s2.tab[b].0 by {
        assert(s2.tab[a].0 == s.tab[a].0);
        assert(s2.tab[b].0 == s.tab[b].0);
    }
}

/// The evaluation of a list of nodes leaves in the entry of each variable
/// the value of the last assignment to it, in the order of the walk; an
/// entry that no assignment names keeps its value.
pub proof fn lemma_ev_tree_stores(t: TreeV, s: EvState, fl: FloatOps, i: int, name: Seq<char>)
    requires
        entry_of(s, i, name),
    ensures
        ev_tree(t, s, fl) matches Some((t2, s2)) ==> s2.tab[i].1.value == stored_tree(t2, name, s.tab[i].1.value),
    decreases t,
{
    lemma_ev_node_stores(t.node, s, fl, i, name);
    lemma_ev_node_names(t.node, s, fl);
    if let Some((_, s1)) = ev_node(t.node, s, fl) {
        lemma_entry_kept(s, s1, i, name);
        lemma_ev_opt_stores(t.sibling, s1, fl, i, name);
    }
}

pub proof fn lemma_ev_opt_stores(o: Option<Box<TreeV>>, s: EvState, fl: FloatOps, i: int, name: Seq<char>)
    requires
        entry_of(s, i, name),
    ensures
        ev_opt(o, s, fl) matches Some((o2, s2)) ==> s2.tab[i].1.value == stored_opt(o2, name, s.tab[i].1.value),
    decreases o,
{
    if let Some(t) = o {
        lemma_ev_tree_stores(*t, s, fl, i, name);
    }
}

pub proof fn lemma_ev_node_stores(n: NodeV, s: EvState, fl: FloatOps, i: int, name: Seq<char>)
    requires
        entry_of(s, i, name),
    ensures
        ev_node(n, s, fl) matches Some((n2, s2)) ==> s2.tab[i].1.value == stored_node(n2, name, s.tab[i].1.value),
    decreases n,
{
    match n {
        NodeV::Stmt { kind, .. } => match kind {
            StmtV::If { condition, then_branch, else_branch } => {
                lemma_ev_tree_stores(*condition, s, fl, i, name);
                lemma_ev_tree_names(*condition, s, fl);
                if let Some((_, s1)) = ev_tree(*condition, s, fl) {
                    lemma_entry_kept(s, s1, i, name);
                    lemma_ev_opt_stores(then_branch, s1, fl, i, name);
                    lemma_ev_opt_names(then_branch, s1, fl);
                    if let Some((_, s2)) = ev_opt(then_branch, s1, fl) {
                        lemma_entry_kept(s1, s2, i, name);
                        lemma_ev_opt_stores(else_branch, s2, fl, i, name);
                    }
                }
            },
            StmtV::While { condition, body } => {
                lemma_ev_tree_stores(*condition, s, fl, i, name);
                lemma_ev_tree_names(*condition, s, fl);
                if let Some((_, s1)) = ev_tree(*condition, s, fl) {
                    lemma_entry_kept(s, s1, i, name);
                    lemma_ev_opt_stores(body, s1, fl, i, name);
                }
            },
            StmtV::Do { body, condition } => {
                lemma_ev_opt_stores(body, s, fl, i, name);
                lemma_ev_opt_names(body, s, fl);
                if let Some((_, s1)) = ev_opt(body, s, fl) {
                    lemma_entry_kept(s, s1, i, name);
                    lemma_ev_tree_stores(*condition, s1, fl, i, name);
                }
            },
            StmtV::Assign { name: target, value } => {
                lemma_ev_tree_stores(*value, s, fl, i, name);
                lemma_ev_tree_names(*value, s, fl);
                if let Some((v2, s1)) = ev_tree(*value, s, fl) {
                    lemma_entry_kept(s, s1, i, name);
                    if let NodeV::Exp { val, .. } = v2.node {
                        lemma_assign_value_at(s1.tab, target, val, i);
                    }
                }
            },
            StmtV::In { .. } => {},
            StmtV::Out { expression } => lemma_ev_tree_stores(*expression, s, fl, i, name),
        },
        NodeV::Exp { kind, .. } => match kind {
            ExpV::Op { left, right, .. } => {
                lemma_ev_tree_stores(*left, s, fl, i, name);
                lemma_ev_tree_names(*left, s, fl);
                if let Some((_, s1)) = ev_tree(*left, s, fl) {
                    lemma_entry_kept(s, s1, i, name);
                    lemma_ev_opt_stores(right, s1, fl, i, name);
                }
            },
            _ => {},
        },
        NodeV::Decl { .. } => {},
    }
}

/// No entry of the table holds a value yet.
pub open spec fn no_values(tab: Seq<(Seq<char>, SymbolDataV)>) -> bool {
    forall|i: int| 0 <= i < tab.len() ==> #[trigger] tab[i].1.value is None
}

/// The first walk only declares and records uses: it gives no variable a
/// value.
proof fn lemma_sym_tree_no_values(t: TreeV, s: SymState)
    requires
        no_values(s.tab),
    ensures
        sym_tree(t, s) matches Some(s2) ==> no_values(s2.tab),
    decreases t,
{
    if let Some(s1) = sym_visit(t.node, s) {
        assert(no_values(s1.tab)) by {
            assert forall|i: int| 0 <= i < s1.tab.len() implies #[trigger] s1.tab[i].1.value is None by {
                if i < s.tab.len() {
                    assert(s.tab[i].1.value is None);
                }
            }
        }
        lemma_sym_children_no_values(t.node, s1);
        if let Some(s2) = sym_children(t.node, s1) {
            lemma_sym_opt_no_values(t.sibling, s2);
        }
    }
}

proof fn lemma_sym_opt_no_values(o: Option<Box<TreeV>>, s: SymState)
    requires
        no_values(s.tab),
    ensures
        sym_opt(o, s) matches Some(s2) ==> no_values(s2.tab),
    decreases o,
{
    if let Some(t) = o {
        lemma_sym_tree_no_values(*t, s);
    }
}

proof fn lemma_sym_children_no_values(n: NodeV, s: SymState)
    requires
        no_values(s.tab),
    ensures
        sym_children(n, s) matches Some(s2) ==> no_values(s2.tab),
    decreases n,
{
    match n {
        NodeV::Stmt { kind, .. } => match kind {
            StmtV::If { condition, then_branch, else_branch } => {
                lemma_sym_tree_no_values(*condition, s);
                if let Some(s1) = sym_tree(*condition, s) {
                    lemma_sym_opt_no_values(then_branch, s1);
                    if let Some(s2) = sym_opt(then_branch, s1) {
                        lemma_sym_opt_no_values(else_branch, s2);
                    }
                }
            },
            StmtV::While { condition, body } => {
                lemma_sym_tree_no_values(*condition, s);
                if let Some(s1) = sym_tree(*condition, s) {
                    lemma_sym_opt_no_values(body, s1);
                }
            },
            StmtV::Do { body, condition } => {
                lemma_sym_opt_no_values(body, s);
                if let Some(s1) = sym_opt(body, s) {
                    lemma_sym_tree_no_values(*condition, s1);
                }
            },
            StmtV::Assign { value, .. } => lemma_sym_tree_no_values(*value, s),
            StmtV::In { .. } => {},
            StmtV::Out { expression } => lemma_sym_tree_no_values(*expression, s),
        },
        NodeV::Exp { kind, .. } => match kind {
            ExpV::Op { left, right, .. } => {
                lemma_sym_tree_no_values(*left, s);
                if let Some(s1) = sym_tree(*left, s) {
                    lemma_sym_opt_no_values(right, s1);
                }
            },
            _ => {},
        },
        NodeV::Decl { .. } => {},
    }
}

/// After the analysis of a program by a new analyzer, each variable of the
/// table holds the value of the last assignment to it, in the order in which
/// the evaluation walks the annotated tree (a node's children before the
/// node, a node before its siblings), whatever `if`, `while` or `do`
/// encloses that assignment; a variable that nothing assigns holds no
/// value.
pub proof fn lemma_analysis_last_assignment(t: TreeV, fl: FloatOps)
    ensures
        analysis(t, seq![], seq![], fl) matches Some((t3, _, tab)) ==> forall|i: int|
            0 <= i < tab.len() ==> #[trigger] tab[i].1.value == stored_tree(t3, tab[i].0, None),
{
    let s0 = SymState { tab: seq![], errs: seq![], loc: 0 };
    lemma_sym_tree_wf(t, s0);
    lemma_sym_tree_no_values(t, s0);
    if let Some(s1) = sym_tree(t, s0) {
        if let Some((t2, e2)) = ty_tree(t, s1.tab, s1.errs) {
            let es = EvState { tab: s1.tab, errs: e2 };
            lemma_ev_tree_names(t2, es, fl);
            if let Some((t3, s3)) = ev_tree(t2, es, fl) {
                assert forall|i: int| 0 <= i < s3.tab.len() implies #[trigger] s3.tab[i].1.value == stored_tree(
                    t3,
                    s3.tab[i].0,
                    None,
                ) by {
                    assert(s3.tab[i].0 == s1.tab[i].0);
                    assert(s1.tab[i].1.value is None);
                    lemma_ev_tree_stores(t2, es, fl, i, s1.tab[i].0);
                }
            }
        }
    }
}

} // verus!
