//! The shape of a syntax tree (the subtrees below each node and the number
//! of nodes), and what the walks and the text form do with every part of
//! it.

use vstd::prelude::*;
use crate::render::{node_text, opt_text, spaces, tree_text};
use crate::structures::{ExpV, NodeV, StmtV, TreeV};
use crate::tree::{post_children, post_opt, post_order, pre_children, pre_opt, pre_order};

verus! {

pub open spec fn opt_child(o: Option<Box<TreeV>>) -> Seq<TreeV> {
    match o {
        Some(t) => seq![*t],
        None => seq![],
    }
}

/// The lists of nodes directly below a node: the condition and the branches
/// of an `if`, the condition and the body of a loop, the value of an
/// assignment, the expression of an output and the operands of an operator.
pub open spec fn children(n: NodeV) -> Seq<TreeV> {
    match n {
        NodeV::Stmt { kind, .. } => match kind {
            StmtV::If { condition, then_branch, else_branch } => seq![*condition] + opt_child(then_branch) + opt_child(
                else_branch,
            ),
            StmtV::While { condition, body } => seq![*condition] + opt_child(body),
            StmtV::Do { body, condition } => opt_child(body) + seq![*condition],
            StmtV::Assign { value, .. } => seq![*value],
            StmtV::In { .. } => seq![],
            StmtV::Out { expression } => seq![*expression],
        },
        NodeV::Exp { kind, .. } => match kind {
            ExpV::Op { left, right, .. } => seq![*left] + opt_child(right),
            _ => seq![],
        },
        NodeV::Decl { .. } => seq![],
    }
}

/// The number of nodes of a list: each node, the nodes below it and the
/// nodes that follow it.
pub open spec fn tree_size(t: TreeV) -> nat
    decreases t,
{
    1 + below_size(t.node) + opt_size(t.sibling)
}

pub open spec fn opt_size(o: Option<Box<TreeV>>) -> nat
    decreases o,
{
    match o {
        Some(t) => tree_size(*t),
        None => 0,
    }
}

/// The number of nodes below a node.
pub open spec fn below_size(n: NodeV) -> nat
    decreases n,
{
    match n {
        NodeV::Stmt { kind, .. } => match kind {
            StmtV::If { condition, then_branch, else_branch } => tree_size(*condition) + opt_size(then_branch) + opt_size(
                else_branch,
            ),
            StmtV::While { condition, body } => tree_size(*condition) + opt_size(body),
            StmtV::Do { body, condition } => opt_size(body) + tree_size(*condition),
            StmtV::Assign { value, .. } => tree_size(*value),
            StmtV::In { .. } => 0,
            StmtV::Out { expression } => tree_size(*expression),
        },
        NodeV::Exp { kind, .. } => match kind {
            ExpV::Op { left, right, .. } => tree_size(*left) + opt_size(right),
            _ => 0,
        },
        NodeV::Decl { .. } => 0,
    }
}

/// The pre-order walk visits every node once: it has as many entries as
/// the list has nodes, and it starts with the first node.
pub proof fn lemma_pre_order_size(t: TreeV)
    ensures
        pre_order(t).len() == tree_size(t),
        pre_order(t)[0] == t.node,
    decreases t,
{
    lemma_pre_children_size(t.node);
    lemma_pre_opt_size(t.sibling);
}

pub proof fn lemma_pre_opt_size(o: Option<Box<TreeV>>)
    ensures
        pre_opt(o).len() == opt_size(o),
    decreases o,
{
    if let Some(t) = o {
        lemma_pre_order_size(*t);
    }
}

/// Below each node, the pre-order walk visits every node of the subtrees
/// below it once.
pub proof fn lemma_pre_children_size(n: NodeV)
    ensures
        pre_children(n).len() == below_size(n),
    decreases n,
{
    match n {
        NodeV::Stmt { kind, .. } => match kind {
            StmtV::If { condition, then_branch, else_branch } => {
                lemma_pre_order_size(*condition);
                lemma_pre_opt_size(then_branch);
                lemma_pre_opt_size(else_branch);
            },
            StmtV::While { condition, body } => {
                lemma_pre_order_size(*condition);
                lemma_pre_opt_size(body);
            },
            StmtV::Do { body, condition } => {
                lemma_pre_opt_size(body);
                lemma_pre_order_size(*condition);
            },
            StmtV::Assign { value, .. } => lemma_pre_order_size(*value),
            StmtV::In { .. } => {},
            StmtV::Out { expression } => lemma_pre_order_size(*expression),
        },
        NodeV::Exp { kind, .. } => match kind {
            ExpV::Op { left, right, .. } => {
                lemma_pre_order_size(*left);
                lemma_pre_opt_size(right);
            },
            _ => {},
        },
        NodeV::Decl { .. } => {},
    }
}

/// The post-order walk visits every node once: it has as many entries as
/// the list has nodes, and the first node comes right after the nodes below
/// it.
pub proof fn lemma_post_order_size(t: TreeV)
    ensures
        post_order(t).len() == tree_size(t),
        post_order(t)[below_size(t.node) as int] == t.node,
    decreases t,
{
    lemma_post_children_size(t.node);
    lemma_post_opt_size(t.sibling);
}

pub proof fn lemma_post_opt_size(o: Option<Box<TreeV>>)
    ensures
        post_opt(o).len() == opt_size(o),
    decreases o,
{
    if let Some(t) = o {
        lemma_post_order_size(*t);
    }
}

pub proof fn lemma_post_children_size(n: NodeV)
    ensures
        post_children(n).len() == below_size(n),
    decreases n,
{
    match n {
        NodeV::Stmt { kind, .. } => match kind {
            StmtV::If { condition, then_branch, else_branch } => {
                lemma_post_order_size(*condition);
                lemma_post_opt_size(then_branch);
                lemma_post_opt_size(else_branch);
            },
            StmtV::While { condition, body } => {
                lemma_post_order_size(*condition);
                lemma_post_opt_size(body);
            },
            StmtV::Do { body, condition } => {
                lemma_post_opt_size(body);
                lemma_post_order_size(*condition);
            },
            StmtV::Assign { value, .. } => lemma_post_order_size(*value),
            StmtV::In { .. } => {},
            StmtV::Out { expression } => lemma_post_order_size(*expression),
        },
        NodeV::Exp { kind, .. } => match kind {
            ExpV::Op { left, right, .. } => {
                lemma_post_order_size(*left);
                lemma_post_opt_size(right);
            },
            _ => {},
        },
        NodeV::Decl { .. } => {},
    }
}

/// The pre-order walks of the lists `s`, one after the other.
pub open spec fn pre_all(s: Seq<TreeV>) -> Seq<NodeV>
    decreases s.len(),
{
    if s.len() == 0 {
        seq![]
    } else {
        pre_order(s[0]) + pre_all(s.drop_first())
    }
}

/// The post-order walks of the lists `s`, one after the other.
pub open spec fn post_all(s: Seq<TreeV>) -> Seq<NodeV>
    decreases s.len(),
{
    if s.len() == 0 {
        seq![]
    } else {
        post_order(s[0]) + post_all(s.drop_first())
    }
}

proof fn lemma_all_unfold(a: TreeV, rest: Seq<TreeV>)
    ensures
        pre_all(seq![a] + rest) == pre_order(a) + pre_all(rest),
        post_all(seq![a] + rest) == post_order(a) + post_all(rest),
{
    assert((seq![a] + rest).drop_first() =~= rest);
}

proof fn lemma_all_opt(o: Option<Box<TreeV>>, rest: Seq<TreeV>)
    ensures
        pre_all(opt_child(o) + rest) == pre_opt(o) + pre_all(rest),
        post_all(opt_child(o) + rest) == post_opt(o) + post_all(rest),
{
    match o {
        Some(t) => lemma_all_unfold(*t, rest),
        None => {
            assert(opt_child(o) + rest =~= rest);
            assert(pre_opt(o) + pre_all(rest) =~= pre_all(rest));
            assert(post_opt(o) + post_all(rest) =~= post_all(rest));
        },
    }
}

/// Both walks visit the lists below a node in order: the pre-order walk
/// gives the node, then the walks of the lists below it one after the
/// other, then the nodes that follow; the post-order walk gives the walks
/// of the lists below it, then the node, then the nodes that follow.
pub proof fn lemma_walks_follow_children(t: TreeV)
    ensures
        pre_order(t) == seq![t.node] + pre_all(children(t.node)) + pre_opt(t.sibling),
        post_order(t) == post_all(children(t.node)) + seq![t.node] + post_opt(t.sibling),
{
    let e: Seq<TreeV> = seq![];
    let n = t.node;
    assert(pre_all(e) == Seq::<NodeV>::empty());
    assert(post_all(e) == Seq::<NodeV>::empty());
    match n {
        NodeV::Stmt { kind, .. } => match kind {
            StmtV::If { condition, then_branch, else_branch } => {
                lemma_all_opt(else_branch, e);
                lemma_all_opt(then_branch, opt_child(else_branch));
                lemma_all_unfold(*condition, opt_child(then_branch) + opt_child(else_branch));
                assert(children(n) =~= seq![*condition] + (opt_child(then_branch) + opt_child(else_branch)));
                assert(opt_child(else_branch) + e =~= opt_child(else_branch));
            },
            StmtV::While { condition, body } => {
                lemma_all_opt(body, e);
                lemma_all_unfold(*condition, opt_child(body));
                assert(opt_child(body) + e =~= opt_child(body));
            },
            StmtV::Do { body, condition } => {
                lemma_all_unfold(*condition, e);
                lemma_all_opt(body, seq![*condition]);
                assert(seq![*condition] + e =~= seq![*condition]);
            },
            StmtV::Assign { value, .. } => {
                lemma_all_unfold(*value, e);
                assert(seq![*value] + e =~= seq![*value]);
            },
            StmtV::In { .. } => {},
            StmtV::Out { expression } => {
                lemma_all_unfold(*expression, e);
                assert(seq![*expression] + e =~= seq![*expression]);
            },
        },
        NodeV::Exp { kind, .. } => match kind {
            ExpV::Op { left, right, .. } => {
                lemma_all_opt(right, e);
                lemma_all_unfold(*left, opt_child(right));
                assert(opt_child(right) + e =~= opt_child(right));
            },
            _ => {},
        },
        NodeV::Decl { .. } => {},
    }
    assert(pre_order(t) =~= seq![t.node] + pre_all(children(t.node)) + pre_opt(t.sibling));
    assert(post_order(t) =~= post_all(children(t.node)) + seq![t.node] + post_opt(t.sibling));
}

/// `part` occurs in `s` as a contiguous piece.
pub open spec fn contains_text(s: Seq<char>, part: Seq<char>) -> bool {
    exists|p: Seq<char>, q: Seq<char>| #[trigger] (p + part + q) == s
}

proof fn lemma_contains_at(s: Seq<char>, p: Seq<char>, part: Seq<char>, q: Seq<char>)
    requires
        s =~= p + part + q,
    ensures
        contains_text(s, part),
{
    assert(p + part + q == s);
}

pub open spec fn opt_headed(heading: Seq<char>, o: Option<Box<TreeV>>) -> Seq<(Seq<char>, TreeV)> {
    match o {
        Some(t) => seq![(heading, *t)],
        None => seq![],
    }
}

/// The lists of nodes directly below a node, each with the heading line
/// that the text form writes above it (after the node's indent).
pub open spec fn headed_children(n: NodeV) -> Seq<(Seq<char>, TreeV)> {
    match n {
        NodeV::Stmt { kind, .. } => match kind {
            StmtV::If { condition, then_branch, else_branch } => seq![("  Condition:\n"@, *condition)] + opt_headed(
                "  Then Branch:\n"@,
                then_branch,
            ) + opt_headed("  Else Branch:\n"@, else_branch),
            StmtV::While { condition, body } => seq![("  Condition:\n"@, *condition)] + opt_headed("  Body:\n"@, body),
            StmtV::Do { body, condition } => opt_headed("  Body:\n"@, body) + seq![("  Condition:\n"@, *condition)],
            StmtV::Assign { value, .. } => seq![("  Value:\n"@, *value)],
            StmtV::In { .. } => seq![],
            StmtV::Out { expression } => seq![("  Expression:\n"@, *expression)],
        },
        NodeV::Exp { kind, .. } => match kind {
            ExpV::Op { left, right, .. } => seq![("  Left:\n"@, *left)] + opt_headed("  Right:\n"@, right),
            _ => seq![],
        },
        NodeV::Decl { .. } => seq![],
    }
}

/// The headed lists below a node are the lists below it, in order.
pub proof fn lemma_headed_children(n: NodeV)
    ensures
        headed_children(n).len() == children(n).len(),
        forall|k: int| 0 <= k < children(n).len() ==> #[trigger] headed_children(n)[k].1 == children(n)[k],
{
}

/// The text of a node holds, for every list of nodes below it, its heading
/// line at the node's indent followed by the text of the list indented four
/// columns more than the node.
pub proof fn lemma_children_rendered(n: NodeV, indent: nat, k: int)
    requires
        0 <= k < headed_children(n).len(),
    ensures
        contains_text(
            node_text(n, indent),
            spaces(indent) + headed_children(n)[k].0 + tree_text(headed_children(n)[k].1, indent + 4),
        ),
{
    let s = node_text(n, indent);
    let sp = spaces(indent);
    let inner = (indent + 4) as nat;
    let none: Seq<char> = seq![];
    match n {
        NodeV::Stmt { kind, .. } => match kind {
            StmtV::If { condition, then_branch, else_branch } => {
                let cs = tree_text(*condition, inner);
                let ts = opt_text(then_branch, inner);
                let es = match else_branch {
                    Some(e) => sp + "  Else Branch:\n"@ + tree_text(*e, inner),
                    None => none,
                };
                let h0 = sp + "Stmt: If\n"@;
                let c1 = sp + "  Condition:\n"@ + cs;
                let t1 = sp + "  Then Branch:\n"@ + ts;
                assert(s =~= h0 + c1 + t1 + es);
                if k == 0 {
                    assert(headed_children(n)[0] == ("  Condition:\n"@, *condition));
                    lemma_contains_at(s, h0, c1, t1 + es);
                } else if k == 1 && then_branch is Some {
                    let t = then_branch->0;
                    assert(headed_children(n)[1] == ("  Then Branch:\n"@, *t));
                    lemma_contains_at(s, h0 + c1, t1, es);
                } else {
                    let e = else_branch->0;
                    assert(headed_children(n)[k] == ("  Else Branch:\n"@, *e));
                    lemma_contains_at(s, h0 + c1 + t1, es, none);
                }
            },
            StmtV::While { condition, body } => {
                let h0 = sp + "Stmt: While\n"@;
                let c1 = sp + "  Condition:\n"@ + tree_text(*condition, inner);
                let b1 = sp + "  Body:\n"@ + opt_text(body, inner);
                assert(s =~= h0 + c1 + b1);
                if k == 0 {
                    assert(headed_children(n)[0] == ("  Condition:\n"@, *condition));
                    lemma_contains_at(s, h0, c1, b1);
                } else {
                    let b = body->0;
                    assert(headed_children(n)[1] == ("  Body:\n"@, *b));
                    lemma_contains_at(s, h0 + c1, b1, none);
                }
            },
            StmtV::Do { body, condition } => {
                let h0 = sp + "Stmt: Do\n"@;
                let b1 = sp + "  Body:\n"@ + opt_text(body, inner);
                let c1 = sp + "  Condition:\n"@ + tree_text(*condition, inner);
                assert(s =~= h0 + b1 + c1);
                if k == 0 && body is Some {
                    let b = body->0;
                    assert(headed_children(n)[0] == ("  Body:\n"@, *b));
                    lemma_contains_at(s, h0, b1, c1);
                } else {
                    assert(headed_children(n)[k] == ("  Condition:\n"@, *condition));
                    lemma_contains_at(s, h0 + b1, c1, none);
                }
            },
            StmtV::Assign { name, value } => {
                let h0 = sp + "Stmt: Assign (Name: "@ + name + ") | Value: "@ + crate::render::value_debug(
                    crate::render::assigned_value(*value),
                ) + "\n"@;
                let v1 = sp + "  Value:\n"@ + tree_text(*value, inner);
                assert(s =~= h0 + v1);
                assert(headed_children(n)[0] == ("  Value:\n"@, *value));
                lemma_contains_at(s, h0, v1, none);
            },
            StmtV::In { .. } => {},
            StmtV::Out { expression } => {
                let h0 = sp + "Stmt: Out\n"@;
                let x1 = sp + "  Expression:\n"@ + tree_text(*expression, inner);
                assert(s =~= h0 + x1);
                assert(headed_children(n)[0] == ("  Expression:\n"@, *expression));
                lemma_contains_at(s, h0, x1, none);
            },
        },
        NodeV::Exp { kind, typ, val, .. } => match kind {
            ExpV::Op { op, left, right } => {
                let h0 = sp + "Exp: Op ("@ + crate::token::spec_token_type_name(op) + ") | Type "@
                    + crate::render::exp_type_text(typ) + match val {
                    Some(v) => " Val: "@ + crate::render::value_plain(v),
                    None => none,
                } + "\n"@;
                let l1 = sp + "  Left:\n"@ + tree_text(*left, inner);
                let r1 = sp + "  Right:\n"@ + opt_text(right, inner);
                assert(s =~= h0 + l1 + r1);
                if k == 0 {
                    assert(headed_children(n)[0] == ("  Left:\n"@, *left));
                    lemma_contains_at(s, h0, l1, r1);
                } else {
                    let r = right->0;
                    assert(headed_children(n)[1] == ("  Right:\n"@, *r));
                    lemma_contains_at(s, h0 + l1, r1, none);
                }
            },
            _ => {},
        },
        NodeV::Decl { .. } => {},
    }
}

/// The text of a list of nodes holds the text of its first node and,
/// at the same indent, the text of the nodes that follow it.
pub proof fn lemma_list_rendered(t: TreeV, indent: nat)
    ensures
        contains_text(tree_text(t, indent), node_text(t.node, indent)),
        t.sibling matches Some(s) ==> contains_text(tree_text(t, indent), tree_text(*s, indent)),
{
    let none: Seq<char> = seq![];
    lemma_contains_at(tree_text(t, indent), none, node_text(t.node, indent), opt_text(t.sibling, indent));
    if let Some(s) = t.sibling {
        lemma_contains_at(tree_text(t, indent), node_text(t.node, indent), tree_text(*s, indent), none);
    }
}

} // verus!
