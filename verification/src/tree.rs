//! Building and walking syntax trees.

use vstd::prelude::*;
use crate::structures::{
    node_view, opt_tree_view, tree_view, ExpKind, ExpV, Node, NodeV, StmtKind, StmtV, TreeNode, TreeV,
};

verus! {

/// The last node of a list of siblings.
pub open spec fn last_node(t: TreeV) -> TreeV
    decreases t,
{
    match t.sibling {
        Some(s) => last_node(*s),
        None => t,
    }
}

/// The list `t` with its last node replaced by the list `new_last`.
pub open spec fn replace_last(t: TreeV, new_last: TreeV) -> TreeV
    decreases t,
{
    match t.sibling {
        Some(s) => TreeV { sibling: Some(Box::new(replace_last(*s, new_last))), node: t.node },
        None => new_last,
    }
}

/// The nodes of a list in pre-order: each node, then its children in order,
/// then the nodes that follow it.
pub open spec fn pre_order(t: TreeV) -> Seq<NodeV>
    decreases t,
{
    seq![t.node] + pre_children(t.node) + pre_opt(t.sibling)
}

pub open spec fn pre_opt(o: Option<Box<TreeV>>) -> Seq<NodeV>
    decreases o,
{
    match o {
        Some(t) => pre_order(*t),
        None => seq![],
    }
}

pub open spec fn pre_children(n: NodeV) -> Seq<NodeV>
    decreases n,
{
    match n {
        NodeV::Stmt { kind, .. } => match kind {
            StmtV::If { condition, then_branch, else_branch } => pre_order(*condition) + pre_opt(then_branch)
                + pre_opt(else_branch),
            StmtV::While { condition, body } => pre_order(*condition) + pre_opt(body),
            StmtV::Do { body, condition } => pre_opt(body) + pre_order(*condition),
            StmtV::Assign { value, .. } => pre_order(*value),
            StmtV::In { .. } => seq![],
            StmtV::Out { expression } => pre_order(*expression),
        },
        NodeV::Exp { kind, .. } => match kind {
            ExpV::Op { left, right, .. } => pre_order(*left) + pre_opt(right),
            _ => seq![],
        },
        NodeV::Decl { .. } => seq![],
    }
}

/// The nodes of a list in post-order: the children of each node in order,
/// then the node, then the nodes that follow it.
pub open spec fn post_order(t: TreeV) -> Seq<NodeV>
    decreases t,
{
    post_children(t.node) + seq![t.node] + post_opt(t.sibling)
}

pub open spec fn post_opt(o: Option<Box<TreeV>>) -> Seq<NodeV>
    decreases o,
{
    match o {
        Some(t) => post_order(*t),
        None => seq![],
    }
}

pub open spec fn post_children(n: NodeV) -> Seq<NodeV>
    decreases n,
{
    match n {
        NodeV::Stmt { kind, .. } => match kind {
            StmtV::If { condition, then_branch, else_branch } => post_order(*condition) + post_opt(then_branch)
                + post_opt(else_branch),
            StmtV::While { condition, body } => post_order(*condition) + post_opt(body),
            StmtV::Do { body, condition } => post_opt(body) + post_order(*condition),
            StmtV::Assign { value, .. } => post_order(*value),
            StmtV::In { .. } => seq![],
            StmtV::Out { expression } => post_order(*expression),
        },
        NodeV::Exp { kind, .. } => match kind {
            ExpV::Op { left, right, .. } => post_order(*left) + post_opt(right),
            _ => seq![],
        },
        NodeV::Decl { .. } => seq![],
    }
}

/// The models of a list of node references.
pub open spec fn nodes_view<'a>(v: Seq<&'a Node>) -> Seq<NodeV> {
    v.map_values(|n: &'a Node| node_view(*n))
}

fn last_in(b: &Box<TreeNode>) -> (r: &Box<TreeNode>)
    ensures
        tree_view(**r) == last_node(tree_view(**b)),
    decreases b,
{
    match &b.sibling {
        Some(s) => last_in(s),
        None => b,
    }
}

fn push_node<'a>(out: &mut Vec<&'a Node>, n: &'a Node)
    ensures
        nodes_view(final(out)@) == nodes_view(old(out)@) + seq![node_view(*n)],
{
    out.push(n);
    assert(nodes_view(out@) =~= nodes_view(old(out)@) + seq![node_view(*n)]);
}

fn pre_walk<'a>(t: &'a TreeNode, out: &mut Vec<&'a Node>)
    ensures
        nodes_view(final(out)@) == nodes_view(old(out)@) + pre_order(tree_view(*t)),
    decreases t,
{
    push_node(out, &t.node);
    pre_children_walk(&t.node, out);
    if let Some(s) = &t.sibling {
        pre_walk(s, out);
    }
    assert(nodes_view(out@) =~= nodes_view(old(out)@) + pre_order(tree_view(*t)));
}

fn pre_opt_walk<'a>(o: &'a Option<Box<TreeNode>>, out: &mut Vec<&'a Node>)
    ensures
        nodes_view(final(out)@) == nodes_view(old(out)@) + pre_opt(opt_tree_view(*o)),
    decreases o,
{
    match o {
        Some(t) => pre_walk(t, out),
        None => {
            assert(nodes_view(out@) =~= nodes_view(old(out)@) + pre_opt(opt_tree_view(*o)));
        },
    }
}

fn pre_children_walk<'a>(n: &'a Node, out: &mut Vec<&'a Node>)
    ensures
        nodes_view(final(out)@) == nodes_view(old(out)@) + pre_children(node_view(*n)),
    decreases n,
{
    let ghost before = nodes_view(out@);
    match n {
        Node::Stmt { kind, .. } => match kind {
            StmtKind::If { condition, then_branch, else_branch } => {
                pre_walk(condition, out);
                pre_opt_walk(then_branch, out);
                pre_opt_walk(else_branch, out);
            },
            StmtKind::While { condition, body } => {
                pre_walk(condition, out);
                pre_opt_walk(body, out);
            },
            StmtKind::Do { body, condition } => {
                pre_opt_walk(body, out);
                pre_walk(condition, out);
            },
            StmtKind::Assign { value, .. } => pre_walk(value, out),
            StmtKind::In { .. } => {},
            StmtKind::Out { expression } => pre_walk(expression, out),
        },
        Node::Exp { kind, .. } => match kind {
            ExpKind::Op { left, right, .. } => {
                pre_walk(left, out);
                pre_opt_walk(right, out);
            },
            _ => {},
        },
        Node::Decl { .. } => {},
    }
    assert(nodes_view(out@) =~= before + pre_children(node_view(*n)));
}

fn post_walk<'a>(t: &'a TreeNode, out: &mut Vec<&'a Node>)
    ensures
        nodes_view(final(out)@) == nodes_view(old(out)@) + post_order(tree_view(*t)),
    decreases t,
{
    post_children_walk(&t.node, out);
    push_node(out, &t.node);
    if let Some(s) = &t.sibling {
        post_walk(s, out);
    }
    assert(nodes_view(out@) =~= nodes_view(old(out)@) + post_order(tree_view(*t)));
}

fn post_opt_walk<'a>(o: &'a Option<Box<TreeNode>>, out: &mut Vec<&'a Node>)
    ensures
        nodes_view(final(out)@) == nodes_view(old(out)@) + post_opt(opt_tree_view(*o)),
    decreases o,
{
    match o {
        Some(t) => post_walk(t, out),
        None => {
            assert(nodes_view(out@) =~= nodes_view(old(out)@) + post_opt(opt_tree_view(*o)));
        },
    }
}

fn post_children_walk<'a>(n: &'a Node, out: &mut Vec<&'a Node>)
    ensures
        nodes_view(final(out)@) == nodes_view(old(out)@) + post_children(node_view(*n)),
    decreases n,
{
    let ghost before = nodes_view(out@);
    match n {
        Node::Stmt { kind, .. } => match kind {
            StmtKind::If { condition, then_branch, else_branch } => {
                post_walk(condition, out);
                post_opt_walk(then_branch, out);
                post_opt_walk(else_branch, out);
            },
            StmtKind::While { condition, body } => {
                post_walk(condition, out);
                post_opt_walk(body, out);
            },
            StmtKind::Do { body, condition } => {
                post_opt_walk(body, out);
                post_walk(condition, out);
            },
            StmtKind::Assign { value, .. } => post_walk(value, out),
            StmtKind::In { .. } => {},
            StmtKind::Out { expression } => post_walk(expression, out),
        },
        Node::Exp { kind, .. } => match kind {
            ExpKind::Op { left, right, .. } => {
                post_walk(left, out);
                post_opt_walk(right, out);
            },
            _ => {},
        },
        Node::Decl { .. } => {},
    }
    assert(nodes_view(out@) =~= before + post_children(node_view(*n)));
}

impl TreeNode {
    /// A tree of the single node `node`, with no sibling.
    pub fn new(node: Node) -> (t: TreeNode)
        ensures
            t@ == (TreeV { sibling: None, node: node@ }),
    {
        TreeNode { node, sibling: None }
    }

    /// The last of the nodes that follow this one, if any follows it.
    pub fn last_sibling(&self) -> (r: Option<&Box<TreeNode>>)
        ensures
            match r {
                None => self@.sibling is None,
                Some(b) => self@.sibling matches Some(s) && tree_view(**b) == last_node(*s),
            },
    {
        match &self.sibling {
            Some(s) => Some(last_in(s)),
            None => None,
        }
    }

    /// The nodes of the tree in the order a pre-order walk visits them.
    pub fn pre_order_traversal(&self) -> (r: Vec<&Node>)
        ensures
            nodes_view(r@) == pre_order(self@),
    {
        let mut out: Vec<&Node> = Vec::new();
        assert(nodes_view(out@) =~= Seq::<NodeV>::empty());
        pre_walk(self, &mut out);
        assert(nodes_view(out@) =~= pre_order(self@));
        out
    }

    /// The nodes of the tree in the order a post-order walk visits them.
    pub fn post_order_traversal(&self) -> (r: Vec<&Node>)
        ensures
            nodes_view(r@) == post_order(self@),
    {
        let mut out: Vec<&Node> = Vec::new();
        assert(nodes_view(out@) =~= Seq::<NodeV>::empty());
        post_walk(self, &mut out);
        assert(nodes_view(out@) =~= post_order(self@));
        out
    }
}

impl TreeNode {
    /// The last node of the list that starts at this one (this node itself
    /// when no node follows it), to be changed in place.
    pub fn get_last_sibling_mut(&mut self) -> (r: &mut TreeNode)
        ensures
            tree_view(*r) == last_node(tree_view(*old(self))),
            tree_view(*final(self)) == replace_last(tree_view(*old(self)), tree_view(*final(r))),
        decreases *old(self),
    {
        if let Some(ref mut sibling) = self.sibling {
            sibling.get_last_sibling_mut()
        } else {
            self
        }
    }
}

/// The pre-order and the post-order walks visit the same nodes, each as
/// often: they differ only in order.
pub proof fn lemma_walks_visit_same_nodes(t: TreeV)
    ensures
        pre_order(t).to_multiset() == post_order(t).to_multiset(),
    decreases t,
{
    broadcast use vstd::seq_lib::lemma_multiset_commutative;

    lemma_children_same_nodes(t.node);
    lemma_opt_same_nodes(t.sibling);
    let one = seq![t.node];
    assert(pre_order(t).to_multiset() == one.to_multiset().add(pre_children(t.node).to_multiset()).add(
        pre_opt(t.sibling).to_multiset(),
    ));
    assert(post_order(t).to_multiset() == post_children(t.node).to_multiset().add(one.to_multiset()).add(
        post_opt(t.sibling).to_multiset(),
    ));
    broadcast use vstd::multiset::group_multiset_axioms;

    assert(pre_order(t).to_multiset() =~= post_order(t).to_multiset());
}

proof fn lemma_opt_same_nodes(o: Option<Box<TreeV>>)
    ensures
        pre_opt(o).to_multiset() == post_opt(o).to_multiset(),
    decreases o,
{
    match o {
        Some(t) => lemma_walks_visit_same_nodes(*t),
        None => {},
    }
}

proof fn lemma_children_same_nodes(n: NodeV)
    ensures
        pre_children(n).to_multiset() == post_children(n).to_multiset(),
    decreases n,
{
    broadcast use vstd::seq_lib::lemma_multiset_commutative;

    match n {
        NodeV::Stmt { kind, .. } => match kind {
            StmtV::If { condition, then_branch, else_branch } => {
                lemma_walks_visit_same_nodes(*condition);
                lemma_opt_same_nodes(then_branch);
                lemma_opt_same_nodes(else_branch);
            },
            StmtV::While { condition, body } => {
                lemma_walks_visit_same_nodes(*condition);
                lemma_opt_same_nodes(body);
            },
            StmtV::Do { body, condition } => {
                lemma_walks_visit_same_nodes(*condition);
                lemma_opt_same_nodes(body);
            },
            StmtV::Assign { value, .. } => lemma_walks_visit_same_nodes(*value),
            StmtV::In { .. } => {},
            StmtV::Out { expression } => lemma_walks_visit_same_nodes(*expression),
        },
        NodeV::Exp { kind, .. } => match kind {
            ExpV::Op { left, right, .. } => {
                lemma_walks_visit_same_nodes(*left);
                lemma_opt_same_nodes(right);
            },
            _ => {},
        },
        NodeV::Decl { .. } => {},
    }
}

} // verus!
