//! Identifiers of syntax-tree nodes.

use vstd::prelude::*;
use crate::structures::{ExpKind, Node, StmtKind, TreeNode};

verus! {

pub open spec fn is_lower_hex(c: char) -> bool {
    ('0' <= c && c <= '9') || ('a' <= c && c <= 'f')
}

/// The text of a random (version 4) UUID in its hyphenated form: 36
/// characters, hyphens at 8, 13, 18 and 23, lower-case hexadecimal digits
/// elsewhere, the version digit `4` at 14 and the variant digit (one of `8`,
/// `9`, `a`, `b`) at 19.
pub open spec fn is_uuid_v4_text(s: Seq<char>) -> bool {
    &&& s.len() == 36
    &&& forall|i: int| 0 <= i < 36 ==> if i == 8 || i == 13 || i == 18 || i == 23 {
        #[trigger] s[i] == '-'
    } else {
        is_lower_hex(s[i])
    }
    &&& s[14] == '4'
    &&& (s[19] == '8' || s[19] == '9' || s[19] == 'a' || s[19] == 'b')
}

/// A fresh identifier for a node: `uuid::Uuid::new_v4()` rendered by its
/// `Display` impl, which writes the lower-case hyphenated form. The
/// identifier is random: the contract states only its form, which the
/// version and variant bits that `new_v4` sets fix in part.
#[verifier::external_body]
pub(crate) fn new_node_id() -> (id: String)
    ensures
        is_uuid_v4_text(id@),
{
    uuid::Uuid::new_v4().to_string()
}

/// Every node of the list has an identifier of the form `new_node_id` gives.
#[verifier::opaque]
pub open spec fn ids_ok(t: TreeNode) -> bool
    decreases t,
{
    &&& node_ids_ok(t.node)
    &&& (t.sibling matches Some(s) ==> ids_ok(*s))
}

#[verifier::opaque]
pub open spec fn node_ids_ok(n: Node) -> bool
    decreases n,
{
    match n {
        Node::Stmt { kind, id, .. } => is_uuid_v4_text(id@) && match kind {
            StmtKind::If { condition, then_branch, else_branch } => {
                &&& ids_ok(*condition)
                &&& (then_branch matches Some(b) ==> ids_ok(*b))
                &&& (else_branch matches Some(b) ==> ids_ok(*b))
            },
            StmtKind::While { condition, body } => ids_ok(*condition) && (body matches Some(b) ==> ids_ok(*b)),
            StmtKind::Do { body, condition } => ids_ok(*condition) && (body matches Some(b) ==> ids_ok(*b)),
            StmtKind::Assign { value, .. } => ids_ok(*value),
            StmtKind::In { .. } => true,
            StmtKind::Out { expression } => ids_ok(*expression),
        },
        Node::Exp { kind, id, .. } => is_uuid_v4_text(id@) && match kind {
            ExpKind::Op { left, right, .. } => ids_ok(*left) && (right matches Some(r) ==> ids_ok(*r)),
            _ => true,
        },
        Node::Decl { id, .. } => is_uuid_v4_text(id@),
    }
}

/// An optional list whose nodes all have identifiers of that form.
pub open spec fn opt_ids_ok(o: Option<TreeNode>) -> bool {
    o matches Some(t) ==> ids_ok(t)
}

/// The identifiers of the nodes of a list, in pre-order: each node's, then
/// those of its children, then those of the nodes that follow it.
pub open spec fn tree_ids(t: TreeNode) -> Seq<Seq<char>>
    decreases t,
{
    node_ids(t.node) + opt_ids(t.sibling)
}

pub open spec fn opt_ids(o: Option<Box<TreeNode>>) -> Seq<Seq<char>>
    decreases o,
{
    match o {
        Some(b) => tree_ids(*b),
        None => seq![],
    }
}

pub open spec fn node_ids(n: Node) -> Seq<Seq<char>>
    decreases n,
{
    match n {
        Node::Stmt { kind, id, .. } => seq![id@] + match kind {
            StmtKind::If { condition, then_branch, else_branch } => tree_ids(*condition) + opt_ids(then_branch)
                + opt_ids(else_branch),
            StmtKind::While { condition, body } => tree_ids(*condition) + opt_ids(body),
            StmtKind::Do { body, condition } => opt_ids(body) + tree_ids(*condition),
            StmtKind::Assign { value, .. } => tree_ids(*value),
            StmtKind::In { .. } => seq![],
            StmtKind::Out { expression } => tree_ids(*expression),
        },
        Node::Exp { kind, id, .. } => seq![id@] + match kind {
            ExpKind::Op { left, right, .. } => tree_ids(*left) + opt_ids(right),
            _ => seq![],
        },
        Node::Decl { id, .. } => seq![id@],
    }
}

} // verus!
