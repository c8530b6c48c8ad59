//! The text form of a syntax tree: one line per node, the children of a node
//! indented four columns more than the node, its siblings at its own indent.

use vstd::prelude::*;
use crate::structures::{node_view, opt_tree_view, tree_view, DeclKind, ExpKind, ExpType, ExpV, Node, NodeV, NodeValue, StmtKind, StmtV, DeclV, TreeNode, TreeV, ValueV};
use crate::text::{append_int, int_text};
use crate::token::{spec_token_type_name, token_type_name};

verus! {

pub open spec fn spaces(n: nat) -> Seq<char> {
    Seq::new(n, |i: int| ' ')
}

/// The name of a type, as its `Debug` rendering writes it.
pub open spec fn exp_type_text(t: ExpType) -> Seq<char> {
    match t {
        ExpType::Void => "Void"@,
        ExpType::Integer => "Integer"@,
        ExpType::Float => "Float"@,
        ExpType::Boolean => "Boolean"@,
    }
}

pub open spec fn bool_text(b: bool) -> Seq<char> {
    if b { "true"@ } else { "false"@ }
}

/// A value as the `Val:` part of an operator line writes it.
pub open spec fn value_plain(v: ValueV) -> Seq<char> {
    match v {
        ValueV::Int(i) => int_text(i as int),
        ValueV::Float(s) => s,
        ValueV::Boolean(b) => bool_text(b),
    }
}

/// An optional value as the `Value:` part of an assignment line writes it;
/// a float is written with the text it is held as.
pub open spec fn value_debug(v: Option<ValueV>) -> Seq<char> {
    match v {
        None => "None"@,
        Some(ValueV::Int(i)) => "Some(Int("@ + int_text(i as int) + "))"@,
        Some(ValueV::Float(s)) => "Some(Float("@ + s + "))"@,
        Some(ValueV::Boolean(b)) => "Some(Boolean("@ + bool_text(b) + "))"@,
    }
}

/// The value computed for the expression an assignment stores.
pub open spec fn assigned_value(v: TreeV) -> Option<ValueV> {
    match v.node {
        NodeV::Exp { val, .. } => val,
        _ => None,
    }
}

pub open spec fn max_nat(a: nat, b: nat) -> nat {
    if a >= b { a } else { b }
}

/// How many levels of children the list has below it.
pub open spec fn tree_depth(t: TreeV) -> nat
    decreases t,
{
    max_nat(node_depth(t.node), opt_depth(t.sibling))
}

pub open spec fn opt_depth(o: Option<Box<TreeV>>) -> nat
    decreases o,
{
    match o {
        Some(t) => tree_depth(*t),
        None => 0,
    }
}

pub open spec fn node_depth(n: NodeV) -> nat
    decreases n,
{
    match n {
        NodeV::Stmt { kind, .. } => match kind {
            StmtV::If { condition, then_branch, else_branch } => 1 + max_nat(
                tree_depth(*condition),
                max_nat(opt_depth(then_branch), opt_depth(else_branch)),
            ),
            StmtV::While { condition, body } => 1 + max_nat(tree_depth(*condition), opt_depth(body)),
            StmtV::Do { body, condition } => 1 + max_nat(opt_depth(body), tree_depth(*condition)),
            StmtV::Assign { value, .. } => 1 + tree_depth(*value),
            StmtV::In { .. } => 0,
            StmtV::Out { expression } => 1 + tree_depth(*expression),
        },
        NodeV::Exp { kind, .. } => match kind {
            ExpV::Op { left, right, .. } => 1 + max_nat(tree_depth(*left), opt_depth(right)),
            _ => 0,
        },
        NodeV::Decl { .. } => 0,
    }
}

/// The lines of a list of nodes at `indent`.
pub open spec fn tree_text(t: TreeV, indent: nat) -> Seq<char>
    decreases t,
{
    node_text(t.node, indent) + opt_text(t.sibling, indent)
}

pub open spec fn opt_text(o: Option<Box<TreeV>>, indent: nat) -> Seq<char>
    decreases o,
{
    match o {
        Some(t) => tree_text(*t, indent),
        None => seq![],
    }
}

/// The lines of one node and of its children.
pub open spec fn node_text(n: NodeV, indent: nat) -> Seq<char>
    decreases n,
{
    let sp = spaces(indent);
    let inner = (indent + 4) as nat;
    match n {
        NodeV::Decl { kind: DeclV::Var { typ, name }, .. } => sp + "Decl: Var (Type: "@ + exp_type_text(typ) + ", Name: "@ + name
            + ")\n"@,
        NodeV::Stmt { kind, .. } => match kind {
            StmtV::If { condition, then_branch, else_branch } => sp + "Stmt: If\n"@ + sp + "  Condition:\n"@ + tree_text(
                *condition,
                inner,
            ) + sp + "  Then Branch:\n"@ + opt_text(then_branch, inner) + match else_branch {
                Some(e) => sp + "  Else Branch:\n"@ + tree_text(*e, inner),
                None => seq![],
            },
            StmtV::While { condition, body } => sp + "Stmt: While\n"@ + sp + "  Condition:\n"@ + tree_text(*condition, inner)
                + sp + "  Body:\n"@ + opt_text(body, inner),
            StmtV::Do { body, condition } => sp + "Stmt: Do\n"@ + sp + "  Body:\n"@ + opt_text(body, inner) + sp
                + "  Condition:\n"@ + tree_text(*condition, inner),
            StmtV::Assign { name, value } => sp + "Stmt: Assign (Name: "@ + name + ") | Value: "@ + value_debug(
                assigned_value(*value),
            ) + "\n"@ + sp + "  Value:\n"@ + tree_text(*value, inner),
            StmtV::In { name } => sp + "Stmt: In (Name: "@ + name + ")\n"@,
            StmtV::Out { expression } => sp + "Stmt: Out\n"@ + sp + "  Expression:\n"@ + tree_text(*expression, inner),
        },
        NodeV::Exp { kind, typ, val, .. } => match kind {
            ExpV::Op { op, left, right } => sp + "Exp: Op ("@ + spec_token_type_name(op) + ") | Type "@ + exp_type_text(typ)
                + match val {
                Some(v) => " Val: "@ + value_plain(v),
                None => seq![],
            } + "\n"@ + sp + "  Left:\n"@ + tree_text(*left, inner) + sp + "  Right:\n"@ + opt_text(right, inner),
            ExpV::Const { value } => sp + "Exp: Const (Value: "@ + int_text(value as int) + " | Type: "@ + exp_type_text(typ)
                + ")\n"@,
            ExpV::ConstF { value } => sp + "Exp: Const Float (Value: "@ + value + ") | Type: "@ + exp_type_text(typ) + ")\n"@,
            ExpV::Id { name } => sp + "Exp: Id (Name: "@ + name + ") | Type: "@ + exp_type_text(typ) + "\n"@,
        },
    }
}

fn exp_type_text_exec(t: ExpType) -> (s: &'static str)
    ensures
        s@ == exp_type_text(t),
{
    match t {
        ExpType::Void => "Void",
        ExpType::Integer => "Integer",
        ExpType::Float => "Float",
        ExpType::Boolean => "Boolean",
    }
}

fn append_spaces(out: &mut String, n: usize)
    ensures
        final(out)@ == old(out)@ + spaces(n as nat),
{
    let mut i: usize = 0;
    while i < n
        invariant
            i <= n,
            out@ == old(out)@ + spaces(i as nat),
        decreases n - i,
    {
        out.append(" ");
        proof {
            reveal_strlit(" ");
            assert(spaces((i + 1) as nat) =~= spaces(i as nat).push(' '));
            assert(out@ =~= old(out)@ + spaces((i + 1) as nat));
        }
        i = i + 1;
    }
}

fn append_bool(out: &mut String, b: bool)
    ensures
        final(out)@ == old(out)@ + bool_text(b),
{
    if b {
        out.append("true");
    } else {
        out.append("false");
    }
}

fn append_value_plain(out: &mut String, v: &NodeValue)
    ensures
        final(out)@ == old(out)@ + value_plain(v@),
{
    match v {
        NodeValue::Int(i) => append_int(out, *i),
        NodeValue::Float(s) => out.append(s.as_str()),
        NodeValue::Boolean(b) => append_bool(out, *b),
    }
}

fn append_value_debug(out: &mut String, v: &Option<NodeValue>)
    ensures
        final(out)@ == old(out)@ + value_debug(crate::structures::opt_value_view(*v)),
{
    let ghost o = old(out)@;
    match v {
        None => out.append("None"),
        Some(NodeValue::Int(i)) => {
            out.append("Some(Int(");
            append_int(out, *i);
            out.append("))");
            assert(out@ =~= o + value_debug(crate::structures::opt_value_view(*v)));
        },
        Some(NodeValue::Float(s)) => {
            out.append("Some(Float(");
            out.append(s.as_str());
            out.append("))");
            assert(out@ =~= o + value_debug(crate::structures::opt_value_view(*v)));
        },
        Some(NodeValue::Boolean(b)) => {
            out.append("Some(Boolean(");
            append_bool(out, *b);
            out.append("))");
            assert(out@ =~= o + value_debug(crate::structures::opt_value_view(*v)));
        },
    }
}

fn assigned_value_exec(v: &TreeNode) -> (r: &Option<NodeValue>)
    ensures
        crate::structures::opt_value_view(*r) == assigned_value(v@),
{
    match &v.node {
        Node::Exp { val, .. } => val,
        _ => &None,
    }
}

fn write_tree(out: &mut String, t: &TreeNode, indent: usize)
    requires
        indent + 4 * tree_depth(t@) <= usize::MAX,
    ensures
        final(out)@ == old(out)@ + tree_text(t@, indent as nat),
    decreases t, 2nat,
{
    write_node(out, &t.node, indent);
    write_opt(out, &t.sibling, indent);
    assert(out@ =~= old(out)@ + tree_text(t@, indent as nat));
}

fn write_opt(out: &mut String, o: &Option<Box<TreeNode>>, indent: usize)
    requires
        indent + 4 * opt_depth(opt_tree_view(*o)) <= usize::MAX,
    ensures
        final(out)@ == old(out)@ + opt_text(opt_tree_view(*o), indent as nat),
    decreases o, 2nat,
{
    match o {
        Some(t) => write_tree(out, t, indent),
        None => {
            assert(out@ =~= old(out)@ + opt_text(opt_tree_view(*o), indent as nat));
        },
    }
}

#[verifier::spinoff_prover]
#[verifier::rlimit(40)]
fn write_decl_node(out: &mut String, n: &Node, indent: usize)
    requires
        indent + 4 * node_depth(n@) <= usize::MAX,
        n is Decl,
    ensures
        final(out)@ == old(out)@ + node_text(n@, indent as nat),
    decreases n, 0nat,
{
    let ghost o = old(out)@;
    append_spaces(out, indent);
    match n {
        Node::Decl { kind: DeclKind::Var { typ, name }, .. } => {
            out.append("Decl: Var (Type: ");
            out.append(exp_type_text_exec(*typ));
            out.append(", Name: ");
            out.append(name.as_str());
            out.append(")\n");
        },

        _ => {},
    }
    assert(out@ =~= o + node_text(n@, indent as nat));
}

#[verifier::spinoff_prover]
#[verifier::rlimit(40)]
fn write_if_node(out: &mut String, n: &Node, indent: usize)
    requires
        indent + 4 * node_depth(n@) <= usize::MAX,
        n matches Node::Stmt { kind: StmtKind::If { .. }, .. },
    ensures
        final(out)@ == old(out)@ + node_text(n@, indent as nat),
    decreases n, 0nat,
{
    let ghost o = old(out)@;
    append_spaces(out, indent);
    match n {
        Node::Stmt { kind: StmtKind::If { condition, then_branch, else_branch }, .. } => {
                out.append("Stmt: If\n");
                append_spaces(out, indent);
                out.append("  Condition:\n");
                write_tree(out, condition, indent + 4);
                append_spaces(out, indent);
                out.append("  Then Branch:\n");
                write_opt(out, then_branch, indent + 4);
                match else_branch {
                    Some(e) => {
                        append_spaces(out, indent);
                        out.append("  Else Branch:\n");
                        write_tree(out, e, indent + 4);
                    },
                    None => {},
                }
            },

        _ => {},
    }
    assert(out@ =~= o + node_text(n@, indent as nat));
}

#[verifier::spinoff_prover]
#[verifier::rlimit(40)]
fn write_loop_node(out: &mut String, n: &Node, indent: usize)
    requires
        indent + 4 * node_depth(n@) <= usize::MAX,
        n matches Node::Stmt { kind: StmtKind::While { .. }, .. } || n matches Node::Stmt { kind: StmtKind::Do { .. }, .. },
    ensures
        final(out)@ == old(out)@ + node_text(n@, indent as nat),
    decreases n, 0nat,
{
    let ghost o = old(out)@;
    append_spaces(out, indent);
    match n {
        Node::Stmt { kind: StmtKind::While { condition, body }, .. } => {
                out.append("Stmt: While\n");
                append_spaces(out, indent);
                out.append("  Condition:\n");
                write_tree(out, condition, indent + 4);
                append_spaces(out, indent);
                out.append("  Body:\n");
                write_opt(out, body, indent + 4);
            },
        Node::Stmt { kind: StmtKind::Do { body, condition }, .. } => {
                out.append("Stmt: Do\n");
                append_spaces(out, indent);
                out.append("  Body:\n");
                write_opt(out, body, indent + 4);
                append_spaces(out, indent);
                out.append("  Condition:\n");
                write_tree(out, condition, indent + 4);
            },

        _ => {},
    }
    assert(out@ =~= o + node_text(n@, indent as nat));
}

#[verifier::spinoff_prover]
#[verifier::rlimit(40)]
fn write_simple_stmt_node(out: &mut String, n: &Node, indent: usize)
    requires
        indent + 4 * node_depth(n@) <= usize::MAX,
        n matches Node::Stmt { kind: StmtKind::Assign { .. }, .. } || n matches Node::Stmt { kind: StmtKind::In { .. }, .. } || n matches Node::Stmt { kind: StmtKind::Out { .. }, .. },
    ensures
        final(out)@ == old(out)@ + node_text(n@, indent as nat),
    decreases n, 0nat,
{
    let ghost o = old(out)@;
    append_spaces(out, indent);
    match n {
        Node::Stmt { kind: StmtKind::Assign { name, value }, .. } => {
                out.append("Stmt: Assign (Name: ");
                out.append(name.as_str());
                out.append(") | Value: ");
                append_value_debug(out, assigned_value_exec(value));
                out.append("\n");
                append_spaces(out, indent);
                out.append("  Value:\n");
                write_tree(out, value, indent + 4);
            },
        Node::Stmt { kind: StmtKind::In { name }, .. } => {
                out.append("Stmt: In (Name: ");
                out.append(name.as_str());
                out.append(")\n");
            },
        Node::Stmt { kind: StmtKind::Out { expression }, .. } => {
                out.append("Stmt: Out\n");
                append_spaces(out, indent);
                out.append("  Expression:\n");
                write_tree(out, expression, indent + 4);
            },

        _ => {},
    }
    assert(out@ =~= o + node_text(n@, indent as nat));
}

#[verifier::spinoff_prover]
#[verifier::rlimit(40)]
fn write_op_node(out: &mut String, n: &Node, indent: usize)
    requires
        indent + 4 * node_depth(n@) <= usize::MAX,
        n matches Node::Exp { kind: ExpKind::Op { .. }, .. },
    ensures
        final(out)@ == old(out)@ + node_text(n@, indent as nat),
    decreases n, 0nat,
{
    let ghost o = old(out)@;
    append_spaces(out, indent);
    match n {
        Node::Exp { kind: ExpKind::Op { op, left, right }, typ, val, .. } => {
                out.append("Exp: Op (");
                out.append(token_type_name(*op));
                out.append(") | Type ");
                out.append(exp_type_text_exec(*typ));
                match val {
                    Some(v) => {
                        out.append(" Val: ");
                        append_value_plain(out, v);
                    },
                    None => {},
                }
                out.append("\n");
                append_spaces(out, indent);
                out.append("  Left:\n");
                write_tree(out, left, indent + 4);
                append_spaces(out, indent);
                out.append("  Right:\n");
                write_opt(out, right, indent + 4);
            },

        _ => {},
    }
    assert(out@ =~= o + node_text(n@, indent as nat));
}

#[verifier::spinoff_prover]
#[verifier::rlimit(40)]
fn write_leaf_exp_node(out: &mut String, n: &Node, indent: usize)
    requires
        indent + 4 * node_depth(n@) <= usize::MAX,
        n is Exp && !(n matches Node::Exp { kind: ExpKind::Op { .. }, .. }),
    ensures
        final(out)@ == old(out)@ + node_text(n@, indent as nat),
    decreases n, 0nat,
{
    let ghost o = old(out)@;
    append_spaces(out, indent);
    match n {
        Node::Exp { kind: ExpKind::Const { value }, typ, val, .. } => {
                out.append("Exp: Const (Value: ");
                append_int(out, *value);
                out.append(" | Type: ");
                out.append(exp_type_text_exec(*typ));
                out.append(")\n");
            },
        Node::Exp { kind: ExpKind::ConstF { value }, typ, val, .. } => {
                out.append("Exp: Const Float (Value: ");
                out.append(value.as_str());
                out.append(") | Type: ");
                out.append(exp_type_text_exec(*typ));
                out.append(")\n");
            },
        Node::Exp { kind: ExpKind::Id { name }, typ, val, .. } => {
                out.append("Exp: Id (Name: ");
                out.append(name.as_str());
                out.append(") | Type: ");
                out.append(exp_type_text_exec(*typ));
                out.append("\n");
            },

        _ => {},
    }
    assert(out@ =~= o + node_text(n@, indent as nat));
}

#[verifier::spinoff_prover]
#[verifier::rlimit(40)]
fn write_node(out: &mut String, n: &Node, indent: usize)
    requires
        indent + 4 * node_depth(n@) <= usize::MAX,
    ensures
        final(out)@ == old(out)@ + node_text(n@, indent as nat),
    decreases n, 1nat,
{
    match n {
        Node::Decl { .. } => write_decl_node(out, n, indent),
        Node::Stmt { kind: StmtKind::If { .. }, .. } => write_if_node(out, n, indent),
        Node::Stmt { kind: StmtKind::While { .. }, .. } => write_loop_node(out, n, indent),
        Node::Stmt { kind: StmtKind::Do { .. }, .. } => write_loop_node(out, n, indent),
        Node::Stmt { .. } => write_simple_stmt_node(out, n, indent),
        Node::Exp { kind: ExpKind::Op { .. }, .. } => write_op_node(out, n, indent),
        Node::Exp { .. } => write_leaf_exp_node(out, n, indent),
    }
}

/// The lines that print the tree `node` at `indent`: one per node, the
/// children of a node four columns further in, its siblings at its indent.
pub fn render_tree(node: &TreeNode, indent: usize) -> (s: String)
    requires
        indent + 4 * tree_depth(node@) <= usize::MAX,
    ensures
        s@ == tree_text(node@, indent as nat),
{
    let mut s = String::new();
    write_tree(&mut s, node, indent);
    assert(s@ =~= tree_text(node@, indent as nat));
    s
}

/// Whether `indent + 4 * tree_depth(t)` fits in a `usize`, which
/// `render_tree` requires.
pub fn depth_fits(t: &TreeNode, indent: usize) -> (b: bool)
    ensures
        b == (indent + 4 * tree_depth(t@) <= usize::MAX),
    decreases t, 2nat,
{
    node_depth_fits(&t.node, indent) && opt_depth_fits(&t.sibling, indent)
}

fn opt_depth_fits(o: &Option<Box<TreeNode>>, indent: usize) -> (b: bool)
    ensures
        b == (indent + 4 * opt_depth(opt_tree_view(*o)) <= usize::MAX),
    decreases o, 2nat,
{
    match o {
        Some(t) => depth_fits(t, indent),
        None => true,
    }
}

fn node_depth_fits(n: &Node, indent: usize) -> (b: bool)
    ensures
        b == (indent + 4 * node_depth(n@) <= usize::MAX),
    decreases n, 1nat,
{
    if indent > usize::MAX - 4 {
        return match n {
            Node::Stmt { kind: StmtKind::In { .. }, .. } => true,
            Node::Exp { kind: ExpKind::Op { .. }, .. } => false,
            Node::Exp { .. } => true,
            Node::Decl { .. } => true,
            Node::Stmt { .. } => false,
        };
    }
    let i = indent + 4;
    match n {
        Node::Stmt { kind, .. } => match kind {
            StmtKind::If { condition, then_branch, else_branch } => depth_fits(condition, i) && opt_depth_fits(then_branch, i)
                && opt_depth_fits(else_branch, i),
            StmtKind::While { condition, body } => depth_fits(condition, i) && opt_depth_fits(body, i),
            StmtKind::Do { body, condition } => opt_depth_fits(body, i) && depth_fits(condition, i),
            StmtKind::Assign { value, .. } => depth_fits(value, i),
            StmtKind::In { .. } => true,
            StmtKind::Out { expression } => depth_fits(expression, i),
        },
        Node::Exp { kind, .. } => match kind {
            ExpKind::Op { left, right, .. } => depth_fits(left, i) && opt_depth_fits(right, i),
            _ => true,
        },
        Node::Decl { .. } => true,
    }
}

} // verus!
