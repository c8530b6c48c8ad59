//! The syntax tree, the values the analyzer computes and the error records,
//! each with its mathematical model (its view), which leaves out the random
//! identifiers that the parser gives to nodes.

use vstd::prelude::*;
use crate::token::{Cursor, Token, TokenType};

verus! {

/// The value of an expression known before run time.
///
/// A `Float` holds the `f32` value written as Rust's `Display` writes an
/// `f32` (the shortest text that reads back to the same value).
#[derive(Clone, Debug)]
pub enum NodeValue {
    Int(i32),
    Float(String),
    Boolean(bool),
}

/// A syntax error: the token at which it was found, the kinds of token that
/// were expected there, and a message.
#[derive(Clone, Debug)]
pub struct ParseError {
    pub current_token: Option<Token>,
    pub expected_token_type: Option<Vec<TokenType>>,
    pub message: String,
}

/// A node of the syntax tree with the list of nodes that follow it in the
/// same block (its siblings).
#[derive(Debug)]
pub struct TreeNode {
    pub sibling: Option<Box<TreeNode>>,
    pub node: Node,
}

#[derive(Debug)]
pub enum Node {
    Stmt { kind: StmtKind, id: String, cursor: Option<Cursor> },
    Exp {
        kind: ExpKind,
        typ: ExpType,
        id: String,
        cursor: Option<Cursor>,
        val: Option<NodeValue>,
    },
    Decl { kind: DeclKind, id: String, cursor: Option<Cursor> },
}

#[derive(Clone, Debug)]
pub enum DeclKind {
    Var { typ: ExpType, name: String },
}

#[derive(Debug)]
pub enum StmtKind {
    If {
        condition: Box<TreeNode>,
        then_branch: Option<Box<TreeNode>>,
        else_branch: Option<Box<TreeNode>>,
    },
    While { condition: Box<TreeNode>, body: Option<Box<TreeNode>> },
    Do { body: Option<Box<TreeNode>>, condition: Box<TreeNode> },
    Assign { name: String, value: Box<TreeNode> },
    In { name: String },
    Out { expression: Box<TreeNode> },
}

/// Operators, constants and identifiers. A `ConstF` holds its value as
/// `NodeValue::Float` does.
#[derive(Debug)]
pub enum ExpKind {
    Op { op: TokenType, left: Box<TreeNode>, right: Option<Box<TreeNode>> },
    Const { value: i32 },
    ConstF { value: String },
    Id { name: String },
}

/// The type of an expression.
#[derive(Clone, Copy, Debug, PartialEq, Eq, Structural)]
pub enum ExpType {
    Void,
    Integer,
    Float,
    Boolean,
}

/// What the symbol table knows of a variable.
#[derive(Clone, Debug)]
pub struct SymbolData {
    pub mem_location: i32,
    pub typ: ExpType,
    pub declaration: Cursor,
    pub value: Option<NodeValue>,
    pub usages: Vec<SymbolReference>,
}

#[derive(Clone, Debug)]
pub struct SymbolError {
    pub message: String,
    pub cursor: Cursor,
}

/// A semantic error and where it was found.
#[derive(Clone, Debug)]
pub struct AnalyzeError {
    pub message: String,
    pub cursor: Cursor,
}

#[derive(Clone, Copy, Debug)]
pub struct SymbolReference {
    pub cursor: Cursor,
}

// ---------------------------------------------------------------------------
// Models
// ---------------------------------------------------------------------------

pub enum ValueV {
    Int(i32),
    Float(Seq<char>),
    Boolean(bool),
}

pub struct ParseErrorV {
    pub current_token: Option<Token>,
    pub expected_token_type: Option<Seq<TokenType>>,
    pub message: Seq<char>,
}

pub struct TreeV {
    pub sibling: Option<Box<TreeV>>,
    pub node: NodeV,
}

pub enum NodeV {
    Stmt { kind: StmtV, cursor: Option<Cursor> },
    Exp { kind: ExpV, typ: ExpType, cursor: Option<Cursor>, val: Option<ValueV> },
    Decl { kind: DeclV, cursor: Option<Cursor> },
}

pub enum DeclV {
    Var { typ: ExpType, name: Seq<char> },
}

pub enum StmtV {
    If { condition: Box<TreeV>, then_branch: Option<Box<TreeV>>, else_branch: Option<Box<TreeV>> },
    While { condition: Box<TreeV>, body: Option<Box<TreeV>> },
    Do { body: Option<Box<TreeV>>, condition: Box<TreeV> },
    Assign { name: Seq<char>, value: Box<TreeV> },
    In { name: Seq<char> },
    Out { expression: Box<TreeV> },
}

pub enum ExpV {
    Op { op: TokenType, left: Box<TreeV>, right: Option<Box<TreeV>> },
    Const { value: i32 },
    ConstF { value: Seq<char> },
    Id { name: Seq<char> },
}

pub struct SymbolErrorV {
    pub message: Seq<char>,
    pub cursor: Cursor,
}

pub struct SymbolDataV {
    pub mem_location: i32,
    pub typ: ExpType,
    pub declaration: Cursor,
    pub value: Option<ValueV>,
    pub usages: Seq<Cursor>,
}

pub open spec fn value_view(v: NodeValue) -> ValueV {
    match v {
        NodeValue::Int(i) => ValueV::Int(i),
        NodeValue::Float(s) => ValueV::Float(s@),
        NodeValue::Boolean(b) => ValueV::Boolean(b),
    }
}

pub open spec fn opt_value_view(v: Option<NodeValue>) -> Option<ValueV> {
    match v {
        Some(x) => Some(value_view(x)),
        None => None,
    }
}

pub open spec fn tree_view(t: TreeNode) -> TreeV
    decreases t,
{
    TreeV { sibling: opt_tree_view(t.sibling), node: node_view(t.node) }
}

pub open spec fn opt_tree_view(t: Option<Box<TreeNode>>) -> Option<Box<TreeV>>
    decreases t,
{
    match t {
        Some(s) => Some(Box::new(tree_view(*s))),
        None => None,
    }
}

pub open spec fn node_view(n: Node) -> NodeV
    decreases n,
{
    match n {
        Node::Stmt { kind, cursor, .. } => NodeV::Stmt {
            kind: match kind {
                StmtKind::If { condition, then_branch, else_branch } => StmtV::If {
                    condition: Box::new(tree_view(*condition)),
                    then_branch: opt_tree_view(then_branch),
                    else_branch: opt_tree_view(else_branch),
                },
                StmtKind::While { condition, body } => StmtV::While {
                    condition: Box::new(tree_view(*condition)),
                    body: opt_tree_view(body),
                },
                StmtKind::Do { body, condition } => StmtV::Do {
                    body: opt_tree_view(body),
                    condition: Box::new(tree_view(*condition)),
                },
                StmtKind::Assign { name, value } => StmtV::Assign {
                    name: name@,
                    value: Box::new(tree_view(*value)),
                },
                StmtKind::In { name } => StmtV::In { name: name@ },
                StmtKind::Out { expression } => StmtV::Out {
                    expression: Box::new(tree_view(*expression)),
                },
            },
            cursor,
        },
        Node::Exp { kind, typ, cursor, val, .. } => NodeV::Exp {
            kind: match kind {
                ExpKind::Op { op, left, right } => ExpV::Op {
                    op,
                    left: Box::new(tree_view(*left)),
                    right: opt_tree_view(right),
                },
                ExpKind::Const { value } => ExpV::Const { value },
                ExpKind::ConstF { value } => ExpV::ConstF { value: value@ },
                ExpKind::Id { name } => ExpV::Id { name: name@ },
            },
            typ,
            cursor,
            val: opt_value_view(val),
        },
        Node::Decl { kind, cursor, .. } => NodeV::Decl {
            kind: match kind {
                DeclKind::Var { typ, name } => DeclV::Var { typ, name: name@ },
            },
            cursor,
        },
    }
}

impl View for NodeValue {
    type V = ValueV;

    open spec fn view(&self) -> ValueV {
        value_view(*self)
    }
}

impl View for TreeNode {
    type V = TreeV;

    open spec fn view(&self) -> TreeV {
        tree_view(*self)
    }
}

impl View for Node {
    type V = NodeV;

    open spec fn view(&self) -> NodeV {
        node_view(*self)
    }
}

impl View for ParseError {
    type V = ParseErrorV;

    open spec fn view(&self) -> ParseErrorV {
        ParseErrorV {
            current_token: self.current_token,
            expected_token_type: match self.expected_token_type {
                Some(v) => Some(v@),
                None => None,
            },
            message: self.message@,
        }
    }
}

impl View for AnalyzeError {
    type V = SymbolErrorV;

    open spec fn view(&self) -> SymbolErrorV {
        SymbolErrorV { message: self.message@, cursor: self.cursor }
    }
}

impl View for SymbolError {
    type V = SymbolErrorV;

    open spec fn view(&self) -> SymbolErrorV {
        SymbolErrorV { message: self.message@, cursor: self.cursor }
    }
}

impl View for SymbolData {
    type V = SymbolDataV;

    open spec fn view(&self) -> SymbolDataV {
        SymbolDataV {
            mem_location: self.mem_location,
            typ: self.typ,
            declaration: self.declaration,
            value: opt_value_view(self.value),
            usages: self.usages@.map_values(|r: SymbolReference| r.cursor),
        }
    }
}

} // verus!
