//! The statements and programs of the grammar, and the law that the parser
//! reads every program the grammar derives:
//!
//! ```text
//! programa       -> main { lista }
//! lista          -> (sentencia | declaracion)*
//! declaracion    -> tipo id (, id)* ;
//! sentencia      -> if expresion { lista } [else { lista }]
//!                 | while expresion { lista }
//!                 | do { lista } while expresion ;
//!                 | cin id ; | cout expresion ;
//!                 | id = expresion ; | id ++ ; | id -- ;
//! ```

use vstd::prelude::*;
use crate::grammar::{at_expr, followed, gbin, gexp, lemma_parse_expression, len_expr, moved, parsed_tree, parses_to, strip, tok_is, tree_expr, GExpr};
use crate::parse_model::{
    advance, append_opt, append_tree, binop, boxed, decl, decl_type, done, exp, initial_state, left, p_asignacion, p_decl_loop, p_declaracion,
    p_declaracion_variable, p_expresion, p_ident_rest, p_iteracion, p_lista_declaracion, p_lista_sentencias, p_repeticion,
    p_seleccion, p_sent_in, p_sent_loop, p_sent_out, p_sentencia, peek_is, spec_parse, step_assign, step_op, stmt, PState,
    Parsed,
};
use crate::structures::{ExpType, ExpV, NodeV, StmtV, TreeV};
use crate::token::{Token, TokenType};

verus! {

/// The tokens from `pos` on spell the expression `e`; kept folded in the
/// statements' definitions.
#[verifier::opaque]
pub open spec fn expr_at(toks: Seq<Token>, vals: Seq<Option<Seq<char>>>, pos: int, e: GExpr) -> bool {
    at_expr(toks, vals, pos, e)
}

/// The number of tokens of the expression `e`.
#[verifier::opaque]
pub open spec fn expr_len(e: GExpr) -> nat {
    len_expr(e)
}

/// The tree of the expression `e`.
#[verifier::opaque]
pub open spec fn expr_tree(e: GExpr) -> TreeV {
    tree_expr(e)
}

proof fn lemma_expr_folded(toks: Seq<Token>, st: PState, e: GExpr)
    requires
        expr_at(toks, st.floats, st.pos as int, e),
        followed(toks, (st.pos + expr_len(e)) as int, 6),
    ensures
        parses_to(toks, st, p_expresion(toks, st), expr_len(e), expr_tree(e)),
{
    reveal(expr_at);
    reveal(expr_len);
    reveal(expr_tree);
    lemma_parse_expression(toks, st, e);
}


// ---------------------------------------------------------------------------
// Statements, declarations and programs
// ---------------------------------------------------------------------------

/// The identifiers after the first in a declaration, each after a comma.
pub enum GMore {
    End,
    Next(Token, Box<GMore>),
}

/// A statement, or a declaration where one may stand.
pub enum GStmt {
    /// `if e { .. }`
    If(GExpr, Box<GList>),
    /// `if e { .. } else { .. }`
    IfElse(GExpr, Box<GList>, Box<GList>),
    /// `while e { .. }`
    While(GExpr, Box<GList>),
    /// `do { .. } while e ;`
    Do(Box<GList>, GExpr),
    /// `cin id ;`
    In(Token),
    /// `cout e ;`
    Out(GExpr),
    /// `id = e ;`
    Assign(Token, GExpr),
    /// `id ++ ;` or `id -- ;`
    Step(Token, Token),
    /// `integer id, .. ;` or `double id, .. ;`
    Decl(Token, Token, GMore),
}

/// A sequence of statements and declarations.
pub enum GList {
    Nil,
    Cons(Box<GStmt>, Box<GList>),
}

pub open spec fn len_more(m: GMore) -> nat
    decreases m,
{
    match m {
        GMore::End => 0,
        GMore::Next(_, r) => 2 + len_more(*r),
    }
}

pub open spec fn len_stmt(s: GStmt) -> nat
    decreases s,
{
    match s {
        GStmt::If(e, l) => expr_len(e) + len_list(*l) + 3,
        GStmt::IfElse(e, l1, l2) => expr_len(e) + len_list(*l1) + len_list(*l2) + 6,
        GStmt::While(e, l) => expr_len(e) + len_list(*l) + 3,
        GStmt::Do(l, e) => len_list(*l) + expr_len(e) + 5,
        GStmt::In(_) => 3,
        GStmt::Out(e) => expr_len(e) + 2,
        GStmt::Assign(_, e) => expr_len(e) + 3,
        GStmt::Step(_, _) => 3,
        GStmt::Decl(_, _, m) => len_more(m) + 3,
    }
}

pub open spec fn len_list(l: GList) -> nat
    decreases l,
{
    match l {
        GList::Nil => 0,
        GList::Cons(s, r) => len_stmt(*s) + len_list(*r),
    }
}

/// A token of kind `tt` stands at `pos`.
pub open spec fn tk(toks: Seq<Token>, pos: int, tt: TokenType) -> bool {
    0 <= pos < toks.len() && toks[pos].token_type == tt
}

pub open spec fn at_more(toks: Seq<Token>, pos: int, m: GMore) -> bool
    decreases m,
{
    match m {
        GMore::End => true,
        GMore::Next(t, r) => tk(toks, pos, TokenType::COMMA) && tok_is(toks, pos + 1, t, TokenType::ID) && at_more(
            toks,
            pos + 2,
            *r,
        ),
    }
}

/// The braces of a block around `l`, the first at `pos`.
pub open spec fn at_block(toks: Seq<Token>, vals: Seq<Option<Seq<char>>>, pos: int, l: GList) -> bool
    decreases l, 3nat,
{
    tk(toks, pos, TokenType::LBRA) && at_list(toks, vals, pos + 1, l) && tk(toks, pos + 1 + len_list(l), TokenType::RBRA)
}

pub open spec fn at_stmt(toks: Seq<Token>, vals: Seq<Option<Seq<char>>>, pos: int, s: GStmt) -> bool
    decreases s, 1nat,
{
    match s {
        GStmt::If(e, l) => tk(toks, pos, TokenType::IF) && expr_at(toks, vals, pos + 1, e) && at_block(toks, vals,
            pos + 1 + expr_len(e),
            *l,
        ),
        GStmt::IfElse(e, l1, l2) => tk(toks, pos, TokenType::IF) && expr_at(toks, vals, pos + 1, e) && at_block(toks, vals,
            pos + 1 + expr_len(e),
            *l1,
        ) && tk(toks, pos + 3 + expr_len(e) + len_list(*l1), TokenType::ELSE) && at_block(toks, vals,
            pos + 4 + expr_len(e) + len_list(*l1),
            *l2,
        ),
        GStmt::While(e, l) => tk(toks, pos, TokenType::WHILE) && expr_at(toks, vals, pos + 1, e) && at_block(toks, vals,
            pos + 1 + expr_len(e),
            *l,
        ),
        GStmt::Do(l, e) => tk(toks, pos, TokenType::DO) && at_block(toks, vals, pos + 1, *l) && tk(
            toks,
            pos + 3 + len_list(*l),
            TokenType::WHILE,
        ) && expr_at(toks, vals, pos + 4 + len_list(*l), e) && tk(toks, pos + 4 + len_list(*l) + expr_len(e), TokenType::SCOL),
        GStmt::In(t) => tk(toks, pos, TokenType::STDIN) && tok_is(toks, pos + 1, t, TokenType::ID) && tk(
            toks,
            pos + 2,
            TokenType::SCOL,
        ),
        GStmt::Out(e) => tk(toks, pos, TokenType::STDOUT) && expr_at(toks, vals, pos + 1, e) && tk(
            toks,
            pos + 1 + expr_len(e),
            TokenType::SCOL,
        ),
        GStmt::Assign(t, e) => tok_is(toks, pos, t, TokenType::ID) && tk(toks, pos + 1, TokenType::ASSIGN) && expr_at(toks, vals,
            pos + 2,
            e,
        ) && tk(toks, pos + 2 + expr_len(e), TokenType::SCOL),
        GStmt::Step(t, s) => tok_is(toks, pos, t, TokenType::ID) && tok_is(toks, pos + 1, s, s.token_type) && (
        s.token_type == TokenType::INC || s.token_type == TokenType::DEC) && tk(toks, pos + 2, TokenType::SCOL),
        GStmt::Decl(ty, t, m) => tok_is(toks, pos, ty, ty.token_type) && (ty.token_type == TokenType::INTEGER
            || ty.token_type == TokenType::DOUBLE) && tok_is(toks, pos + 1, t, TokenType::ID) && at_more(
            toks,
            pos + 2,
            m,
        ) && tk(toks, pos + 2 + len_more(m), TokenType::SCOL),
    }
}

pub open spec fn at_list(toks: Seq<Token>, vals: Seq<Option<Seq<char>>>, pos: int, l: GList) -> bool
    decreases l, 2nat,
{
    match l {
        GList::Nil => true,
        GList::Cons(s, r) => at_stmt(toks, vals, pos, *s) && at_list(toks, vals, pos + len_stmt(*s), *r),
    }
}

/// The tokens of a program whose body is `l`, and nothing after it, the
/// values of its float literals being `vals`.
pub open spec fn at_program(toks: Seq<Token>, vals: Seq<Option<Seq<char>>>, l: GList) -> bool {
    &&& tk(toks, 0, TokenType::MAIN)
    &&& at_block(toks, vals, 1, l)
    &&& toks.len() == len_list(l) + 3
}

pub open spec fn tree_more(typ: ExpType, m: GMore) -> Option<Box<TreeV>>
    decreases m,
{
    match m {
        GMore::End => None,
        GMore::Next(t, r) => Some(Box::new(decl(typ, t.lexemme@, None, tree_more(typ, *r)))),
    }
}

pub open spec fn tree_stmt(s: GStmt) -> TreeV
    decreases s, 1nat,
{
    match s {
        GStmt::If(e, l) => stmt(
            StmtV::If { condition: Box::new(expr_tree(e)), then_branch: boxed(tree_list(None, *l)), else_branch: None },
            None,
        ),
        GStmt::IfElse(e, l1, l2) => stmt(
            StmtV::If {
                condition: Box::new(expr_tree(e)),
                then_branch: boxed(tree_list(None, *l1)),
                else_branch: boxed(tree_list(None, *l2)),
            },
            None,
        ),
        GStmt::While(e, l) => stmt(StmtV::While { condition: Box::new(expr_tree(e)), body: boxed(tree_list(None, *l)) }, None),
        GStmt::Do(l, e) => stmt(StmtV::Do { body: boxed(tree_list(None, *l)), condition: Box::new(expr_tree(e)) }, None),
        GStmt::In(t) => stmt(StmtV::In { name: t.lexemme@ }, None),
        GStmt::Out(e) => stmt(StmtV::Out { expression: Box::new(expr_tree(e)) }, None),
        GStmt::Assign(t, e) => stmt(StmtV::Assign { name: t.lexemme@, value: Box::new(expr_tree(e)) }, None),
        GStmt::Step(t, s) => stmt(
            StmtV::Assign {
                name: t.lexemme@,
                value: Box::new(gbin(
                    if s.token_type == TokenType::INC { TokenType::SUM } else { TokenType::MIN },
                    gexp(ExpV::Id { name: t.lexemme@ }),
                    gexp(ExpV::Const { value: 1 }),
                )),
            },
            None,
        ),
        GStmt::Decl(ty, t, m) => decl(decl_type(ty.token_type), t.lexemme@, None, tree_more(decl_type(ty.token_type), m)),
    }
}

/// The list `acc` followed by the trees of the members of `l`.
pub open spec fn tree_list(acc: Option<TreeV>, l: GList) -> Option<TreeV>
    decreases l, 2nat,
{
    match l {
        GList::Nil => acc,
        GList::Cons(s, r) => tree_list(append_opt(acc, tree_stmt(*s)), *r),
    }
}

/// The tree without the positions of its nodes.
pub open spec fn strip_all(t: TreeV) -> TreeV
    decreases t,
{
    TreeV {
        sibling: match t.sibling {
            Some(s) => Some(Box::new(strip_all(*s))),
            None => None,
        },
        node: match t.node {
            NodeV::Exp { .. } => strip(t).node,
            NodeV::Stmt { kind, .. } => NodeV::Stmt {
                kind: match kind {
                    StmtV::If { condition, then_branch, else_branch } => StmtV::If {
                        condition: Box::new(strip(*condition)),
                        then_branch: match then_branch {
                            Some(b) => Some(Box::new(strip_all(*b))),
                            None => None,
                        },
                        else_branch: match else_branch {
                            Some(b) => Some(Box::new(strip_all(*b))),
                            None => None,
                        },
                    },
                    StmtV::While { condition, body } => StmtV::While {
                        condition: Box::new(strip(*condition)),
                        body: match body {
                            Some(b) => Some(Box::new(strip_all(*b))),
                            None => None,
                        },
                    },
                    StmtV::Do { body, condition } => StmtV::Do {
                        body: match body {
                            Some(b) => Some(Box::new(strip_all(*b))),
                            None => None,
                        },
                        condition: Box::new(strip(*condition)),
                    },
                    StmtV::Assign { name, value } => StmtV::Assign { name, value: Box::new(strip(*value)) },
                    StmtV::Out { expression } => StmtV::Out { expression: Box::new(strip(*expression)) },
                    k => k,
                },
                cursor: None,
            },
            NodeV::Decl { kind, .. } => NodeV::Decl { kind, cursor: None },
        },
    }
}

pub open spec fn strip_o(o: Option<TreeV>) -> Option<TreeV> {
    match o {
        Some(x) => Some(strip_all(x)),
        None => None,
    }
}

pub open spec fn strip_ob(o: Option<Box<TreeV>>) -> Option<Box<TreeV>> {
    match o {
        Some(x) => Some(Box::new(strip_all(*x))),
        None => None,
    }
}

/// The parse `p` from `st` consumed `n` tokens without error and gave a
/// list that is `t` but for positions.
pub open spec fn reads_list(toks: Seq<Token>, st: PState, p: Parsed, n: nat, t: Option<TreeV>) -> bool {
    p matches Parsed::Done { st: s1, tree: x } && s1 == moved(toks, st, n) && strip_o(x) == t
}

// ---------------------------------------------------------------------------
// One step of the parser each
// ---------------------------------------------------------------------------

proof fn lemma_moved(toks: Seq<Token>, st: PState, a: nat, b: nat)
    ensures
        moved(toks, moved(toks, st, a), b) == moved(toks, st, a + b),
{
}

proof fn lemma_adv(toks: Seq<Token>, st: PState)
    requires
        st.pos < toks.len(),
    ensures
        advance(toks, st) == moved(toks, st, 1),
{
}

#[verifier::spinoff_prover]
proof fn step_sentencia(toks: Seq<Token>, st: PState)
    requires
        st.pos < toks.len(),
    ensures
        tk(toks, st.pos as int, TokenType::IF) ==> p_sentencia(toks, st) == p_seleccion(toks, st),
        tk(toks, st.pos as int, TokenType::WHILE) ==> p_sentencia(toks, st) == p_iteracion(toks, st),
        tk(toks, st.pos as int, TokenType::DO) ==> p_sentencia(toks, st) == p_repeticion(toks, st),
        tk(toks, st.pos as int, TokenType::STDIN) ==> p_sentencia(toks, st) == p_sent_in(toks, st),
        tk(toks, st.pos as int, TokenType::STDOUT) ==> p_sentencia(toks, st) == p_sent_out(toks, st),
        tk(toks, st.pos as int, TokenType::ID) ==> p_sentencia(toks, st) == p_asignacion(toks, st),
        tk(toks, st.pos as int, TokenType::INTEGER) ==> p_sentencia(toks, st) == p_declaracion_variable(toks, st),
        tk(toks, st.pos as int, TokenType::DOUBLE) ==> p_sentencia(toks, st) == p_declaracion_variable(toks, st),
        tk(toks, st.pos as int, TokenType::RBRA) ==> p_sentencia(toks, st) == done(st, None),
{
}

#[verifier::spinoff_prover]
proof fn step_if(toks: Seq<Token>, st: PState, s2: PState, cond: TreeV, s4: PState, x: Option<TreeV>)
    requires
        tk(toks, st.pos as int, TokenType::IF),
        p_expresion(toks, advance(toks, st)) == done(s2, Some(cond)),
        tk(toks, s2.pos as int, TokenType::LBRA),
        left(toks, advance(toks, s2)) < left(toks, st),
        p_lista_sentencias(toks, advance(toks, s2)) == done(s4, x),
        tk(toks, s4.pos as int, TokenType::RBRA),
        !peek_is(toks, advance(toks, s4), TokenType::ELSE),
    ensures
        p_seleccion(toks, st) == done(
            advance(toks, s4),
            Some(stmt(StmtV::If { condition: Box::new(cond), then_branch: boxed(x), else_branch: None }, advance(toks, st).cur)),
        ),
{
}

#[verifier::spinoff_prover]
proof fn step_if_else(
    toks: Seq<Token>,
    st: PState,
    s2: PState,
    cond: TreeV,
    s4: PState,
    x: Option<TreeV>,
    s8: PState,
    y: Option<TreeV>,
)
    requires
        tk(toks, st.pos as int, TokenType::IF),
        p_expresion(toks, advance(toks, st)) == done(s2, Some(cond)),
        tk(toks, s2.pos as int, TokenType::LBRA),
        left(toks, advance(toks, s2)) < left(toks, st),
        p_lista_sentencias(toks, advance(toks, s2)) == done(s4, x),
        tk(toks, s4.pos as int, TokenType::RBRA),
        tk(toks, (s4.pos + 1) as int, TokenType::ELSE),
        tk(toks, (s4.pos + 2) as int, TokenType::LBRA),
        left(toks, advance(toks, advance(toks, advance(toks, s4)))) < left(toks, st),
        p_lista_sentencias(toks, advance(toks, advance(toks, advance(toks, s4)))) == done(s8, y),
        tk(toks, s8.pos as int, TokenType::RBRA),
    ensures
        p_seleccion(toks, st) == done(
            advance(toks, s8),
            Some(stmt(
                StmtV::If { condition: Box::new(cond), then_branch: boxed(x), else_branch: boxed(y) },
                advance(toks, st).cur,
            )),
        ),
{
}

#[verifier::spinoff_prover]
proof fn step_while(toks: Seq<Token>, st: PState, s2: PState, cond: TreeV, s4: PState, x: Option<TreeV>)
    requires
        tk(toks, st.pos as int, TokenType::WHILE),
        p_expresion(toks, advance(toks, st)) == done(s2, Some(cond)),
        tk(toks, s2.pos as int, TokenType::LBRA),
        left(toks, advance(toks, s2)) < left(toks, st),
        p_lista_sentencias(toks, advance(toks, s2)) == done(s4, x),
        tk(toks, s4.pos as int, TokenType::RBRA),
    ensures
        p_iteracion(toks, st) == done(
            advance(toks, s4),
            Some(stmt(StmtV::While { condition: Box::new(cond), body: boxed(x) }, advance(toks, st).cur)),
        ),
{
}

#[verifier::spinoff_prover]
proof fn step_do(toks: Seq<Token>, st: PState, s3: PState, x: Option<TreeV>, s6: PState, cond: TreeV)
    requires
        tk(toks, st.pos as int, TokenType::DO),
        tk(toks, (st.pos + 1) as int, TokenType::LBRA),
        left(toks, advance(toks, advance(toks, st))) < left(toks, st),
        p_lista_sentencias(toks, advance(toks, advance(toks, st))) == done(s3, x),
        tk(toks, s3.pos as int, TokenType::RBRA),
        tk(toks, (s3.pos + 1) as int, TokenType::WHILE),
        p_expresion(toks, advance(toks, advance(toks, s3))) == done(s6, Some(cond)),
        tk(toks, s6.pos as int, TokenType::SCOL),
    ensures
        p_repeticion(toks, st) == done(
            advance(toks, s6),
            Some(stmt(StmtV::Do { body: boxed(x), condition: Box::new(cond) }, advance(toks, st).cur)),
        ),
{
}

#[verifier::spinoff_prover]
proof fn step_in(toks: Seq<Token>, st: PState)
    requires
        tk(toks, st.pos as int, TokenType::STDIN),
        tk(toks, (st.pos + 1) as int, TokenType::ID),
        tk(toks, (st.pos + 2) as int, TokenType::SCOL),
    ensures
        p_sent_in(toks, st) == done(
            advance(toks, advance(toks, advance(toks, st))),
            Some(stmt(StmtV::In { name: toks[(st.pos + 1) as int].lexemme@ }, advance(toks, st).cur)),
        ),
{
}

#[verifier::spinoff_prover]
proof fn step_out(toks: Seq<Token>, st: PState, s2: PState, e: TreeV)
    requires
        tk(toks, st.pos as int, TokenType::STDOUT),
        p_expresion(toks, advance(toks, st)) == done(s2, Some(e)),
        tk(toks, s2.pos as int, TokenType::SCOL),
    ensures
        p_sent_out(toks, st) == done(
            advance(toks, s2),
            Some(stmt(StmtV::Out { expression: Box::new(e) }, advance(toks, st).cur)),
        ),
{
}

#[verifier::spinoff_prover]
proof fn step_assign_value(toks: Seq<Token>, st: PState, s3: PState, v: TreeV)
    requires
        tk(toks, st.pos as int, TokenType::ID),
        tk(toks, (st.pos + 1) as int, TokenType::ASSIGN),
        p_expresion(toks, advance(toks, advance(toks, st))) == done(s3, Some(v)),
        tk(toks, s3.pos as int, TokenType::SCOL),
    ensures
        p_asignacion(toks, st) == done(
            advance(toks, s3),
            Some(stmt(StmtV::Assign { name: toks[st.pos as int].lexemme@, value: Box::new(v) }, advance(toks, st).cur)),
        ),
{
}

#[verifier::spinoff_prover]
proof fn step_assign_step(toks: Seq<Token>, st: PState)
    requires
        tk(toks, st.pos as int, TokenType::ID),
        tk(toks, (st.pos + 1) as int, TokenType::INC) || tk(toks, (st.pos + 1) as int, TokenType::DEC),
        tk(toks, (st.pos + 2) as int, TokenType::SCOL),
    ensures
        p_asignacion(toks, st) == done(
            advance(toks, advance(toks, advance(toks, st))),
            Some(step_assign(toks[st.pos as int].lexemme@, step_op(toks[(st.pos + 1) as int].token_type), advance(toks, st).cur)),
        ),
{
}

#[verifier::spinoff_prover]
proof fn step_more_end(toks: Seq<Token>, st: PState, typ: ExpType)
    requires
        !peek_is(toks, st, TokenType::COMMA),
    ensures
        p_ident_rest(toks, st, typ) == (st, None::<Box<TreeV>>),
{
}

#[verifier::spinoff_prover]
proof fn step_more_next(toks: Seq<Token>, st: PState, typ: ExpType, s3: PState, rest: Option<Box<TreeV>>)
    requires
        tk(toks, st.pos as int, TokenType::COMMA),
        tk(toks, (st.pos + 1) as int, TokenType::ID),
        p_ident_rest(toks, advance(toks, advance(toks, st)), typ) == (s3, rest),
    ensures
        p_ident_rest(toks, st, typ) == (
            s3,
            Some(Box::new(decl(typ, toks[(st.pos + 1) as int].lexemme@, advance(toks, advance(toks, st)).cur, rest))),
        ),
{
}

#[verifier::spinoff_prover]
proof fn step_decl(toks: Seq<Token>, st: PState, s3: PState, rest: Option<Box<TreeV>>)
    requires
        tk(toks, st.pos as int, TokenType::INTEGER) || tk(toks, st.pos as int, TokenType::DOUBLE),
        tk(toks, (st.pos + 1) as int, TokenType::ID),
        p_ident_rest(toks, advance(toks, advance(toks, st)), decl_type(toks[st.pos as int].token_type)) == (s3, rest),
        tk(toks, s3.pos as int, TokenType::SCOL),
    ensures
        p_declaracion_variable(toks, st) == done(
            advance(toks, s3),
            Some(decl(
                decl_type(toks[st.pos as int].token_type),
                toks[(st.pos + 1) as int].lexemme@,
                advance(toks, advance(toks, st)).cur,
                rest,
            )),
        ),
{
}

#[verifier::spinoff_prover]
proof fn step_loop_end(toks: Seq<Token>, st: PState, acc: Option<TreeV>)
    requires
        tk(toks, st.pos as int, TokenType::RBRA),
    ensures
        p_sent_loop(toks, st, acc) == done(st, acc),
{
    step_sentencia(toks, st);
}

#[verifier::spinoff_prover]
proof fn step_loop_more(toks: Seq<Token>, st: PState, acc: Option<TreeV>, s1: PState, n: TreeV)
    requires
        st.pos < toks.len(),
        p_sentencia(toks, st) == done(s1, Some(n)),
        left(toks, s1) < left(toks, st),
    ensures
        p_sent_loop(toks, st, acc) == p_sent_loop(toks, s1, append_opt(acc, n)),
{
}

#[verifier::spinoff_prover]
proof fn step_declaracion(toks: Seq<Token>, st: PState)
    requires
        st.pos < toks.len(),
    ensures
        tk(toks, st.pos as int, TokenType::INTEGER) || tk(toks, st.pos as int, TokenType::DOUBLE) ==> p_declaracion(
            toks,
            st,
        ) == p_declaracion_variable(toks, st),
        !(tk(toks, st.pos as int, TokenType::INTEGER) || tk(toks, st.pos as int, TokenType::DOUBLE)) ==> p_declaracion(
            toks,
            st,
        ) == p_lista_sentencias(toks, st),
{
}

#[verifier::spinoff_prover]
proof fn step_decl_loop_end(toks: Seq<Token>, st: PState, acc: TreeV)
    requires
        p_declaracion(toks, st) == done(st, None),
    ensures
        p_decl_loop(toks, st, acc) == done(st, Some(acc)),
{
}

#[verifier::spinoff_prover]
proof fn step_decl_loop_more(toks: Seq<Token>, st: PState, acc: TreeV, s1: PState, q: TreeV)
    requires
        p_declaracion(toks, st) == done(s1, Some(q)),
        left(toks, s1) < left(toks, st),
    ensures
        p_decl_loop(toks, st, acc) == p_decl_loop(toks, s1, append_tree(acc, q)),
{
}

#[verifier::spinoff_prover]
proof fn step_lista_declaracion(toks: Seq<Token>, st: PState, s1: PState, t: Option<TreeV>)
    requires
        p_declaracion(toks, st) == done(s1, t),
        t is Some ==> left(toks, s1) < left(toks, st),
    ensures
        p_lista_declaracion(toks, st) == match t {
            Some(x) => p_decl_loop(toks, s1, x),
            None => done(s1, None),
        },
{
}

#[verifier::spinoff_prover]
proof fn step_program(toks: Seq<Token>, floats: Seq<Option<Seq<char>>>, s3: PState, root: Option<TreeV>)
    requires
        tk(toks, 0, TokenType::MAIN),
        tk(toks, 1, TokenType::LBRA),
        p_lista_declaracion(
            toks,
            advance(toks, advance(toks, initial_state(toks, floats))),
        ) == done(s3, root),
        tk(toks, s3.pos as int, TokenType::RBRA),
        s3.pos + 1 == toks.len(),
    ensures
        spec_parse(toks, floats) == done(advance(toks, s3), root),
{
}

// ---------------------------------------------------------------------------
// Lemmas
// ---------------------------------------------------------------------------

/// The parse `p` from `st` consumed `n` tokens without error and gave one
/// tree that is `t` but for positions.
pub open spec fn reads_one(toks: Seq<Token>, st: PState, p: Parsed, n: nat, t: TreeV) -> bool {
    p matches Parsed::Done { st: s1, tree: Some(x) } && s1 == moved(toks, st, n) && strip_all(x) == t
}

/// What the statement loop returns; kept folded where only its use matters.
#[verifier::opaque]
spec fn loop_parse(toks: Seq<Token>, st: PState, acc: Option<TreeV>) -> Parsed {
    p_sent_loop(toks, st, acc)
}

/// What reading one statement returns; kept folded where only its use matters.
#[verifier::opaque]
spec fn stmt_parse(toks: Seq<Token>, st: PState) -> Parsed {
    p_sentencia(toks, st)
}

/// What reading a `do` statement returns; kept folded where only its use
/// matters.
#[verifier::opaque]
spec fn do_parse(toks: Seq<Token>, st: PState) -> Parsed {
    p_repeticion(toks, st)
}

proof fn lemma_strip_append(a: TreeV, b: TreeV)
    ensures
        strip_all(append_tree(a, b)) == append_tree(strip_all(a), strip_all(b)),
    decreases a,
{
    match a.sibling {
        Some(s) => lemma_strip_append(*s, b),
        None => {},
    }
}

proof fn lemma_strip_append_opt(acc: Option<TreeV>, n: TreeV)
    ensures
        strip_o(append_opt(acc, n)) == append_opt(strip_o(acc), strip_all(n)),
{
    match acc {
        Some(a) => lemma_strip_append(a, n),
        None => {},
    }
}

proof fn lemma_append_assoc(a: TreeV, b: TreeV, c: TreeV)
    ensures
        append_tree(append_tree(a, b), c) == append_tree(a, append_tree(b, c)),
    decreases a,
{
    match a.sibling {
        Some(s) => lemma_append_assoc(*s, b, c),
        None => {},
    }
}

proof fn lemma_tree_list_some(a: TreeV, l: GList)
    ensures
        tree_list(Some(a), l) is Some,
        l !is Nil ==> tree_list(Some(a), l) == Some(append_tree(a, tree_list(None, l).unwrap())),
    decreases l,
{
    match l {
        GList::Nil => {},
        GList::Cons(s, r) => {
            let ts = tree_stmt(*s);
            lemma_tree_list_some(append_tree(a, ts), *r);
            lemma_tree_list_some(ts, *r);
            match *r {
                GList::Nil => {},
                GList::Cons(_, _) => {
                    lemma_append_assoc(a, ts, tree_list(None, *r).unwrap());
                },
            }
        },
    }
}

#[verifier::spinoff_prover]
proof fn lemma_stmt_first(toks: Seq<Token>, vals: Seq<Option<Seq<char>>>, pos: int, s: GStmt)
    requires
        at_stmt(toks, vals, pos, s),
    ensures
        0 <= pos < toks.len(),
        toks[pos].token_type != TokenType::ELSE,
        toks[pos].token_type != TokenType::RBRA,
        (toks[pos].token_type == TokenType::INTEGER || toks[pos].token_type == TokenType::DOUBLE) <==> s is Decl,
        len_stmt(s) >= 2,
{
}

#[verifier::spinoff_prover]
proof fn lemma_more(toks: Seq<Token>, st: PState, typ: ExpType, m: GMore)
    requires
        at_more(toks, st.pos as int, m),
        st.pos + len_more(m) < toks.len(),
        toks[(st.pos + len_more(m)) as int].token_type != TokenType::COMMA,
    ensures
        p_ident_rest(toks, st, typ).0 == moved(toks, st, len_more(m)),
        strip_ob(p_ident_rest(toks, st, typ).1) == tree_more(typ, m),
    decreases m,
{
    match m {
        GMore::End => {
            step_more_end(toks, st, typ);
        },
        GMore::Next(t, r) => {
            let s1 = moved(toks, st, 1);
            let s2 = moved(toks, st, 2);
            lemma_adv(toks, st);
            lemma_adv(toks, s1);
            lemma_moved(toks, st, 1, 1);
            lemma_more(toks, s2, typ, *r);
            let s3 = p_ident_rest(toks, s2, typ).0;
            let rest = p_ident_rest(toks, s2, typ).1;
            step_more_next(toks, st, typ, s3, rest);
            lemma_moved(toks, st, 2, len_more(*r));
        },
    }
}

#[verifier::spinoff_prover]
proof fn lemma_decl(toks: Seq<Token>, st: PState, s: GStmt)
    requires
        s is Decl,
        at_stmt(toks, st.floats, st.pos as int, s),
    ensures
        reads_one(toks, st, p_declaracion_variable(toks, st), len_stmt(s), tree_stmt(s)),
{
    match s {
        GStmt::Decl(ty, t, m) => {
            let typ = decl_type(ty.token_type);
            let s1 = moved(toks, st, 1);
            let s2 = moved(toks, st, 2);
            lemma_adv(toks, st);
            lemma_adv(toks, s1);
            lemma_moved(toks, st, 1, 1);
            lemma_more(toks, s2, typ, m);
            let s3 = p_ident_rest(toks, s2, typ).0;
            let rest = p_ident_rest(toks, s2, typ).1;
            lemma_adv(toks, s3);
            step_decl(toks, st, s3, rest);
            lemma_moved(toks, st, 2, len_more(m));
            lemma_moved(toks, st, 2 + len_more(m), 1);
        },
        _ => {},
    }
}

#[verifier::spinoff_prover]
proof fn lemma_in(toks: Seq<Token>, st: PState, s: GStmt)
    requires
        s is In,
        at_stmt(toks, st.floats, st.pos as int, s),
    ensures
        reads_one(toks, st, p_sent_in(toks, st), len_stmt(s), tree_stmt(s)),
{
    lemma_adv(toks, st);
    lemma_adv(toks, moved(toks, st, 1));
    lemma_moved(toks, st, 1, 1);
    lemma_adv(toks, moved(toks, st, 2));
    lemma_moved(toks, st, 2, 1);
    step_in(toks, st);
}

/// A statement `id ++ ;` is read as the assignment `id = id + 1`, and
/// `id -- ;` as `id = id - 1`.
pub proof fn lemma_step_statement_meaning(toks: Seq<Token>, st: PState)
    requires
        tk(toks, st.pos as int, TokenType::ID),
        tk(toks, (st.pos + 1) as int, TokenType::INC) || tk(toks, (st.pos + 1) as int, TokenType::DEC),
        tk(toks, (st.pos + 2) as int, TokenType::SCOL),
    ensures
        ({
            let name = toks[st.pos as int].lexemme@;
            let cur = advance(toks, st).cur;
            let op = if tk(toks, (st.pos + 1) as int, TokenType::INC) { TokenType::SUM } else { TokenType::MIN };
            p_asignacion(toks, st) == done(
                advance(toks, advance(toks, advance(toks, st))),
                Some(stmt(
                    StmtV::Assign {
                        name,
                        value: Box::new(binop(op, exp(ExpV::Id { name }, cur), exp(ExpV::Const { value: 1 }, None), cur)),
                    },
                    cur,
                )),
            )
        }),
{
    step_assign_step(toks, st);
}

#[verifier::spinoff_prover]
proof fn lemma_step(toks: Seq<Token>, st: PState, s: GStmt)
    requires
        s is Step,
        at_stmt(toks, st.floats, st.pos as int, s),
    ensures
        reads_one(toks, st, p_asignacion(toks, st), len_stmt(s), tree_stmt(s)),
{
    lemma_adv(toks, st);
    lemma_adv(toks, moved(toks, st, 1));
    lemma_moved(toks, st, 1, 1);
    lemma_adv(toks, moved(toks, st, 2));
    lemma_moved(toks, st, 2, 1);
    step_assign_step(toks, st);
    match s {
        GStmt::Step(t, o) => {
            let name = t.lexemme@;
            let cur = moved(toks, st, 1).cur;
            assert(strip(exp(ExpV::Id { name }, cur)) == exp(ExpV::Id { name }, None));
            assert(strip(exp(ExpV::Const { value: 1 }, None)) == exp(ExpV::Const { value: 1 }, None));
            assert(strip(binop(step_op(o.token_type), exp(ExpV::Id { name }, cur), exp(ExpV::Const { value: 1 }, None), cur))
                == binop(step_op(o.token_type), exp(ExpV::Id { name }, None), exp(ExpV::Const { value: 1 }, None), None));
        },
        _ => {},
    }
}

#[verifier::spinoff_prover]
proof fn lemma_out(toks: Seq<Token>, st: PState, s: GStmt)
    requires
        s is Out,
        at_stmt(toks, st.floats, st.pos as int, s),
    ensures
        reads_one(toks, st, p_sent_out(toks, st), len_stmt(s), tree_stmt(s)),
{
    match s {
        GStmt::Out(e) => {
            let s1 = moved(toks, st, 1);
            lemma_adv(toks, st);
            lemma_expr_folded(toks, s1, e);
            let s2 = moved(toks, s1, expr_len(e));
            let v = parsed_tree(p_expresion(toks, s1));
            assert(p_expresion(toks, s1) == done(s2, Some(v)));
            lemma_adv(toks, s2);
            step_out(toks, st, s2, v);
            lemma_moved(toks, st, 1, expr_len(e));
            lemma_moved(toks, st, 1 + expr_len(e), 1);
        },
        _ => {},
    }
}

#[verifier::spinoff_prover]
proof fn lemma_assign(toks: Seq<Token>, st: PState, s: GStmt)
    requires
        s is Assign,
        at_stmt(toks, st.floats, st.pos as int, s),
    ensures
        reads_one(toks, st, p_asignacion(toks, st), len_stmt(s), tree_stmt(s)),
{
    match s {
        GStmt::Assign(t, e) => {
            let s2 = moved(toks, st, 2);
            lemma_adv(toks, st);
            lemma_adv(toks, moved(toks, st, 1));
            lemma_moved(toks, st, 1, 1);
            lemma_expr_folded(toks, s2, e);
            let s3 = moved(toks, s2, expr_len(e));
            let v = parsed_tree(p_expresion(toks, s2));
            assert(p_expresion(toks, s2) == done(s3, Some(v)));
            lemma_adv(toks, s3);
            step_assign_value(toks, st, s3, v);
            lemma_moved(toks, st, 2, expr_len(e));
            lemma_moved(toks, st, 2 + expr_len(e), 1);
        },
        _ => {},
    }
}

#[verifier::spinoff_prover]
proof fn lemma_block(toks: Seq<Token>, st: PState, l: GList)
    requires
        at_list(toks, st.floats, st.pos as int, l),
        tk(toks, (st.pos + len_list(l)) as int, TokenType::RBRA),
    ensures
        reads_list(toks, st, p_lista_sentencias(toks, st), len_list(l), tree_list(None, l)),
    decreases l, 4nat,
{
    lemma_list(toks, st, None, None, l);
    reveal(loop_parse);
    assert(p_lista_sentencias(toks, st) == p_sent_loop(toks, st, None));
}

#[verifier::spinoff_prover]
proof fn lemma_list_step(toks: Seq<Token>, st: PState, acc: Option<TreeV>, accs: Option<TreeV>, s: GStmt, r: GList)
    requires
        st.pos < toks.len(),
        strip_o(acc) == accs,
        len_stmt(s) > 0,
        reads_one(toks, st, stmt_parse(toks, st), len_stmt(s), tree_stmt(s)),
        reads_list(
            toks,
            moved(toks, st, len_stmt(s)),
            loop_parse(toks, moved(toks, st, len_stmt(s)), append_opt(acc, parsed_tree(stmt_parse(toks, st)))),
            len_list(r),
            tree_list(append_opt(accs, tree_stmt(s)), r),
        ),
    ensures
        reads_list(
            toks,
            st,
            loop_parse(toks, st, acc),
            len_list(GList::Cons(Box::new(s), Box::new(r))),
            tree_list(accs, GList::Cons(Box::new(s), Box::new(r))),
        ),
{
    reveal(loop_parse);
    reveal(stmt_parse);
    let s1 = moved(toks, st, len_stmt(s));
    let n = parsed_tree(p_sentencia(toks, st));
    assert(p_sentencia(toks, st) == done(s1, Some(n)));
    step_loop_more(toks, st, acc, s1, n);
    lemma_moved(toks, st, len_stmt(s), len_list(r));
}

#[verifier::spinoff_prover]
proof fn lemma_list(toks: Seq<Token>, st: PState, acc: Option<TreeV>, accs: Option<TreeV>, l: GList)
    requires
        at_list(toks, st.floats, st.pos as int, l),
        tk(toks, (st.pos + len_list(l)) as int, TokenType::RBRA),
        strip_o(acc) == accs,
    ensures
        reads_list(toks, st, loop_parse(toks, st, acc), len_list(l), tree_list(accs, l)),
    decreases l, 3nat,
{
    match l {
        GList::Nil => {
            reveal(loop_parse);
            step_loop_end(toks, st, acc);
        },
        GList::Cons(s, r) => {
            let end_s = (st.pos + len_stmt(*s)) as int;
            assert(at_list(toks, st.floats, end_s, *r));
            match *r {
                GList::Cons(s2, _) => lemma_stmt_first(toks, st.floats, end_s, *s2),
                GList::Nil => {},
            }
            lemma_stmt_first(toks, st.floats, st.pos as int, *s);
            lemma_stmt_folded(toks, st, *s);
            let s1 = moved(toks, st, len_stmt(*s));
            let n = parsed_tree(stmt_parse(toks, st));
            lemma_strip_append_opt(acc, n);
            lemma_list(toks, s1, append_opt(acc, n), append_opt(accs, tree_stmt(*s)), *r);
            lemma_list_step(toks, st, acc, accs, *s, *r);
        },
    }
}

#[verifier::spinoff_prover]
proof fn lemma_stmt_folded(toks: Seq<Token>, st: PState, s: GStmt)
    requires
        at_stmt(toks, st.floats, st.pos as int, s),
        st.pos + len_stmt(s) < toks.len(),
        toks[(st.pos + len_stmt(s)) as int].token_type != TokenType::ELSE,
    ensures
        reads_one(toks, st, stmt_parse(toks, st), len_stmt(s), tree_stmt(s)),
    decreases s, 3nat,
{
    reveal(stmt_parse);
    lemma_stmt(toks, st, s);
}

#[verifier::spinoff_prover]
proof fn lemma_stmt(toks: Seq<Token>, st: PState, s: GStmt)
    requires
        at_stmt(toks, st.floats, st.pos as int, s),
        st.pos + len_stmt(s) < toks.len(),
        toks[(st.pos + len_stmt(s)) as int].token_type != TokenType::ELSE,
    ensures
        reads_one(toks, st, p_sentencia(toks, st), len_stmt(s), tree_stmt(s)),
        len_stmt(s) > 0,
    decreases s, 2nat,
{
    lemma_stmt_first(toks, st.floats, st.pos as int, s);
    step_sentencia(toks, st);
    match s {
        GStmt::If(_, _) => lemma_if(toks, st, s),
        GStmt::IfElse(_, _, _) => lemma_if_else(toks, st, s),
        GStmt::While(_, _) => lemma_while(toks, st, s),
        GStmt::Do(_, _) => {
            lemma_do(toks, st, s);
            reveal(do_parse);
        },
        GStmt::In(_) => lemma_in(toks, st, s),
        GStmt::Out(_) => lemma_out(toks, st, s),
        GStmt::Assign(_, _) => lemma_assign(toks, st, s),
        GStmt::Step(_, _) => lemma_step(toks, st, s),
        GStmt::Decl(_, _, _) => lemma_decl(toks, st, s),
    }
}

#[verifier::spinoff_prover]
proof fn lemma_if(toks: Seq<Token>, st: PState, s: GStmt)
    requires
        s is If,
        at_stmt(toks, st.floats, st.pos as int, s),
        st.pos + len_stmt(s) < toks.len(),
        toks[(st.pos + len_stmt(s)) as int].token_type != TokenType::ELSE,
    ensures
        reads_one(toks, st, p_seleccion(toks, st), len_stmt(s), tree_stmt(s)),
    decreases s, 1nat,
{
    match s {
        GStmt::If(e, l) => {
            let s1 = moved(toks, st, 1);
            lemma_adv(toks, st);
            lemma_expr_folded(toks, s1, e);
            let s2 = moved(toks, s1, expr_len(e));
            let cond = parsed_tree(p_expresion(toks, s1));
            assert(p_expresion(toks, s1) == done(s2, Some(cond)));
            let s3 = moved(toks, s2, 1);
            lemma_adv(toks, s2);
            lemma_moved(toks, st, 1, expr_len(e));
            lemma_moved(toks, st, 1 + expr_len(e), 1);
            lemma_block(toks, s3, *l);
            let s4 = moved(toks, s3, len_list(*l));
            let x = p_lista_sentencias(toks, s3)->tree;
            assert(p_lista_sentencias(toks, s3) == done(s4, x));
            lemma_adv(toks, s4);
            lemma_moved(toks, st, 2 + expr_len(e), len_list(*l));
            lemma_moved(toks, st, 2 + expr_len(e) + len_list(*l), 1);
            step_if(toks, st, s2, cond, s4, x);
        },
        _ => {},
    }
}

#[verifier::spinoff_prover]
#[verifier::rlimit(40)]
proof fn lemma_if_else(toks: Seq<Token>, st: PState, s: GStmt)
    requires
        s is IfElse,
        at_stmt(toks, st.floats, st.pos as int, s),
    ensures
        reads_one(toks, st, p_seleccion(toks, st), len_stmt(s), tree_stmt(s)),
    decreases s, 1nat,
{
    match s {
        GStmt::IfElse(e, l1, l2) => {
            let s1 = moved(toks, st, 1);
            lemma_adv(toks, st);
            lemma_expr_folded(toks, s1, e);
            let s2 = moved(toks, s1, expr_len(e));
            let cond = parsed_tree(p_expresion(toks, s1));
            assert(p_expresion(toks, s1) == done(s2, Some(cond)));
            let s3 = moved(toks, s2, 1);
            lemma_adv(toks, s2);
            lemma_moved(toks, st, 1, expr_len(e));
            lemma_moved(toks, st, 1 + expr_len(e), 1);
            lemma_block(toks, s3, *l1);
            let s4 = moved(toks, s3, len_list(*l1));
            let x = p_lista_sentencias(toks, s3)->tree;
            assert(p_lista_sentencias(toks, s3) == done(s4, x));
            lemma_moved(toks, st, 2 + expr_len(e), len_list(*l1));
            lemma_adv(toks, s4);
            lemma_adv(toks, moved(toks, s4, 1));
            lemma_moved(toks, s4, 1, 1);
            lemma_adv(toks, moved(toks, s4, 2));
            lemma_moved(toks, s4, 2, 1);
            let s7 = moved(toks, s4, 3);
            lemma_moved(toks, st, 2 + expr_len(e) + len_list(*l1), 3);
            lemma_block(toks, s7, *l2);
            let s8 = moved(toks, s7, len_list(*l2));
            let y = p_lista_sentencias(toks, s7)->tree;
            assert(p_lista_sentencias(toks, s7) == done(s8, y));
            lemma_adv(toks, s8);
            lemma_moved(toks, st, 5 + expr_len(e) + len_list(*l1), len_list(*l2));
            lemma_moved(toks, st, 5 + expr_len(e) + len_list(*l1) + len_list(*l2), 1);
            step_if_else(toks, st, s2, cond, s4, x, s8, y);
        },
        _ => {},
    }
}

#[verifier::spinoff_prover]
proof fn lemma_while(toks: Seq<Token>, st: PState, s: GStmt)
    requires
        s is While,
        at_stmt(toks, st.floats, st.pos as int, s),
    ensures
        reads_one(toks, st, p_iteracion(toks, st), len_stmt(s), tree_stmt(s)),
    decreases s, 1nat,
{
    match s {
        GStmt::While(e, l) => {
            let s1 = moved(toks, st, 1);
            lemma_adv(toks, st);
            lemma_expr_folded(toks, s1, e);
            let s2 = moved(toks, s1, expr_len(e));
            let cond = parsed_tree(p_expresion(toks, s1));
            assert(p_expresion(toks, s1) == done(s2, Some(cond)));
            let s3 = moved(toks, s2, 1);
            lemma_adv(toks, s2);
            lemma_moved(toks, st, 1, expr_len(e));
            lemma_moved(toks, st, 1 + expr_len(e), 1);
            lemma_block(toks, s3, *l);
            let s4 = moved(toks, s3, len_list(*l));
            let x = p_lista_sentencias(toks, s3)->tree;
            assert(p_lista_sentencias(toks, s3) == done(s4, x));
            lemma_adv(toks, s4);
            lemma_moved(toks, st, 2 + expr_len(e), len_list(*l));
            lemma_moved(toks, st, 2 + expr_len(e) + len_list(*l), 1);
            step_while(toks, st, s2, cond, s4, x);
        },
        _ => {},
    }
}

#[verifier::spinoff_prover]
proof fn lemma_do_parsed(toks: Seq<Token>, st: PState, l: GList, e: GExpr)
    requires
        at_stmt(toks, st.floats, st.pos as int, GStmt::Do(Box::new(l), e)),
        reads_list(toks, moved(toks, st, 2), p_lista_sentencias(toks, moved(toks, st, 2)), len_list(l), tree_list(None, l)),
        parses_to(
            toks,
            moved(toks, st, 4 + len_list(l)),
            p_expresion(toks, moved(toks, st, 4 + len_list(l))),
            expr_len(e),
            expr_tree(e),
        ),
    ensures
        reads_one(toks, st, do_parse(toks, st), len_stmt(GStmt::Do(Box::new(l), e)), tree_stmt(GStmt::Do(Box::new(l), e))),
{
    reveal(do_parse);
    lemma_adv(toks, st);
    lemma_adv(toks, moved(toks, st, 1));
    lemma_moved(toks, st, 1, 1);
    let s2 = moved(toks, st, 2);
    let s3 = moved(toks, s2, len_list(l));
    let x = p_lista_sentencias(toks, s2)->tree;
    assert(p_lista_sentencias(toks, s2) == done(s3, x));
    lemma_adv(toks, s3);
    lemma_adv(toks, moved(toks, s3, 1));
    lemma_moved(toks, s3, 1, 1);
    lemma_moved(toks, st, 2, len_list(l));
    lemma_moved(toks, st, 2 + len_list(l), 2);
    let s5 = moved(toks, s3, 2);
    let s6 = moved(toks, s5, expr_len(e));
    let cond = parsed_tree(p_expresion(toks, s5));
    assert(p_expresion(toks, s5) == done(s6, Some(cond)));
    lemma_adv(toks, s6);
    lemma_moved(toks, st, 4 + len_list(l), expr_len(e));
    lemma_moved(toks, st, 4 + len_list(l) + expr_len(e), 1);
    step_do(toks, st, s3, x, s6, cond);
}

#[verifier::spinoff_prover]
proof fn lemma_do(toks: Seq<Token>, st: PState, s: GStmt)
    requires
        s is Do,
        at_stmt(toks, st.floats, st.pos as int, s),
    ensures
        reads_one(toks, st, do_parse(toks, st), len_stmt(s), tree_stmt(s)),
    decreases s, 1nat,
{
    match s {
        GStmt::Do(l, e) => {
            lemma_block(toks, moved(toks, st, 2), *l);
            lemma_expr_folded(toks, moved(toks, st, 4 + len_list(*l)), e);
            lemma_do_parsed(toks, st, *l, e);
        },
        _ => {},
    }
}

#[verifier::spinoff_prover]
proof fn lemma_decl_loop_end(toks: Seq<Token>, st: PState, acc: TreeV)
    requires
        tk(toks, st.pos as int, TokenType::RBRA),
    ensures
        p_decl_loop(toks, st, acc) == done(st, Some(acc)),
{
    step_declaracion(toks, st);
    lemma_block(toks, st, GList::Nil);
    step_decl_loop_end(toks, st, acc);
}

#[verifier::spinoff_prover]
proof fn lemma_decl_loop(toks: Seq<Token>, st: PState, acc: TreeV, accs: TreeV, l: GList)
    requires
        at_list(toks, st.floats, st.pos as int, l),
        tk(toks, (st.pos + len_list(l)) as int, TokenType::RBRA),
        strip_all(acc) == accs,
    ensures
        reads_list(toks, st, p_decl_loop(toks, st, acc), len_list(l), tree_list(Some(accs), l)),
    decreases l,
{
    match l {
        GList::Nil => {
            lemma_decl_loop_end(toks, st, acc);
        },
        GList::Cons(s, r) => {
            lemma_stmt_first(toks, st.floats, st.pos as int, *s);
            step_declaracion(toks, st);
            if (*s) is Decl {
                lemma_decl(toks, st, *s);
                let s1 = moved(toks, st, len_stmt(*s));
                let q = parsed_tree(p_declaracion_variable(toks, st));
                assert(p_declaracion(toks, st) == done(s1, Some(q)));
                step_decl_loop_more(toks, st, acc, s1, q);
                lemma_strip_append(acc, q);
                lemma_decl_loop(toks, s1, append_tree(acc, q), append_tree(accs, tree_stmt(*s)), *r);
                lemma_moved(toks, st, len_stmt(*s), len_list(*r));
            } else {
                lemma_block(toks, st, l);
                lemma_tree_list_some(tree_stmt(*s), *r);
                lemma_tree_list_some(accs, l);
                let e = moved(toks, st, len_list(l));
                let q = p_lista_sentencias(toks, st)->tree.unwrap();
                assert(p_declaracion(toks, st) == done(e, Some(q)));
                step_decl_loop_more(toks, st, acc, e, q);
                lemma_decl_loop_end(toks, e, append_tree(acc, q));
                lemma_strip_append(acc, q);
            }
        },
    }
}

#[verifier::spinoff_prover]
proof fn lemma_lista_declaracion(toks: Seq<Token>, st: PState, l: GList)
    requires
        at_list(toks, st.floats, st.pos as int, l),
        tk(toks, (st.pos + len_list(l)) as int, TokenType::RBRA),
    ensures
        reads_list(toks, st, p_lista_declaracion(toks, st), len_list(l), tree_list(None, l)),
{
    step_declaracion(toks, st);
    match l {
        GList::Nil => {
            lemma_block(toks, st, l);
            step_lista_declaracion(toks, st, st, None);
        },
        GList::Cons(s, r) => {
            lemma_stmt_first(toks, st.floats, st.pos as int, *s);
            if (*s) is Decl {
                lemma_decl(toks, st, *s);
                let s1 = moved(toks, st, len_stmt(*s));
                let q = parsed_tree(p_declaracion_variable(toks, st));
                assert(p_declaracion(toks, st) == done(s1, Some(q)));
                step_lista_declaracion(toks, st, s1, Some(q));
                lemma_decl_loop(toks, s1, q, tree_stmt(*s), *r);
                lemma_moved(toks, st, len_stmt(*s), len_list(*r));
            } else {
                lemma_block(toks, st, l);
                lemma_tree_list_some(tree_stmt(*s), *r);
                let e = moved(toks, st, len_list(l));
                let q = p_lista_sentencias(toks, st)->tree.unwrap();
                assert(p_declaracion(toks, st) == done(e, Some(q)));
                step_lista_declaracion(toks, st, e, Some(q));
                lemma_decl_loop_end(toks, e, q);
            }
        },
    }
}

/// Every program that the grammar derives is read whole by the parser: it
/// consumes every token, records no error and builds the list of the
/// program's declarations and statements, in order, that the derivation
/// denotes (but for positions).
pub proof fn lemma_parse_program(toks: Seq<Token>, floats: Seq<Option<Seq<char>>>, l: GList)
    requires
        at_program(toks, floats, l),
    ensures
        spec_parse(toks, floats) matches Parsed::Done { st, tree } && st.pos == toks.len() && st.errs.len() == 0
            && strip_o(tree) == tree_list(None, l),
{
    let st0 = initial_state(toks, floats);
    lemma_adv(toks, st0);
    lemma_adv(toks, moved(toks, st0, 1));
    lemma_moved(toks, st0, 1, 1);
    let s2 = moved(toks, st0, 2);
    lemma_lista_declaracion(toks, s2, l);
    let s3 = moved(toks, s2, len_list(l));
    let root = p_lista_declaracion(toks, s2)->tree;
    assert(p_lista_declaracion(toks, s2) == done(s3, root));
    lemma_adv(toks, s3);
    step_program(toks, floats, s3, root);
}

} // verus!
