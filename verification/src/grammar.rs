//! The expression grammar of the language, and the law that the parser
//! reads every expression the grammar derives:
//!
//! ```text
//! expresion        -> expresion_and [OR expresion_and]
//! expresion_and    -> expresion_not [AND expresion_not]
//! expresion_not    -> NOT expresion_rel | expresion_rel
//! expresion_rel    -> expresion_simple [relop expresion_simple]
//! expresion_simple -> expresion_simple (+|-) termino | termino
//! termino          -> termino (*|/|%) factor | factor
//! factor           -> factor ^ componente | componente
//! componente       -> ( expresion ) | entero | real | id ++ | id -- | id
//! ```
//!
//! A derivation is a value of the types below; `at_*` says that the tokens
//! from a position on spell it, `tree_*` is the tree it denotes (without
//! positions) and `len_*` the number of its tokens. A number is an integer
//! literal whose text reads as an `i32`, or a float literal; the value of a
//! float literal is read outside the parser and handed to it, one per token
//! (`vals`), and a derivation of one names that value.

use vstd::prelude::*;
use crate::parse_model::{
    advance, binop, done, exp, is_mult_op, is_rel_op, left, match_tok, p_and, p_componente, p_expresion, p_factor,
    p_factor_loop, p_not, p_rel, p_simple, p_simple_loop, p_term_loop, p_termino, step_op, PState,
    Parsed,
};
use crate::structures::{ExpV, NodeV, TreeV};
use crate::text::spec_parse_i32;
use crate::token::{Cursor, Token, TokenType};

verus! {

/// componente
pub enum GComp {
    /// `( e )`
    Paren(Token, Box<GExpr>, Token),
    /// An integer literal.
    Int(Token),
    /// A float literal, and the value the parser is handed for it.
    Float(Token, Seq<char>),
    /// `id ++` or `id --`
    Step(Token, Token),
    Id(Token),
}

/// factor: a component, or a factor, `^` and a component.
pub enum GFactor {
    Comp(GComp),
    Pow(Box<GFactor>, Token, GComp),
}

/// termino
pub enum GTerm {
    Factor(GFactor),
    Mul(Box<GTerm>, Token, GFactor),
}

/// expresion_simple
pub enum GSimple {
    Term(GTerm),
    Add(Box<GSimple>, Token, GTerm),
}

/// expresion_rel: a simple expression, or two with a relational operator
/// between them.
pub enum GRel {
    Single(GSimple),
    Relation(GSimple, Token, GSimple),
}

/// expresion_not
pub enum GNot {
    Pos(GRel),
    Neg(Token, GRel),
}

/// expresion_and
pub enum GAnd {
    Single(GNot),
    And(GNot, Token, GNot),
}

/// expresion
pub enum GExpr {
    Single(GAnd),
    Or(GAnd, Token, GAnd),
}

// ---------------------------------------------------------------------------
// Lengths
// ---------------------------------------------------------------------------

pub open spec fn len_comp(c: GComp) -> nat
    decreases c,
{
    match c {
        GComp::Paren(_, e, _) => len_expr(*e) + 2,
        GComp::Int(_) => 1,
        GComp::Float(_, _) => 1,
        GComp::Step(_, _) => 2,
        GComp::Id(_) => 1,
    }
}

pub open spec fn len_factor(f: GFactor) -> nat
    decreases f,
{
    match f {
        GFactor::Comp(c) => len_comp(c),
        GFactor::Pow(g, _, c) => len_factor(*g) + 1 + len_comp(c),
    }
}

pub open spec fn len_term(t: GTerm) -> nat
    decreases t,
{
    match t {
        GTerm::Factor(f) => len_factor(f),
        GTerm::Mul(g, _, f) => len_term(*g) + 1 + len_factor(f),
    }
}

pub open spec fn len_simple(s: GSimple) -> nat
    decreases s,
{
    match s {
        GSimple::Term(t) => len_term(t),
        GSimple::Add(g, _, t) => len_simple(*g) + 1 + len_term(t),
    }
}

pub open spec fn len_rel(r: GRel) -> nat
    decreases r,
{
    match r {
        GRel::Single(x) => len_simple(x),
        GRel::Relation(x, _, y) => len_simple(x) + 1 + len_simple(y),
    }
}

pub open spec fn len_not(n: GNot) -> nat
    decreases n,
{
    match n {
        GNot::Pos(r) => len_rel(r),
        GNot::Neg(_, r) => 1 + len_rel(r),
    }
}

pub open spec fn len_and(a: GAnd) -> nat
    decreases a,
{
    match a {
        GAnd::Single(x) => len_not(x),
        GAnd::And(x, _, y) => len_not(x) + 1 + len_not(y),
    }
}

pub open spec fn len_expr(e: GExpr) -> nat
    decreases e,
{
    match e {
        GExpr::Single(x) => len_and(x),
        GExpr::Or(x, _, y) => len_and(x) + 1 + len_and(y),
    }
}

// ---------------------------------------------------------------------------
// The tokens that spell a derivation
// ---------------------------------------------------------------------------

pub open spec fn tok_is(toks: Seq<Token>, pos: int, t: Token, tt: TokenType) -> bool {
    0 <= pos < toks.len() && toks[pos] == t && t.token_type == tt
}

pub open spec fn at_comp(toks: Seq<Token>, vals: Seq<Option<Seq<char>>>, pos: int, c: GComp) -> bool
    decreases c,
{
    match c {
        GComp::Paren(l, e, r) => tok_is(toks, pos, l, TokenType::LPAR) && at_expr(toks, vals, pos + 1, *e) && tok_is(
            toks,
            pos + 1 + len_expr(*e),
            r,
            TokenType::RPAR,
        ),
        GComp::Int(t) => tok_is(toks, pos, t, TokenType::INT) && spec_parse_i32(t.lexemme@) is Some,
        GComp::Float(t, v) => tok_is(toks, pos, t, TokenType::FLOAT) && pos < vals.len() && vals[pos] == Some(v),
        GComp::Step(t, s) => tok_is(toks, pos, t, TokenType::ID) && 0 <= pos + 1 < toks.len() && toks[pos + 1] == s && (
        s.token_type == TokenType::INC || s.token_type == TokenType::DEC),
        GComp::Id(t) => tok_is(toks, pos, t, TokenType::ID),
    }
}

pub open spec fn at_factor(toks: Seq<Token>, vals: Seq<Option<Seq<char>>>, pos: int, f: GFactor) -> bool
    decreases f,
{
    match f {
        GFactor::Comp(c) => at_comp(toks, vals, pos, c),
        GFactor::Pow(g, op, c) => at_factor(toks, vals, pos, *g) && tok_is(toks, pos + len_factor(*g), op, TokenType::POWER)
            && at_comp(toks, vals, pos + len_factor(*g) + 1, c),
    }
}

pub open spec fn at_term(toks: Seq<Token>, vals: Seq<Option<Seq<char>>>, pos: int, t: GTerm) -> bool
    decreases t,
{
    match t {
        GTerm::Factor(f) => at_factor(toks, vals, pos, f),
        GTerm::Mul(g, op, f) => at_term(toks, vals, pos, *g) && tok_is(toks, pos + len_term(*g), op, op.token_type)
            && is_mult_op(op.token_type) && at_factor(toks, vals, pos + len_term(*g) + 1, f),
    }
}

pub open spec fn at_simple(toks: Seq<Token>, vals: Seq<Option<Seq<char>>>, pos: int, s: GSimple) -> bool
    decreases s,
{
    match s {
        GSimple::Term(t) => at_term(toks, vals, pos, t),
        GSimple::Add(g, op, t) => at_simple(toks, vals, pos, *g) && tok_is(toks, pos + len_simple(*g), op, op.token_type) && (
        op.token_type == TokenType::SUM || op.token_type == TokenType::MIN) && at_term(toks, vals, pos + len_simple(*g) + 1, t),
    }
}

pub open spec fn at_rel(toks: Seq<Token>, vals: Seq<Option<Seq<char>>>, pos: int, r: GRel) -> bool
    decreases r,
{
    match r {
        GRel::Single(x) => at_simple(toks, vals, pos, x),
        GRel::Relation(x, op, y) => at_simple(toks, vals, pos, x) && tok_is(toks, pos + len_simple(x), op, op.token_type)
            && is_rel_op(op.token_type) && at_simple(toks, vals, pos + len_simple(x) + 1, y),
    }
}

pub open spec fn at_not(toks: Seq<Token>, vals: Seq<Option<Seq<char>>>, pos: int, n: GNot) -> bool
    decreases n,
{
    match n {
        GNot::Pos(r) => at_rel(toks, vals, pos, r),
        GNot::Neg(t, r) => tok_is(toks, pos, t, TokenType::NEG) && at_rel(toks, vals, pos + 1, r),
    }
}

pub open spec fn at_and(toks: Seq<Token>, vals: Seq<Option<Seq<char>>>, pos: int, a: GAnd) -> bool
    decreases a,
{
    match a {
        GAnd::Single(x) => at_not(toks, vals, pos, x),
        GAnd::And(x, op, y) => at_not(toks, vals, pos, x) && tok_is(toks, pos + len_not(x), op, TokenType::AND)
            && at_not(toks, vals, pos + len_not(x) + 1, y),
    }
}

pub open spec fn at_expr(toks: Seq<Token>, vals: Seq<Option<Seq<char>>>, pos: int, e: GExpr) -> bool
    decreases e,
{
    match e {
        GExpr::Single(x) => at_and(toks, vals, pos, x),
        GExpr::Or(x, op, y) => at_and(toks, vals, pos, x) && tok_is(toks, pos + len_and(x), op, TokenType::OR)
            && at_and(toks, vals, pos + len_and(x) + 1, y),
    }
}

// ---------------------------------------------------------------------------
// The trees that derivations denote
// ---------------------------------------------------------------------------

/// An expression node without a position.
pub open spec fn gexp(kind: ExpV) -> TreeV {
    exp(kind, None)
}

pub open spec fn gbin(op: TokenType, l: TreeV, r: TreeV) -> TreeV {
    binop(op, l, r, None)
}

pub open spec fn tree_comp(c: GComp) -> TreeV
    decreases c,
{
    match c {
        GComp::Paren(_, e, _) => tree_expr(*e),
        GComp::Int(t) => gexp(ExpV::Const { value: spec_parse_i32(t.lexemme@).unwrap() }),
        GComp::Float(_, v) => gexp(ExpV::ConstF { value: v }),
        GComp::Step(t, s) => gbin(
            if s.token_type == TokenType::INC { TokenType::SUM } else { TokenType::MIN },
            gexp(ExpV::Id { name: t.lexemme@ }),
            gexp(ExpV::Const { value: 1 }),
        ),
        GComp::Id(t) => gexp(ExpV::Id { name: t.lexemme@ }),
    }
}

pub open spec fn tree_factor(f: GFactor) -> TreeV
    decreases f,
{
    match f {
        GFactor::Comp(c) => tree_comp(c),
        GFactor::Pow(g, _, c) => gbin(TokenType::POWER, tree_factor(*g), tree_comp(c)),
    }
}

pub open spec fn tree_term(t: GTerm) -> TreeV
    decreases t,
{
    match t {
        GTerm::Factor(f) => tree_factor(f),
        GTerm::Mul(g, op, f) => gbin(op.token_type, tree_term(*g), tree_factor(f)),
    }
}

pub open spec fn tree_simple(s: GSimple) -> TreeV
    decreases s,
{
    match s {
        GSimple::Term(t) => tree_term(t),
        GSimple::Add(g, op, t) => gbin(op.token_type, tree_simple(*g), tree_term(t)),
    }
}

pub open spec fn tree_rel(r: GRel) -> TreeV
    decreases r,
{
    match r {
        GRel::Single(x) => tree_simple(x),
        GRel::Relation(x, op, y) => gbin(op.token_type, tree_simple(x), tree_simple(y)),
    }
}

pub open spec fn tree_not(n: GNot) -> TreeV
    decreases n,
{
    match n {
        GNot::Pos(r) => tree_rel(r),
        GNot::Neg(_, r) => gexp(ExpV::Op { op: TokenType::NEG, left: Box::new(tree_rel(r)), right: None }),
    }
}

pub open spec fn tree_and(a: GAnd) -> TreeV
    decreases a,
{
    match a {
        GAnd::Single(x) => tree_not(x),
        GAnd::And(x, _, y) => gbin(TokenType::AND, tree_not(x), tree_not(y)),
    }
}

pub open spec fn tree_expr(e: GExpr) -> TreeV
    decreases e,
{
    match e {
        GExpr::Single(x) => tree_and(x),
        GExpr::Or(x, _, y) => gbin(TokenType::OR, tree_and(x), tree_and(y)),
    }
}

/// The tree without the positions of its expression nodes.
pub open spec fn strip(t: TreeV) -> TreeV
    decreases t,
{
    TreeV {
        sibling: match t.sibling {
            Some(s) => Some(Box::new(strip(*s))),
            None => None,
        },
        node: match t.node {
            NodeV::Exp { kind, typ, val, .. } => NodeV::Exp {
                kind: match kind {
                    ExpV::Op { op, left, right } => ExpV::Op {
                        op,
                        left: Box::new(strip(*left)),
                        right: match right {
                            Some(r) => Some(Box::new(strip(*r))),
                            None => None,
                        },
                    },
                    k => k,
                },
                typ,
                cursor: None,
                val,
            },
            n => n,
        },
    }
}

// ---------------------------------------------------------------------------
// What may follow a derivation
// ---------------------------------------------------------------------------

/// The kinds of token that may follow a phrase of the given level (0 for a
/// component, 1 factor, 2 term, 3 simple expression, 4 relational and
/// negated expression, 5 conjunction, 6 expression): what ends the
/// expression (`;`, `)`, `{`), or an operator of a level above.
pub open spec fn follows(tt: TokenType, level: nat) -> bool {
    ||| tt == TokenType::SCOL || tt == TokenType::RPAR || tt == TokenType::LBRA
    ||| level <= 5 && tt == TokenType::OR
    ||| level <= 4 && tt == TokenType::AND
    ||| level <= 3 && is_rel_op(tt)
    ||| level <= 2 && (tt == TokenType::SUM || tt == TokenType::MIN)
    ||| level <= 1 && is_mult_op(tt)
    ||| level == 0 && tt == TokenType::POWER
}

pub open spec fn followed(toks: Seq<Token>, pos: int, level: nat) -> bool {
    0 <= pos < toks.len() && follows(toks[pos].token_type, level)
}

/// The state after `n` more tokens were consumed without error.
pub open spec fn moved(toks: Seq<Token>, st: PState, n: nat) -> PState {
    PState { pos: st.pos + n, cur: if n > 0 { Some(toks[st.pos + n - 1].start) } else { st.cur }, ..st }
}

/// The parse `p` from `st` consumed `n` tokens without error and gave a
/// tree that is `t` but for positions.
pub open spec fn parses_to(toks: Seq<Token>, st: PState, p: Parsed, n: nat, t: TreeV) -> bool {
    p matches Parsed::Done { st: s1, tree: Some(x) } && s1 == moved(toks, st, n) && strip(x) == t
}


/// The tree a finished parse built.
pub open spec fn parsed_tree(p: Parsed) -> TreeV {
    p->tree.unwrap()
}

// ---------------------------------------------------------------------------
// Lemmas
// ---------------------------------------------------------------------------

#[verifier::spinoff_prover]
proof fn lemma_moved(toks: Seq<Token>, st: PState, a: nat, b: nat)
    ensures
        moved(toks, moved(toks, st, a), b) == moved(toks, st, a + b),
{
}

#[verifier::spinoff_prover]
proof fn lemma_first_comp(toks: Seq<Token>, vals: Seq<Option<Seq<char>>>, pos: int, c: GComp)
    requires
        at_comp(toks, vals, pos, c),
    ensures
        0 <= pos < toks.len(),
        toks[pos].token_type != TokenType::NEG,
{
}

#[verifier::spinoff_prover]
proof fn lemma_first_factor(toks: Seq<Token>, vals: Seq<Option<Seq<char>>>, pos: int, f: GFactor)
    requires
        at_factor(toks, vals, pos, f),
    ensures
        0 <= pos < toks.len(),
        toks[pos].token_type != TokenType::NEG,
    decreases f,
{
    match f {
        GFactor::Comp(c) => lemma_first_comp(toks, vals, pos, c),
        GFactor::Pow(g, _, _) => lemma_first_factor(toks, vals, pos, *g),
    }
}

#[verifier::spinoff_prover]
proof fn lemma_first_term(toks: Seq<Token>, vals: Seq<Option<Seq<char>>>, pos: int, t: GTerm)
    requires
        at_term(toks, vals, pos, t),
    ensures
        0 <= pos < toks.len(),
        toks[pos].token_type != TokenType::NEG,
    decreases t,
{
    match t {
        GTerm::Factor(f) => lemma_first_factor(toks, vals, pos, f),
        GTerm::Mul(g, _, _) => lemma_first_term(toks, vals, pos, *g),
    }
}

#[verifier::spinoff_prover]
proof fn lemma_first_simple(toks: Seq<Token>, vals: Seq<Option<Seq<char>>>, pos: int, s: GSimple)
    requires
        at_simple(toks, vals, pos, s),
    ensures
        0 <= pos < toks.len(),
        toks[pos].token_type != TokenType::NEG,
    decreases s,
{
    match s {
        GSimple::Term(t) => lemma_first_term(toks, vals, pos, t),
        GSimple::Add(g, _, _) => lemma_first_simple(toks, vals, pos, *g),
    }
}

#[verifier::spinoff_prover]
proof fn step_rel_single(toks: Seq<Token>, st: PState, s1: PState, node: TreeV)
    requires
        p_simple(toks, st) == done(s1, Some(node)),
        s1.pos < toks.len(),
        !is_rel_op(toks[s1.pos as int].token_type),
    ensures
        p_rel(toks, st) == done(s1, Some(node)),
{
}

#[verifier::spinoff_prover]
proof fn step_rel_pair(
    toks: Seq<Token>,
    st: PState,
    s1: PState,
    node: TreeV,
    op: TokenType,
    s3: PState,
    rn: TreeV,
)
    requires
        p_simple(toks, st) == done(s1, Some(node)),
        s1.pos < toks.len(),
        toks[s1.pos as int].token_type == op,
        is_rel_op(op),
        left(toks, advance(toks, s1)) < left(toks, st),
        p_simple(toks, advance(toks, s1)) == done(s3, Some(rn)),
    ensures
        p_rel(toks, st) == done(s3, Some(binop(op, node, rn, advance(toks, s1).cur))),
{
}

#[verifier::spinoff_prover]
proof fn step_and(
    toks: Seq<Token>,
    st: PState,
    s1: PState,
    node: TreeV,
    s3: PState,
    rn: TreeV,
)
    requires
        p_not(toks, st) == done(s1, Some(node)),
        s1.pos < toks.len(),
        toks[s1.pos as int].token_type == TokenType::AND,
        left(toks, advance(toks, s1)) < left(toks, st),
        p_not(toks, advance(toks, s1)) == done(s3, Some(rn)),
    ensures
        p_and(toks, st) == done(s3, Some(binop(TokenType::AND, node, rn, advance(toks, s1).cur))),
{
}

#[verifier::spinoff_prover]
proof fn step_and_single(toks: Seq<Token>, st: PState, s1: PState, node: TreeV)
    requires
        p_not(toks, st) == done(s1, Some(node)),
        s1.pos < toks.len(),
        toks[s1.pos as int].token_type != TokenType::AND,
    ensures
        p_and(toks, st) == done(s1, Some(node)),
{
}

#[verifier::spinoff_prover]
proof fn step_or(
    toks: Seq<Token>,
    st: PState,
    s1: PState,
    node: TreeV,
    s3: PState,
    rn: TreeV,
)
    requires
        p_and(toks, st) == done(s1, Some(node)),
        s1.pos < toks.len(),
        toks[s1.pos as int].token_type == TokenType::OR,
        left(toks, advance(toks, s1)) < left(toks, st),
        p_and(toks, advance(toks, s1)) == done(s3, Some(rn)),
    ensures
        p_expresion(toks, st) == done(s3, Some(binop(TokenType::OR, node, rn, advance(toks, s1).cur))),
{
}

#[verifier::spinoff_prover]
proof fn step_or_single(toks: Seq<Token>, st: PState, s1: PState, node: TreeV)
    requires
        p_and(toks, st) == done(s1, Some(node)),
        s1.pos < toks.len(),
        toks[s1.pos as int].token_type != TokenType::OR,
    ensures
        p_expresion(toks, st) == done(s1, Some(node)),
{
}

#[verifier::spinoff_prover]
proof fn step_paren(toks: Seq<Token>, st: PState, s2: PState, n: TreeV)
    requires
        st.pos < toks.len(),
        toks[st.pos as int].token_type == TokenType::LPAR,
        p_expresion(toks, advance(toks, st)) == done(s2, Some(n)),
        s2.pos < toks.len(),
        toks[s2.pos as int].token_type == TokenType::RPAR,
    ensures
        p_componente(toks, st) == done(advance(toks, s2), Some(n)),
{
}

#[verifier::spinoff_prover]
proof fn step_int(toks: Seq<Token>, st: PState)
    requires
        st.pos < toks.len(),
        toks[st.pos as int].token_type == TokenType::INT,
        spec_parse_i32(toks[st.pos as int].lexemme@) is Some,
    ensures
        p_componente(toks, st) == done(
            advance(toks, st),
            Some(exp(ExpV::Const { value: spec_parse_i32(toks[st.pos as int].lexemme@).unwrap() }, advance(toks, st).cur)),
        ),
{
}

#[verifier::spinoff_prover]
proof fn step_id_step(toks: Seq<Token>, st: PState)
    requires
        st.pos + 1 < toks.len(),
        toks[st.pos as int].token_type == TokenType::ID,
        toks[st.pos + 1int].token_type == TokenType::INC || toks[st.pos + 1int].token_type == TokenType::DEC,
    ensures
        p_componente(toks, st) == done(
            advance(toks, advance(toks, st)),
            Some(binop(
                step_op(toks[st.pos + 1int].token_type),
                exp(ExpV::Id { name: toks[st.pos as int].lexemme@ }, advance(toks, advance(toks, st)).cur),
                exp(ExpV::Const { value: 1 }, None),
                advance(toks, st).cur,
            )),
        ),
{
}

/// An operand `id ++` is read as `id + 1`, and `id --` as `id - 1`.
pub proof fn lemma_step_component_meaning(toks: Seq<Token>, st: PState)
    requires
        st.pos + 1 < toks.len(),
        toks[st.pos as int].token_type == TokenType::ID,
        toks[st.pos + 1int].token_type == TokenType::INC || toks[st.pos + 1int].token_type == TokenType::DEC,
    ensures
        p_componente(toks, st) == done(
            advance(toks, advance(toks, st)),
            Some(binop(
                if toks[st.pos + 1int].token_type == TokenType::INC { TokenType::SUM } else { TokenType::MIN },
                exp(ExpV::Id { name: toks[st.pos as int].lexemme@ }, advance(toks, advance(toks, st)).cur),
                exp(ExpV::Const { value: 1 }, None),
                advance(toks, st).cur,
            )),
        ),
{
    step_id_step(toks, st);
}

#[verifier::spinoff_prover]
proof fn step_id(toks: Seq<Token>, st: PState)
    requires
        st.pos + 1 < toks.len(),
        toks[st.pos as int].token_type == TokenType::ID,
        toks[st.pos + 1int].token_type != TokenType::INC,
        toks[st.pos + 1int].token_type != TokenType::DEC,
    ensures
        p_componente(toks, st) == done(
            advance(toks, st),
            Some(exp(ExpV::Id { name: toks[st.pos as int].lexemme@ }, advance(toks, st).cur)),
        ),
{
}

#[verifier::spinoff_prover]
proof fn lemma_comp_int(toks: Seq<Token>, st: PState, t: Token)
    requires
        at_comp(toks, st.floats, st.pos as int, GComp::Int(t)),
        followed(toks, st.pos + 1int, 0),
    ensures
        parses_to(toks, st, p_componente(toks, st), 1, tree_comp(GComp::Int(t))),
{
    assert(advance(toks, st) == moved(toks, st, 1));
    step_int(toks, st);
}

#[verifier::spinoff_prover]
proof fn step_float(toks: Seq<Token>, st: PState)
    requires
        st.pos < toks.len(),
        toks[st.pos as int].token_type == TokenType::FLOAT,
        st.pos < st.floats.len(),
        st.floats[st.pos as int] is Some,
    ensures
        p_componente(toks, st) == done(
            advance(toks, st),
            Some(exp(ExpV::ConstF { value: st.floats[st.pos as int].unwrap() }, advance(toks, st).cur)),
        ),
{
}

#[verifier::spinoff_prover]
proof fn lemma_comp_float(toks: Seq<Token>, st: PState, t: Token, v: Seq<char>)
    requires
        at_comp(toks, st.floats, st.pos as int, GComp::Float(t, v)),
        followed(toks, st.pos + 1int, 0),
    ensures
        parses_to(toks, st, p_componente(toks, st), 1, tree_comp(GComp::Float(t, v))),
{
    assert(advance(toks, st) == moved(toks, st, 1));
    step_float(toks, st);
}

#[verifier::spinoff_prover]
proof fn lemma_comp_id(toks: Seq<Token>, st: PState, t: Token)
    requires
        at_comp(toks, st.floats, st.pos as int, GComp::Id(t)),
        followed(toks, st.pos + 1int, 0),
    ensures
        parses_to(toks, st, p_componente(toks, st), 1, tree_comp(GComp::Id(t))),
{
    assert(advance(toks, st) == moved(toks, st, 1));
    step_id(toks, st);
}

#[verifier::spinoff_prover]
proof fn lemma_comp_step(toks: Seq<Token>, st: PState, t: Token, s: Token)
    requires
        at_comp(toks, st.floats, st.pos as int, GComp::Step(t, s)),
        followed(toks, st.pos + 2int, 0),
    ensures
        parses_to(toks, st, p_componente(toks, st), 2, tree_comp(GComp::Step(t, s))),
{
    let s1 = moved(toks, st, 1);
    assert(advance(toks, st) == s1);
    assert(advance(toks, s1) == moved(toks, s1, 1));
    lemma_moved(toks, st, 1, 1);
    step_id_step(toks, st);
    let x = exp(ExpV::Id { name: toks[st.pos as int].lexemme@ }, advance(toks, s1).cur);
    let one = exp(ExpV::Const { value: 1 }, None);
    lemma_strip_binop(step_op(s.token_type), x, one, s1.cur);
}

#[verifier::spinoff_prover]
proof fn step_paren_parsed(toks: Seq<Token>, st: PState, l: Token, e: GExpr, r: Token)
    requires
        at_comp(toks, st.floats, st.pos as int, GComp::Paren(l, Box::new(e), r)),
        parses_to(toks, moved(toks, st, 1), p_expresion(toks, moved(toks, st, 1)), len_expr(e), tree_expr(e)),
    ensures
        parses_to(toks, st, p_componente(toks, st), len_expr(e) + 2, tree_expr(e)),
{
    let s1 = moved(toks, st, 1);
    assert(advance(toks, st) == s1);
    let s2 = moved(toks, s1, len_expr(e));
    let n = parsed_tree(p_expresion(toks, s1));
    lemma_moved(toks, st, 1, len_expr(e));
    lemma_moved(toks, st, 1 + len_expr(e), 1);
    assert(advance(toks, s2) == moved(toks, s2, 1));
    step_paren(toks, st, s2, n);
}

#[verifier::spinoff_prover]
proof fn lemma_comp_paren(toks: Seq<Token>, st: PState, l: Token, e: GExpr, r: Token)
    requires
        at_comp(toks, st.floats, st.pos as int, GComp::Paren(l, Box::new(e), r)),
        followed(toks, (st.pos + len_expr(e) + 2) as int, 0),
    ensures
        parses_to(toks, st, p_componente(toks, st), len_expr(e) + 2, tree_expr(e)),
    decreases e, 1nat,
{
    lemma_expr(toks, moved(toks, st, 1), e);
    step_paren_parsed(toks, st, l, e, r);
}

#[verifier::spinoff_prover]
proof fn lemma_comp(toks: Seq<Token>, st: PState, c: GComp)
    requires
        at_comp(toks, st.floats, st.pos as int, c),
        followed(toks, (st.pos + len_comp(c)) as int, 0),
    ensures
        parses_to(toks, st, p_componente(toks, st), len_comp(c), tree_comp(c)),
    decreases c, 1nat,
{
    match c {
        GComp::Paren(l, e, r) => lemma_comp_paren(toks, st, l, *e, r),
        GComp::Int(t) => lemma_comp_int(toks, st, t),
        GComp::Float(t, v) => lemma_comp_float(toks, st, t, v),
        GComp::Step(t, s) => lemma_comp_step(toks, st, t, s),
        GComp::Id(t) => lemma_comp_id(toks, st, t),
    }
}

#[verifier::spinoff_prover]
proof fn lemma_factor_prefix(toks: Seq<Token>, st: PState, f: GFactor) -> (n: TreeV)
    requires
        at_factor(toks, st.floats, st.pos as int, f),
        followed(toks, (st.pos + len_factor(f)) as int, 0),
    ensures
        strip(n) == tree_factor(f),
        p_factor(toks, st) == p_factor_loop(toks, moved(toks, st, len_factor(f)), n),
    decreases f, 0nat,
{
    match f {
        GFactor::Comp(c) => {
            lemma_comp(toks, st, c);
            parsed_tree(p_componente(toks, st))
        },
        GFactor::Pow(g, _, c) => {
            let n1 = lemma_factor_prefix(toks, st, *g);
            let s1 = moved(toks, st, len_factor(*g));
            let s2 = moved(toks, s1, 1);
            assert(match_tok(toks, s1, TokenType::POWER, true) == (s2, true));
            lemma_comp(toks, s2, c);
            let r = parsed_tree(p_componente(toks, s2));
            lemma_moved(toks, st, len_factor(*g), 1);
            lemma_moved(toks, st, len_factor(*g) + 1, len_comp(c));
            binop(TokenType::POWER, n1, r, s2.cur)
        },
    }
}

#[verifier::spinoff_prover]
proof fn lemma_factor(toks: Seq<Token>, st: PState, f: GFactor)
    requires
        at_factor(toks, st.floats, st.pos as int, f),
        followed(toks, (st.pos + len_factor(f)) as int, 1),
    ensures
        parses_to(toks, st, p_factor(toks, st), len_factor(f), tree_factor(f)),
    decreases f, 1nat,
{
    let _ = lemma_factor_prefix(toks, st, f);
}

#[verifier::spinoff_prover]
proof fn lemma_term_prefix(toks: Seq<Token>, st: PState, t: GTerm) -> (n: TreeV)
    requires
        at_term(toks, st.floats, st.pos as int, t),
        followed(toks, (st.pos + len_term(t)) as int, 1),
    ensures
        strip(n) == tree_term(t),
        p_termino(toks, st) == p_term_loop(toks, moved(toks, st, len_term(t)), n),
    decreases t, 0nat,
{
    match t {
        GTerm::Factor(f) => {
            lemma_factor(toks, st, f);
            parsed_tree(p_factor(toks, st))
        },
        GTerm::Mul(g, op, f) => {
            let n1 = lemma_term_prefix(toks, st, *g);
            let s1 = moved(toks, st, len_term(*g));
            let s2 = moved(toks, s1, 1);
            assert(match_tok(toks, s1, op.token_type, true) == (s2, true));
            lemma_factor(toks, s2, f);
            let r = parsed_tree(p_factor(toks, s2));
            lemma_moved(toks, st, len_term(*g), 1);
            lemma_moved(toks, st, len_term(*g) + 1, len_factor(f));
            binop(op.token_type, n1, r, s2.cur)
        },
    }
}

#[verifier::spinoff_prover]
proof fn lemma_term(toks: Seq<Token>, st: PState, t: GTerm)
    requires
        at_term(toks, st.floats, st.pos as int, t),
        followed(toks, (st.pos + len_term(t)) as int, 2),
    ensures
        parses_to(toks, st, p_termino(toks, st), len_term(t), tree_term(t)),
    decreases t, 1nat,
{
    let _ = lemma_term_prefix(toks, st, t);
}

#[verifier::spinoff_prover]
proof fn lemma_simple_prefix(toks: Seq<Token>, st: PState, s: GSimple) -> (n: TreeV)
    requires
        at_simple(toks, st.floats, st.pos as int, s),
        followed(toks, (st.pos + len_simple(s)) as int, 2),
    ensures
        strip(n) == tree_simple(s),
        p_simple(toks, st) == p_simple_loop(toks, moved(toks, st, len_simple(s)), n),
    decreases s, 0nat,
{
    match s {
        GSimple::Term(t) => {
            lemma_term(toks, st, t);
            parsed_tree(p_termino(toks, st))
        },
        GSimple::Add(g, op, t) => {
            let n1 = lemma_simple_prefix(toks, st, *g);
            let s1 = moved(toks, st, len_simple(*g));
            let s2 = moved(toks, s1, 1);
            assert(match_tok(toks, s1, op.token_type, true) == (s2, true));
            lemma_term(toks, s2, t);
            let r = parsed_tree(p_termino(toks, s2));
            lemma_moved(toks, st, len_simple(*g), 1);
            lemma_moved(toks, st, len_simple(*g) + 1, len_term(t));
            binop(op.token_type, n1, r, s2.cur)
        },
    }
}

#[verifier::spinoff_prover]
proof fn lemma_simple(toks: Seq<Token>, st: PState, s: GSimple)
    requires
        at_simple(toks, st.floats, st.pos as int, s),
        followed(toks, (st.pos + len_simple(s)) as int, 3),
    ensures
        parses_to(toks, st, p_simple(toks, st), len_simple(s), tree_simple(s)),
    decreases s, 1nat,
{
    let _ = lemma_simple_prefix(toks, st, s);
}

#[verifier::spinoff_prover]
proof fn lemma_strip_binop(op: TokenType, l: TreeV, r: TreeV, cursor: Option<Cursor>)
    ensures
        strip(binop(op, l, r, cursor)) == gbin(op, strip(l), strip(r)),
{
}

#[verifier::spinoff_prover]
proof fn lemma_rel(toks: Seq<Token>, st: PState, r: GRel)
    requires
        at_rel(toks, st.floats, st.pos as int, r),
        followed(toks, (st.pos + len_rel(r)) as int, 4),
    ensures
        parses_to(toks, st, p_rel(toks, st), len_rel(r), tree_rel(r)),
    decreases r, 0nat,
{
    match r {
        GRel::Single(x) => {
            let s1 = moved(toks, st, len_simple(x));
            lemma_simple(toks, st, x);
            step_rel_single(toks, st, s1, parsed_tree(p_simple(toks, st)));
        },
        GRel::Relation(x, op, y) => {
            let s1 = moved(toks, st, len_simple(x));
            lemma_simple(toks, st, x);
            let node = parsed_tree(p_simple(toks, st));
            let s2 = moved(toks, s1, 1);
            assert(advance(toks, s1) == s2);
            lemma_simple(toks, s2, y);
            let rn = parsed_tree(p_simple(toks, s2));
            let s3 = moved(toks, s2, len_simple(y));
            lemma_moved(toks, st, len_simple(x), 1);
            lemma_moved(toks, st, len_simple(x) + 1, len_simple(y));
            step_rel_pair(toks, st, s1, node, op.token_type, s3, rn);
            lemma_strip_binop(op.token_type, node, rn, s2.cur);
        },
    }
}

#[verifier::spinoff_prover]
proof fn lemma_not(toks: Seq<Token>, st: PState, n: GNot)
    requires
        at_not(toks, st.floats, st.pos as int, n),
        followed(toks, (st.pos + len_not(n)) as int, 4),
    ensures
        parses_to(toks, st, p_not(toks, st), len_not(n), tree_not(n)),
    decreases n, 0nat,
{
    match n {
        GNot::Neg(_, r) => {
            let s1 = moved(toks, st, 1);
            assert(match_tok(toks, st, TokenType::NEG, true) == (s1, true));
            lemma_rel(toks, s1, r);
            lemma_moved(toks, st, 1, len_rel(r));
        },
        GNot::Pos(r) => {
            match r {
                GRel::Single(x) => lemma_first_simple(toks, st.floats, st.pos as int, x),
                GRel::Relation(x, _, _) => lemma_first_simple(toks, st.floats, st.pos as int, x),
            }
            lemma_rel(toks, st, r);
        },
    }
}

#[verifier::spinoff_prover]
proof fn lemma_and(toks: Seq<Token>, st: PState, a: GAnd)
    requires
        at_and(toks, st.floats, st.pos as int, a),
        followed(toks, (st.pos + len_and(a)) as int, 5),
    ensures
        parses_to(toks, st, p_and(toks, st), len_and(a), tree_and(a)),
    decreases a, 0nat,
{
    match a {
        GAnd::Single(x) => {
            let s1 = moved(toks, st, len_not(x));
            lemma_not(toks, st, x);
            step_and_single(toks, st, s1, parsed_tree(p_not(toks, st)));
        },
        GAnd::And(x, _, y) => {
            let s1 = moved(toks, st, len_not(x));
            lemma_not(toks, st, x);
            let node = parsed_tree(p_not(toks, st));
            let s2 = moved(toks, s1, 1);
            assert(advance(toks, s1) == s2);
            lemma_not(toks, s2, y);
            let rn = parsed_tree(p_not(toks, s2));
            let s3 = moved(toks, s2, len_not(y));
            lemma_moved(toks, st, len_not(x), 1);
            lemma_moved(toks, st, len_not(x) + 1, len_not(y));
            step_and(toks, st, s1, node, s3, rn);
            lemma_strip_binop(TokenType::AND, node, rn, s2.cur);
        },
    }
}

#[verifier::spinoff_prover]
proof fn lemma_expr(toks: Seq<Token>, st: PState, e: GExpr)
    requires
        at_expr(toks, st.floats, st.pos as int, e),
        followed(toks, (st.pos + len_expr(e)) as int, 6),
    ensures
        parses_to(toks, st, p_expresion(toks, st), len_expr(e), tree_expr(e)),
    decreases e, 0nat,
{
    match e {
        GExpr::Single(x) => {
            let s1 = moved(toks, st, len_and(x));
            lemma_and(toks, st, x);
            step_or_single(toks, st, s1, parsed_tree(p_and(toks, st)));
        },
        GExpr::Or(x, _, y) => {
            let s1 = moved(toks, st, len_and(x));
            lemma_and(toks, st, x);
            let node = parsed_tree(p_and(toks, st));
            let s2 = moved(toks, s1, 1);
            assert(advance(toks, s1) == s2);
            lemma_and(toks, s2, y);
            let rn = parsed_tree(p_and(toks, s2));
            let s3 = moved(toks, s2, len_and(y));
            lemma_moved(toks, st, len_and(x), 1);
            lemma_moved(toks, st, len_and(x) + 1, len_and(y));
            step_or(toks, st, s1, node, s3, rn);
            lemma_strip_binop(TokenType::OR, node, rn, s2.cur);
        },
    }
}

/// Every expression that the grammar derives is read whole by the parser:
/// started on its first token, where the token after it may end an
/// expression (`;`, `)` or `{`), the parser consumes exactly its tokens,
/// records no error and builds the tree that the derivation denotes (but
/// for positions), each binary operator associating to the left.
pub proof fn lemma_parse_expression(toks: Seq<Token>, st: PState, e: GExpr)
    requires
        at_expr(toks, st.floats, st.pos as int, e),
        followed(toks, (st.pos + len_expr(e)) as int, 6),
    ensures
        parses_to(toks, st, p_expresion(toks, st), len_expr(e), tree_expr(e)),
{
    lemma_expr(toks, st, e);
}

} // verus!
