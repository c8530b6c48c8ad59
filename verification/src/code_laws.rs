//! Every tree the parser builds, analyzed or not, holds only operators that
//! the code generator has code for: the generator never meets one it would
//! stop on.

use vstd::prelude::*;
use crate::analyze_model::{analysis, erase, erase_node, lemma_analysis_shape, FloatOps};
use crate::codegen::{gen_ok, node_gen_ok, op_has_code};
use crate::parse_model::{append_opt, append_tree, binop, boxed, decl, exp, left, step_assign, step_op, stmt, match_tok, p_and, p_componente, p_decl_loop, p_declaracion, p_declaracion_variable, p_expresion, p_factor, p_factor_loop, p_ident_rest, p_incremento, p_iteracion, p_lista_sentencias, p_not, p_programa, p_rel, p_repeticion, p_asignacion, p_seleccion, p_sent_expresion, p_sent_in, p_sent_loop, p_sent_out, p_sentencia, p_simple, p_simple_loop, p_term_loop, p_termino, peek, peek_is, spec_parse, PState, Parsed};
use crate::structures::{DeclV, ExpType, ExpV, NodeV, StmtV, TreeV};
use crate::token::{Cursor, Token, TokenType};

verus! {

/// Every operator node of the list has code, whether or not its value is
/// known before run time.
#[verifier::opaque]
pub open spec fn ops_ok(t: TreeV) -> bool
    decreases t,
{
    &&& node_ops_ok(t.node)
    &&& (t.sibling matches Some(s) ==> ops_ok(*s))
}

#[verifier::opaque]
pub open spec fn node_ops_ok(n: NodeV) -> bool
    decreases n,
{
    match n {
        NodeV::Stmt { kind, .. } => match kind {
            StmtV::If { condition, then_branch, else_branch } => {
                &&& ops_ok(*condition)
                &&& (then_branch matches Some(b) ==> ops_ok(*b))
                &&& (else_branch matches Some(b) ==> ops_ok(*b))
            },
            StmtV::While { condition, body } => {
                &&& ops_ok(*condition)
                &&& (body matches Some(b) ==> ops_ok(*b))
            },
            StmtV::Do { body, condition } => {
                &&& (body matches Some(b) ==> ops_ok(*b))
                &&& ops_ok(*condition)
            },
            StmtV::Assign { value, .. } => ops_ok(*value),
            StmtV::In { .. } => true,
            StmtV::Out { expression } => ops_ok(*expression),
        },
        NodeV::Exp { kind, .. } => match kind {
            ExpV::Op { op, left, right } => {
                &&& op_has_code(op)
                &&& ops_ok(*left)
                &&& (right matches Some(r) ==> ops_ok(*r))
            },
            _ => true,
        },
        NodeV::Decl { .. } => true,
    }
}

/// The parsed result holds only operators with code.
pub open spec fn parsed_ok(p: Parsed) -> bool {
    p matches Parsed::Done { tree: Some(t), .. } ==> ops_ok(t)
}

pub proof fn lemma_ops_ok_gen_ok(t: TreeV)
    requires
        ops_ok(t),
    ensures
        gen_ok(t),
    decreases t,
{
    reveal(ops_ok);
    reveal(node_ops_ok);
    lemma_node_ops_ok_gen_ok(t.node);
    if let Some(s) = t.sibling {
        lemma_ops_ok_gen_ok(*s);
    }
}

pub proof fn lemma_node_ops_ok_gen_ok(n: NodeV)
    requires
        node_ops_ok(n),
    ensures
        node_gen_ok(n),
    decreases n,
{
    reveal(ops_ok);
    reveal(node_ops_ok);
    match n {
        NodeV::Stmt { kind, .. } => match kind {
            StmtV::If { condition, then_branch, else_branch } => {
                lemma_ops_ok_gen_ok(*condition);
                if let Some(b) = then_branch {
                    lemma_ops_ok_gen_ok(*b);
                }
                if let Some(b) = else_branch {
                    lemma_ops_ok_gen_ok(*b);
                }
            },
            StmtV::While { condition, body } => {
                lemma_ops_ok_gen_ok(*condition);
                if let Some(b) = body {
                    lemma_ops_ok_gen_ok(*b);
                }
            },
            StmtV::Do { body, condition } => {
                lemma_ops_ok_gen_ok(*condition);
                if let Some(b) = body {
                    lemma_ops_ok_gen_ok(*b);
                }
            },
            StmtV::Assign { value, .. } => lemma_ops_ok_gen_ok(*value),
            StmtV::In { .. } => {},
            StmtV::Out { expression } => lemma_ops_ok_gen_ok(*expression),
        },
        NodeV::Exp { kind, .. } => match kind {
            ExpV::Op { left, right, .. } => {
                lemma_ops_ok_gen_ok(*left);
                if let Some(r) = right {
                    lemma_ops_ok_gen_ok(*r);
                }
            },
            _ => {},
        },
        NodeV::Decl { .. } => {},
    }
}

/// Whether the operators have code does not depend on the types and values.
pub proof fn lemma_ops_ok_erase(t: TreeV)
    ensures
        ops_ok(erase(t)) == ops_ok(t),
    decreases t,
{
    reveal(ops_ok);
    reveal(node_ops_ok);
    lemma_node_ops_ok_erase(t.node);
    if let Some(s) = t.sibling {
        lemma_ops_ok_erase(*s);
    }
}

pub proof fn lemma_node_ops_ok_erase(n: NodeV)
    ensures
        node_ops_ok(erase_node(n)) == node_ops_ok(n),
    decreases n,
{
    reveal(ops_ok);
    reveal(node_ops_ok);
    match n {
        NodeV::Stmt { kind, .. } => match kind {
            StmtV::If { condition, then_branch, else_branch } => {
                lemma_ops_ok_erase(*condition);
                if let Some(b) = then_branch {
                    lemma_ops_ok_erase(*b);
                }
                if let Some(b) = else_branch {
                    lemma_ops_ok_erase(*b);
                }
            },
            StmtV::While { condition, body } => {
                lemma_ops_ok_erase(*condition);
                if let Some(b) = body {
                    lemma_ops_ok_erase(*b);
                }
            },
            StmtV::Do { body, condition } => {
                lemma_ops_ok_erase(*condition);
                if let Some(b) = body {
                    lemma_ops_ok_erase(*b);
                }
            },
            StmtV::Assign { value, .. } => lemma_ops_ok_erase(*value),
            StmtV::In { .. } => {},
            StmtV::Out { expression } => lemma_ops_ok_erase(*expression),
        },
        NodeV::Exp { kind, .. } => match kind {
            ExpV::Op { left, right, .. } => {
                lemma_ops_ok_erase(*left);
                if let Some(r) = right {
                    lemma_ops_ok_erase(*r);
                }
            },
            _ => {},
        },
        NodeV::Decl { .. } => {},
    }
}

pub proof fn lemma_append_ops_ok(a: TreeV, b: TreeV)
    requires
        ops_ok(a),
        ops_ok(b),
    ensures
        ops_ok(append_tree(a, b)),
    decreases a,
{
    reveal(ops_ok);
    reveal(node_ops_ok);
    if let Some(s) = a.sibling {
        lemma_append_ops_ok(*s, b);
    }
}

pub proof fn lemma_binop_ops(op: TokenType, l: TreeV, r: TreeV, c: Option<Cursor>)
    requires
        op_has_code(op),
        ops_ok(l),
        ops_ok(r),
    ensures
        ops_ok(binop(op, l, r, c)),
{
    reveal(ops_ok);
    reveal(node_ops_ok);
    let n = NodeV::Exp { kind: ExpV::Op { op, left: Box::new(l), right: Some(Box::new(r)) }, typ: ExpType::Void, cursor: c, val: None };
    assert(binop(op, l, r, c) == TreeV { sibling: None, node: n });
    assert(node_ops_ok(n));
    assert(ops_ok(TreeV { sibling: None, node: n }));
}

pub proof fn lemma_neg_ops(l: TreeV, c: Option<Cursor>)
    requires
        ops_ok(l),
    ensures
        ops_ok(exp(ExpV::Op { op: TokenType::NEG, left: Box::new(l), right: None }, c)),
{
    reveal(ops_ok);
    reveal(node_ops_ok);
    let n = NodeV::Exp { kind: ExpV::Op { op: TokenType::NEG, left: Box::new(l), right: None }, typ: ExpType::Void, cursor: c, val: None };
    assert(exp(ExpV::Op { op: TokenType::NEG, left: Box::new(l), right: None }, c) == TreeV { sibling: None, node: n });
    assert(node_ops_ok(n));
    assert(ops_ok(TreeV { sibling: None, node: n }));
}

pub proof fn lemma_exp_ops(kind: ExpV, c: Option<Cursor>)
    requires
        !(kind is Op),
    ensures
        ops_ok(exp(kind, c)),
{
    reveal(ops_ok);
    reveal(node_ops_ok);
    let n = NodeV::Exp { kind, typ: ExpType::Void, cursor: c, val: None };
    assert(exp(kind, c) == TreeV { sibling: None, node: n });
    assert(node_ops_ok(n));
    assert(ops_ok(TreeV { sibling: None, node: n }));
}

pub proof fn lemma_if_ops(cond: TreeV, th: Option<TreeV>, el: Option<TreeV>, c: Option<Cursor>)
    requires
        ops_ok(cond),
        th matches Some(t) ==> ops_ok(t),
        el matches Some(t) ==> ops_ok(t),
    ensures
        ops_ok(stmt(StmtV::If { condition: Box::new(cond), then_branch: boxed(th), else_branch: boxed(el) }, c)),
{
    reveal(ops_ok);
    reveal(node_ops_ok);
    let n = NodeV::Stmt { kind: StmtV::If { condition: Box::new(cond), then_branch: boxed(th), else_branch: boxed(el) }, cursor: c };
    assert(stmt(StmtV::If { condition: Box::new(cond), then_branch: boxed(th), else_branch: boxed(el) }, c) == TreeV { sibling: None, node: n });
    assert(node_ops_ok(n));
    assert(ops_ok(TreeV { sibling: None, node: n }));
}

pub proof fn lemma_while_ops(cond: TreeV, body: Option<TreeV>, c: Option<Cursor>)
    requires
        ops_ok(cond),
        body matches Some(t) ==> ops_ok(t),
    ensures
        ops_ok(stmt(StmtV::While { condition: Box::new(cond), body: boxed(body) }, c)),
{
    reveal(ops_ok);
    reveal(node_ops_ok);
    let n = NodeV::Stmt { kind: StmtV::While { condition: Box::new(cond), body: boxed(body) }, cursor: c };
    assert(stmt(StmtV::While { condition: Box::new(cond), body: boxed(body) }, c) == TreeV { sibling: None, node: n });
    assert(node_ops_ok(n));
    assert(ops_ok(TreeV { sibling: None, node: n }));
}

pub proof fn lemma_do_ops(body: Option<TreeV>, cond: TreeV, c: Option<Cursor>)
    requires
        ops_ok(cond),
        body matches Some(t) ==> ops_ok(t),
    ensures
        ops_ok(stmt(StmtV::Do { body: boxed(body), condition: Box::new(cond) }, c)),
{
    reveal(ops_ok);
    reveal(node_ops_ok);
    let n = NodeV::Stmt { kind: StmtV::Do { body: boxed(body), condition: Box::new(cond) }, cursor: c };
    assert(stmt(StmtV::Do { body: boxed(body), condition: Box::new(cond) }, c) == TreeV { sibling: None, node: n });
    assert(node_ops_ok(n));
    assert(ops_ok(TreeV { sibling: None, node: n }));
}

pub proof fn lemma_assign_ops(name: Seq<char>, v: TreeV, c: Option<Cursor>)
    requires
        ops_ok(v),
    ensures
        ops_ok(stmt(StmtV::Assign { name, value: Box::new(v) }, c)),
{
    reveal(ops_ok);
    reveal(node_ops_ok);
    let n = NodeV::Stmt { kind: StmtV::Assign { name, value: Box::new(v) }, cursor: c };
    assert(stmt(StmtV::Assign { name, value: Box::new(v) }, c) == TreeV { sibling: None, node: n });
    assert(node_ops_ok(n));
    assert(ops_ok(TreeV { sibling: None, node: n }));
}

pub proof fn lemma_out_ops(e: TreeV, c: Option<Cursor>)
    requires
        ops_ok(e),
    ensures
        ops_ok(stmt(StmtV::Out { expression: Box::new(e) }, c)),
{
    reveal(ops_ok);
    reveal(node_ops_ok);
    let n = NodeV::Stmt { kind: StmtV::Out { expression: Box::new(e) }, cursor: c };
    assert(stmt(StmtV::Out { expression: Box::new(e) }, c) == TreeV { sibling: None, node: n });
    assert(node_ops_ok(n));
    assert(ops_ok(TreeV { sibling: None, node: n }));
}

pub proof fn lemma_in_ops(name: Seq<char>, c: Option<Cursor>)
    ensures
        ops_ok(stmt(StmtV::In { name }, c)),
{
    reveal(ops_ok);
    reveal(node_ops_ok);
    let n = NodeV::Stmt { kind: StmtV::In { name }, cursor: c };
    assert(stmt(StmtV::In { name }, c) == TreeV { sibling: None, node: n });
    assert(node_ops_ok(n));
    assert(ops_ok(TreeV { sibling: None, node: n }));
}

pub proof fn lemma_step_assign_ops(name: Seq<char>, tt: TokenType, c: Option<Cursor>)
    ensures
        ops_ok(step_assign(name, step_op(tt), c)),
{
    lemma_exp_ops(ExpV::Id { name }, c);
    lemma_exp_ops(ExpV::Const { value: 1 }, None);
    lemma_binop_ops(step_op(tt), exp(ExpV::Id { name }, c), exp(ExpV::Const { value: 1 }, None), c);
    lemma_assign_ops(name, binop(step_op(tt), exp(ExpV::Id { name }, c), exp(ExpV::Const { value: 1 }, None), c), c);
}

pub proof fn lemma_decl_ops(typ: ExpType, name: Seq<char>, c: Option<Cursor>, rest: Option<Box<TreeV>>)
    requires
        rest matches Some(b) ==> ops_ok(*b),
    ensures
        ops_ok(decl(typ, name, c, rest)),
{
    reveal(ops_ok);
    reveal(node_ops_ok);
    let n = NodeV::Decl { kind: DeclV::Var { typ, name }, cursor: c };
    assert(decl(typ, name, c, rest) == TreeV { sibling: rest, node: n });
    assert(node_ops_ok(n));
    assert(ops_ok(TreeV { sibling: rest, node: n }));
}

// ---------------------------------------------------------------------------
// Expressions

// ---------------------------------------------------------------------------

pub proof fn lemma_expresion_ops(toks: Seq<Token>, st: PState)
    ensures
        parsed_ok(p_expresion(toks, st)),
    decreases left(toks, st), 12nat,
{
    lemma_and_ops(toks, st);
    if let Parsed::Done { st: st1, tree: Some(node) } = p_and(toks, st) {
        if peek_is(toks, st1, TokenType::OR) {
            let st2 = match_tok(toks, st1, TokenType::OR, true).0;
            let cursor = st2.cur;
            if left(toks, st2) < left(toks, st) {
                lemma_and_ops(toks, st2);
                if let Parsed::Done { tree: Some(r), .. } = p_and(toks, st2) {
                    lemma_binop_ops(TokenType::OR, node, r, cursor);
                }
            }
        }
    }
}

pub proof fn lemma_and_ops(toks: Seq<Token>, st: PState)
    ensures
        parsed_ok(p_and(toks, st)),
    decreases left(toks, st), 11nat,
{
    lemma_not_ops(toks, st);
    if let Parsed::Done { st: st1, tree: Some(node) } = p_not(toks, st) {
        if peek_is(toks, st1, TokenType::AND) {
            let st2 = match_tok(toks, st1, TokenType::AND, true).0;
            let cursor = st2.cur;
            if left(toks, st2) < left(toks, st) {
                lemma_not_ops(toks, st2);
                if let Parsed::Done { tree: Some(r), .. } = p_not(toks, st2) {
                    lemma_binop_ops(TokenType::AND, node, r, cursor);
                }
            }
        }
    }
}

pub proof fn lemma_not_ops(toks: Seq<Token>, st: PState)
    ensures
        parsed_ok(p_not(toks, st)),
    decreases left(toks, st), 10nat,
{
    if let Some(t) = peek(toks, st) {
        if t.token_type == TokenType::NEG {
            let st1 = match_tok(toks, st, TokenType::NEG, true).0;
            let cursor = st1.cur;
            lemma_rel_ops(toks, st1);
            if let Parsed::Done { tree: Some(l), .. } = p_rel(toks, st1) {
                lemma_neg_ops(l, cursor);
            }
        } else {
            lemma_rel_ops(toks, st);
        }
    }
}

pub proof fn lemma_rel_ops(toks: Seq<Token>, st: PState)
    ensures
        parsed_ok(p_rel(toks, st)),
    decreases left(toks, st), 9nat,
{
    lemma_simple_ops(toks, st);
    if let Parsed::Done { st: st1, tree: Some(node) } = p_simple(toks, st) {
        if let Some(t) = peek(toks, st1) {
            if crate::parse_model::is_rel_op(t.token_type) {
                let st2 = match_tok(toks, st1, t.token_type, true).0;
                let cursor = st2.cur;
                if left(toks, st2) < left(toks, st) {
                    lemma_simple_ops(toks, st2);
                    if let Parsed::Done { tree: Some(r), .. } = p_simple(toks, st2) {
                        lemma_binop_ops(t.token_type, node, r, cursor);
                    }
                }
            }
        }
    }
}

pub proof fn lemma_simple_ops(toks: Seq<Token>, st: PState)
    ensures
        parsed_ok(p_simple(toks, st)),
    decreases left(toks, st), 8nat,
{
    lemma_termino_ops(toks, st);
    if let Parsed::Done { st: st1, tree: Some(node) } = p_termino(toks, st) {
        if left(toks, st1) <= left(toks, st) {
            lemma_simple_loop_ops(toks, st1, node);
        }
    }
}

pub proof fn lemma_simple_loop_ops(toks: Seq<Token>, st: PState, node: TreeV)
    requires
        ops_ok(node),
    ensures
        parsed_ok(p_simple_loop(toks, st, node)),
    decreases left(toks, st), 7nat,
{
    if let Some(curr) = peek(toks, st) {
        let op = curr.token_type;
        if op == TokenType::SUM || op == TokenType::MIN {
            let st1 = match_tok(toks, st, op, true).0;
            let cursor = st1.cur;
            lemma_termino_ops(toks, st1);
            if let Parsed::Done { st: st2, tree: Some(r) } = p_termino(toks, st1) {
                if left(toks, st2) < left(toks, st) {
                    lemma_binop_ops(op, node, r, cursor);
                    lemma_simple_loop_ops(toks, st2, binop(op, node, r, cursor));
                }
            }
        } else if op == TokenType::INT || op == TokenType::FLOAT {
            let cursor = st.cur;
            lemma_termino_ops(toks, st);
            if let Parsed::Done { st: st2, tree: Some(r) } = p_termino(toks, st) {
                if left(toks, st2) < left(toks, st) {
                    lemma_binop_ops(TokenType::SUM, node, r, cursor);
                    lemma_simple_loop_ops(toks, st2, binop(TokenType::SUM, node, r, cursor));
                }
            }
        }
    }
}

pub proof fn lemma_termino_ops(toks: Seq<Token>, st: PState)
    ensures
        parsed_ok(p_termino(toks, st)),
    decreases left(toks, st), 6nat,
{
    lemma_factor_ops(toks, st);
    if let Parsed::Done { st: st1, tree: Some(node) } = p_factor(toks, st) {
        if left(toks, st1) <= left(toks, st) {
            lemma_term_loop_ops(toks, st1, node);
        }
    }
}

pub proof fn lemma_term_loop_ops(toks: Seq<Token>, st: PState, node: TreeV)
    requires
        ops_ok(node),
    ensures
        parsed_ok(p_term_loop(toks, st, node)),
    decreases left(toks, st), 5nat,
{
    if let Some(curr) = peek(toks, st) {
        let op = curr.token_type;
        if crate::parse_model::is_mult_op(op) {
            let st1 = match_tok(toks, st, op, true).0;
            let cursor = st1.cur;
            lemma_factor_ops(toks, st1);
            if let Parsed::Done { st: st2, tree: Some(r) } = p_factor(toks, st1) {
                if left(toks, st2) < left(toks, st) {
                    lemma_binop_ops(op, node, r, cursor);
                    lemma_term_loop_ops(toks, st2, binop(op, node, r, cursor));
                }
            }
        }
    }
}

pub proof fn lemma_factor_ops(toks: Seq<Token>, st: PState)
    ensures
        parsed_ok(p_factor(toks, st)),
    decreases left(toks, st), 4nat,
{
    lemma_componente_ops(toks, st);
    if let Parsed::Done { st: st1, tree: Some(node) } = p_componente(toks, st) {
        if left(toks, st1) <= left(toks, st) {
            lemma_factor_loop_ops(toks, st1, node);
        }
    }
}

pub proof fn lemma_factor_loop_ops(toks: Seq<Token>, st: PState, node: TreeV)
    requires
        ops_ok(node),
    ensures
        parsed_ok(p_factor_loop(toks, st, node)),
    decreases left(toks, st), 3nat,
{
    if let Some(curr) = peek(toks, st) {
        if curr.token_type == TokenType::POWER {
            let st1 = match_tok(toks, st, TokenType::POWER, true).0;
            let cursor = st1.cur;
            lemma_componente_ops(toks, st1);
            if let Parsed::Done { st: st2, tree: Some(r) } = p_componente(toks, st1) {
                if left(toks, st2) < left(toks, st) {
                    lemma_binop_ops(TokenType::POWER, node, r, cursor);
                    lemma_factor_loop_ops(toks, st2, binop(TokenType::POWER, node, r, cursor));
                }
            }
        }
    }
}

pub proof fn lemma_componente_ops(toks: Seq<Token>, st: PState)
    ensures
        parsed_ok(p_componente(toks, st)),
    decreases left(toks, st), 2nat,
{
    if let Some(token) = peek(toks, st) {
        let tt = token.token_type;
        if tt == TokenType::LPAR {
            let st1 = match_tok(toks, st, TokenType::LPAR, true).0;
            if left(toks, st1) < left(toks, st) {
                lemma_expresion_ops(toks, st1);
            }
        } else if tt == TokenType::INT {
            if let Some(value) = crate::text::spec_parse_i32(token.lexemme@) {
                let st1 = match_tok(toks, st, TokenType::INT, true).0;
                lemma_exp_ops(ExpV::Const { value }, st1.cur);
            }
        } else if tt == TokenType::FLOAT {
            if let Some(value) = crate::parse_model::float_at(st) {
                let st1 = match_tok(toks, st, TokenType::FLOAT, true).0;
                lemma_exp_ops(ExpV::ConstF { value }, st1.cur);
            }
        } else if tt == TokenType::ID {
            lemma_incremento_ops(toks, st);
        }
    }
}

pub proof fn lemma_incremento_ops(toks: Seq<Token>, st: PState)
    ensures
        parsed_ok(p_incremento(toks, st)),
{
    if st.pos < toks.len() {
        let name = toks[st.pos as int].lexemme@;
        let st1 = match_tok(toks, st, TokenType::ID, true).0;
        let cursor = st1.cur;
        if let Some(t) = peek(toks, st1) {
            if t.token_type == TokenType::INC || t.token_type == TokenType::DEC {
                let st2 = match_tok(toks, st1, t.token_type, true).0;
                let cursor2 = st2.cur;
                lemma_exp_ops(ExpV::Id { name }, cursor2);
                lemma_exp_ops(ExpV::Const { value: 1 }, None);
                lemma_binop_ops(step_op(t.token_type), exp(ExpV::Id { name }, cursor2), exp(ExpV::Const { value: 1 }, None), cursor);
            } else {
                lemma_exp_ops(ExpV::Id { name }, cursor);
            }
        }
    }
}

// ---------------------------------------------------------------------------
// Statements and declarations
// ---------------------------------------------------------------------------

pub proof fn lemma_ident_rest_ops(toks: Seq<Token>, st: PState, typ: ExpType)
    ensures
        p_ident_rest(toks, st, typ).1 matches Some(b) ==> ops_ok(*b),
    decreases left(toks, st),
{
    if peek_is(toks, st, TokenType::COMMA) {
        let st1 = match_tok(toks, st, TokenType::COMMA, true).0;
        let token_op = peek(toks, st1);
        let (st2, ok) = match_tok(toks, st1, TokenType::ID, true);
        if ok && token_op is Some {
            lemma_ident_rest_ops(toks, st2, typ);
            let rest = p_ident_rest(toks, st2, typ).1;
            lemma_decl_ops(typ, token_op.unwrap().lexemme@, st2.cur, rest);
        }
    }
}

pub proof fn lemma_declaracion_variable_ops(toks: Seq<Token>, st: PState)
    ensures
        parsed_ok(p_declaracion_variable(toks, st)),
{
    if let Some(t) = peek(toks, st) {
        let st1 = match_tok(toks, st, t.token_type, true).0;
        let typ = crate::parse_model::decl_type(t.token_type);
        if let Some(token) = peek(toks, st1) {
            let (st2, ok) = match_tok(toks, st1, TokenType::ID, true);
            if ok {
                lemma_ident_rest_ops(toks, st2, typ);
                let rest = p_ident_rest(toks, st2, typ).1;
                lemma_decl_ops(typ, token.lexemme@, st2.cur, rest);
            }
        }
    }
}

pub proof fn lemma_lista_sentencias_ops(toks: Seq<Token>, st: PState)
    ensures
        parsed_ok(p_lista_sentencias(toks, st)),
    decreases left(toks, st), 4nat,
{
    lemma_sent_loop_ops(toks, st, None);
}

pub proof fn lemma_sent_loop_ops(toks: Seq<Token>, st: PState, acc: Option<TreeV>)
    requires
        acc matches Some(a) ==> ops_ok(a),
    ensures
        parsed_ok(p_sent_loop(toks, st, acc)),
    decreases left(toks, st), 3nat,
{
    if st.pos < toks.len() {
        lemma_sentencia_ops(toks, st);
        if let Parsed::Done { st: st1, tree } = p_sentencia(toks, st) {
            let acc1 = match tree {
                Some(n) => append_opt(acc, n),
                None => acc,
            };
            if let Some(n) = tree {
                if let Some(a) = acc {
                    lemma_append_ops_ok(a, n);
                }
            }
            if left(toks, st1) < left(toks, st) {
                lemma_sent_loop_ops(toks, st1, acc1);
            }
        }
    }
}

pub proof fn lemma_sentencia_ops(toks: Seq<Token>, st: PState)
    ensures
        parsed_ok(p_sentencia(toks, st)),
    decreases left(toks, st), 2nat,
{
    if let Some(t) = peek(toks, st) {
        let tt = t.token_type;
        if tt == TokenType::IF {
            lemma_seleccion_ops(toks, st);
        } else if tt == TokenType::WHILE {
            lemma_iteracion_ops(toks, st);
        } else if tt == TokenType::DO {
            lemma_repeticion_ops(toks, st);
        } else if tt == TokenType::STDIN {
            lemma_sent_in_ops(toks, st);
        } else if tt == TokenType::STDOUT {
            lemma_sent_out_ops(toks, st);
        } else if tt == TokenType::ID {
            lemma_asignacion_ops(toks, st);
        } else if tt == TokenType::INTEGER || tt == TokenType::DOUBLE {
            lemma_declaracion_variable_ops(toks, st);
        }
    }
}

pub proof fn lemma_sent_in_ops(toks: Seq<Token>, st: PState)
    ensures
        parsed_ok(p_sent_in(toks, st)),
{
    let st1 = match_tok(toks, st, TokenType::STDIN, true).0;
    if let Some(t) = peek(toks, st1) {
        lemma_in_ops(t.lexemme@, st1.cur);
    }
}

pub proof fn lemma_sent_out_ops(toks: Seq<Token>, st: PState)
    ensures
        parsed_ok(p_sent_out(toks, st)),
{
    let st1 = match_tok(toks, st, TokenType::STDOUT, true).0;
    lemma_expresion_ops(toks, st1);
    if let Parsed::Done { tree: Some(e), .. } = p_expresion(toks, st1) {
        lemma_out_ops(e, st1.cur);
    }
}

pub proof fn lemma_asignacion_ops(toks: Seq<Token>, st: PState)
    ensures
        parsed_ok(p_asignacion(toks, st)),
{
    if let Some(token) = peek(toks, st) {
        let name = token.lexemme@;
        let (st1, matched) = match_tok(toks, st, TokenType::ID, false);
        if matched {
            let cursor = st1.cur;
            if let Some(t) = peek(toks, st1) {
                if t.token_type == TokenType::INC || t.token_type == TokenType::DEC {
                    lemma_step_assign_ops(name, t.token_type, cursor);
                } else {
                    let st2 = match_tok(toks, st1, TokenType::ASSIGN, false).0;
                    lemma_expresion_ops(toks, st2);
                    if let Parsed::Done { tree: Some(v), .. } = p_sent_expresion(toks, st2) {
                        lemma_assign_ops(name, v, cursor);
                    }
                }
            }
        }
    }
}

#[verifier::spinoff_prover]
#[verifier::rlimit(50)]
pub proof fn lemma_seleccion_ops(toks: Seq<Token>, st: PState)
    ensures
        parsed_ok(p_seleccion(toks, st)),
    decreases left(toks, st), 1nat,
{
    let (st0, matched) = match_tok(toks, st, TokenType::IF, false);
    if matched {
        let cursor = st0.cur;
        lemma_expresion_ops(toks, st0);
        if let Parsed::Done { st: st2, tree: Some(cond) } = p_expresion(toks, st0) {
            let (st3, ok) = match_tok(toks, st2, TokenType::LBRA, false);
            if ok && left(toks, st3) < left(toks, st) {
                lemma_lista_sentencias_ops(toks, st3);
                if let Parsed::Done { st: st4, tree: then_branch } = p_lista_sentencias(toks, st3) {
                    let (st5, ok2) = match_tok(toks, st4, TokenType::RBRA, false);
                    if ok2 {
                        if peek_is(toks, st5, TokenType::ELSE) {
                            let st6 = match_tok(toks, st5, TokenType::ELSE, true).0;
                            let (st7, ok3) = match_tok(toks, st6, TokenType::LBRA, false);
                            if ok3 && left(toks, st7) < left(toks, st) {
                                lemma_lista_sentencias_ops(toks, st7);
                                if let Parsed::Done { tree: else_branch, .. } = p_lista_sentencias(toks, st7) {
                                    lemma_if_ops(cond, then_branch, else_branch, cursor);
                                }
                            }
                        } else {
                            lemma_if_ops(cond, then_branch, None, cursor);
                        }
                    }
                }
            }
        }
    }
}

pub proof fn lemma_iteracion_ops(toks: Seq<Token>, st: PState)
    ensures
        parsed_ok(p_iteracion(toks, st)),
    decreases left(toks, st), 1nat,
{
    let (st0, matched) = match_tok(toks, st, TokenType::WHILE, false);
    if matched {
        let cursor = st0.cur;
        lemma_expresion_ops(toks, st0);
        if let Parsed::Done { st: st2, tree: Some(cond) } = p_expresion(toks, st0) {
            let (st3, ok) = match_tok(toks, st2, TokenType::LBRA, false);
            if ok && left(toks, st3) < left(toks, st) {
                lemma_lista_sentencias_ops(toks, st3);
                if let Parsed::Done { tree: body, .. } = p_lista_sentencias(toks, st3) {
                    lemma_while_ops(cond, body, cursor);
                }
            }
        }
    }
}

pub proof fn lemma_repeticion_ops(toks: Seq<Token>, st: PState)
    ensures
        parsed_ok(p_repeticion(toks, st)),
    decreases left(toks, st), 1nat,
{
    let (st0, matched) = match_tok(toks, st, TokenType::DO, false);
    if matched {
        let cursor = st0.cur;
        let (st2, ok) = match_tok(toks, st0, TokenType::LBRA, false);
        if ok && left(toks, st2) < left(toks, st) {
            lemma_lista_sentencias_ops(toks, st2);
            if let Parsed::Done { st: st3, tree: body } = p_lista_sentencias(toks, st2) {
                let (st4, ok2) = match_tok(toks, st3, TokenType::RBRA, false);
                if ok2 {
                    let (st5, ok3) = match_tok(toks, st4, TokenType::WHILE, false);
                    if ok3 {
                        lemma_expresion_ops(toks, st5);
                        if let Parsed::Done { tree: Some(cond), .. } = p_expresion(toks, st5) {
                            lemma_do_ops(body, cond, cursor);
                        }
                    }
                }
            }
        }
    }
}

pub proof fn lemma_declaracion_ops(toks: Seq<Token>, st: PState)
    ensures
        parsed_ok(p_declaracion(toks, st)),
{
    if let Some(t) = peek(toks, st) {
        if t.token_type == TokenType::INTEGER || t.token_type == TokenType::DOUBLE {
            lemma_declaracion_variable_ops(toks, st);
        } else {
            lemma_lista_sentencias_ops(toks, st);
        }
    }
}

pub proof fn lemma_decl_loop_ops(toks: Seq<Token>, st: PState, acc: TreeV)
    requires
        ops_ok(acc),
    ensures
        parsed_ok(p_decl_loop(toks, st, acc)),
    decreases left(toks, st),
{
    lemma_declaracion_ops(toks, st);
    if let Parsed::Done { st: st1, tree: Some(q) } = p_declaracion(toks, st) {
        lemma_append_ops_ok(acc, q);
        if left(toks, st1) < left(toks, st) {
            lemma_decl_loop_ops(toks, st1, append_tree(acc, q));
        }
    }
}

pub proof fn lemma_programa_ops(toks: Seq<Token>, st: PState)
    ensures
        parsed_ok(p_programa(toks, st)),
{
    let st1 = match_tok(toks, st, TokenType::MAIN, true).0;
    let st2 = match_tok(toks, st1, TokenType::LBRA, true).0;
    lemma_declaracion_ops(toks, st2);
    if let Parsed::Done { st: st3, tree: Some(t) } = p_declaracion(toks, st2) {
        lemma_decl_loop_ops(toks, st3, t);
    }
}

/// The code generator has code for every operator of a program the parser
/// built, before and after the analysis: it never stops on an operator it
/// does not know.
pub proof fn lemma_parsed_programs_have_code(toks: Seq<Token>, floats: Seq<Option<Seq<char>>>, fl: FloatOps)
    ensures
        spec_parse(toks, floats) matches Parsed::Done { tree: Some(t), .. } ==> {
            &&& gen_ok(t)
            &&& (analysis(t, seq![], seq![], fl) matches Some((t3, _, _)) ==> gen_ok(t3))
        },
{
    lemma_programa_ops(toks, crate::parse_model::initial_state(toks, floats));
    if let Parsed::Done { tree: Some(t), .. } = spec_parse(toks, floats) {
        lemma_ops_ok_gen_ok(t);
        lemma_analysis_shape(t, seq![], seq![], fl);
        if let Some((t3, _, _)) = analysis(t, seq![], seq![], fl) {
            lemma_ops_ok_erase(t);
            lemma_ops_ok_erase(t3);
            lemma_ops_ok_gen_ok(t3);
        }
    }
}

} // verus!
