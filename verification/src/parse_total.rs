//! The parser stops the program on no token list that ends in `}` and whose
//! number literals all read as values: on such a list every step of the
//! model finishes (`Parsed::Done`), whatever the tokens before the `}`.
//!
//! Inside an expression the parser consumes only operators, literals,
//! names and parentheses, never a `}`; so once it has started on a token of
//! such a list, the last `}` is still ahead, and every look at the next
//! token finds one.

use vstd::prelude::*;
use crate::parse_laws::{
    moves_forward, lemma_and_forward, lemma_componente_forward, lemma_expresion_forward, lemma_factor_forward,
    lemma_lista_sentencias_forward, lemma_not_forward, lemma_simple_forward, lemma_termino_forward,
    lemma_termino_on_number, lemma_declaracion_forward,
};
use crate::parse_model::{
    advance_until, bad_component_msg, binop, decl_type, done, exp, float_at, has_sign, is_mult_op, is_rel_op, step_op, left, match_tok, p_and, p_asignacion, p_componente, p_decl_loop, p_declaracion,
    p_declaracion_variable, p_expresion, p_factor, p_factor_loop, p_ident_rest, p_incremento, p_iteracion,
    p_lista_declaracion, p_lista_sentencias, p_not, p_programa, p_rel, p_repeticion, p_seleccion, p_sent_expresion,
    p_sent_in, p_sent_loop, p_sent_out, p_sentencia, p_simple, p_simple_loop, p_term_loop, p_termino, peek, peek_is,
    perr, push_err, skip_if, skip_to, spec_parse, initial_state, append_opt, append_tree, PState, Parsed,
};
use crate::structures::{ExpType, ExpV, TreeV};
use crate::text::spec_parse_i32;
use crate::token::{Token, TokenType};

verus! {

/// The last token is a `}`.
pub open spec fn ends_in_rbra(toks: Seq<Token>) -> bool {
    toks.len() > 0 && toks[toks.len() - 1].token_type == TokenType::RBRA
}

/// Every integer literal reads as an `i32`, and every float literal has its
/// value in `floats`.
pub open spec fn literals_read(toks: Seq<Token>, floats: Seq<Option<Seq<char>>>) -> bool {
    &&& forall|i: int| 0 <= i < toks.len() && (#[trigger] toks[i]).token_type == TokenType::INT
        ==> spec_parse_i32(toks[i].lexemme@) is Some
    &&& forall|i: int| 0 <= i < toks.len() && (#[trigger] toks[i]).token_type == TokenType::FLOAT
        ==> i < floats.len() && floats[i] is Some
}

/// A state of the parser on such a list.
pub open spec fn good(toks: Seq<Token>, st: PState) -> bool {
    &&& ends_in_rbra(toks)
    &&& literals_read(toks, st.floats)
    &&& st.pos <= toks.len()
}

/// The step finished, in a state on the same list.
pub open spec fn finishes(toks: Seq<Token>, st: PState, p: Parsed) -> bool {
    p matches Parsed::Done { st: s1, .. } && s1.floats == st.floats && s1.pos <= toks.len()
}

/// The step finished, and, where it started on a token, did not consume
/// the last one; where no token was left, it read nothing.
pub open spec fn finishes_inside(toks: Seq<Token>, st: PState, p: Parsed) -> bool {
    &&& finishes(toks, st, p)
    &&& st.pos < toks.len() ==> p->st.pos < toks.len()
    &&& st.pos >= toks.len() ==> p->tree is None
}

proof fn lemma_skip(toks: Seq<Token>, st: PState, tt: TokenType)
    requires
        st.pos <= toks.len(),
    ensures
        advance_until(toks, st, tt).0.floats == st.floats,
        advance_until(toks, st, tt).0.pos <= toks.len(),
    decreases left(toks, st),
{
    if st.pos < toks.len() && toks[st.pos as int].token_type != tt {
        lemma_skip(toks, crate::parse_model::advance(toks, st), tt);
    }
}

proof fn lemma_skip_if_keeps(toks: Seq<Token>, st: PState)
    requires
        st.pos <= toks.len(),
    ensures
        skip_if(toks, st).floats == st.floats,
        skip_if(toks, st).pos <= toks.len(),
{
    lemma_skip(toks, st, TokenType::RBRA);
    lemma_skip(toks, skip_to(toks, st, TokenType::RBRA), TokenType::RBRA);
}

// ---------------------------------------------------------------------------
// Expressions
// ---------------------------------------------------------------------------

/// `p_expresion`, kept folded where only what it gives is used.
#[verifier::opaque]
spec fn w_expresion(toks: Seq<Token>, st: PState) -> Parsed {
    p_expresion(toks, st)
}

/// One step of `p_expresion`, over the folded steps it calls.
spec fn b_expresion(toks: Seq<Token>, st: PState) -> Parsed {
    match w_and(toks, st) {
        Parsed::Crash => Parsed::Crash,
        Parsed::Done { st: st1, tree } => match tree {
            None => done(st1, None),
            Some(node) => if peek_is(toks, st1, TokenType::OR) {
                let (st2, _) = match_tok(toks, st1, TokenType::OR, true);
                let cursor = st2.cur;
                if left(toks, st2) >= left(toks, st) {
                    Parsed::Crash
                } else {
                    match w_and(toks, st2) {
                        Parsed::Crash => Parsed::Crash,
                        Parsed::Done { st: st3, tree: right } => match right {
                            None => done(st3, None),
                            Some(r) => done(st3, Some(binop(TokenType::OR, node, r, cursor))),
                        },
                    }
                }
            } else {
                done(st1, Some(node))
            },
        },
    }
}

#[verifier::spinoff_prover]
proof fn lemma_unfold_expresion(toks: Seq<Token>, st: PState)
    ensures
        w_expresion(toks, st) == b_expresion(toks, st),
{
    reveal(w_expresion);
    reveal(w_and);
}

/// `p_and`, kept folded where only what it gives is used.
#[verifier::opaque]
spec fn w_and(toks: Seq<Token>, st: PState) -> Parsed {
    p_and(toks, st)
}

/// One step of `p_and`, over the folded steps it calls.
spec fn b_and(toks: Seq<Token>, st: PState) -> Parsed {
    match w_not(toks, st) {
        Parsed::Crash => Parsed::Crash,
        Parsed::Done { st: st1, tree } => match tree {
            None => done(st1, None),
            Some(node) => if peek_is(toks, st1, TokenType::AND) {
                let (st2, _) = match_tok(toks, st1, TokenType::AND, true);
                let cursor = st2.cur;
                if left(toks, st2) >= left(toks, st) {
                    Parsed::Crash
                } else {
                    match w_not(toks, st2) {
                        Parsed::Crash => Parsed::Crash,
                        Parsed::Done { st: st3, tree: right } => match right {
                            None => done(st3, None),
                            Some(r) => done(st3, Some(binop(TokenType::AND, node, r, cursor))),
                        },
                    }
                }
            } else {
                done(st1, Some(node))
            },
        },
    }
}

#[verifier::spinoff_prover]
proof fn lemma_unfold_and(toks: Seq<Token>, st: PState)
    ensures
        w_and(toks, st) == b_and(toks, st),
{
    reveal(w_and);
    reveal(w_not);
}

/// `p_not`, kept folded where only what it gives is used.
#[verifier::opaque]
spec fn w_not(toks: Seq<Token>, st: PState) -> Parsed {
    p_not(toks, st)
}

/// One step of `p_not`, over the folded steps it calls.
spec fn b_not(toks: Seq<Token>, st: PState) -> Parsed {
    match peek(toks, st) {
        None => done(st, None),
        Some(t) => if t.token_type == TokenType::NEG {
            let (st1, _) = match_tok(toks, st, TokenType::NEG, true);
            let cursor = st1.cur;
            match w_rel(toks, st1) {
                Parsed::Crash => Parsed::Crash,
                Parsed::Done { st: st2, tree } => match tree {
                    None => done(st2, None),
                    Some(l) => done(st2, Some(exp(ExpV::Op { op: TokenType::NEG, left: Box::new(l), right: None }, cursor))),
                },
            }
        } else {
            w_rel(toks, st)
        },
    }
}

#[verifier::spinoff_prover]
proof fn lemma_unfold_not(toks: Seq<Token>, st: PState)
    ensures
        w_not(toks, st) == b_not(toks, st),
{
    reveal(w_not);
    reveal(w_rel);
}

/// `p_rel`, kept folded where only what it gives is used.
#[verifier::opaque]
spec fn w_rel(toks: Seq<Token>, st: PState) -> Parsed {
    p_rel(toks, st)
}

/// One step of `p_rel`, over the folded steps it calls.
spec fn b_rel(toks: Seq<Token>, st: PState) -> Parsed {
    match w_simple(toks, st) {
        Parsed::Crash => Parsed::Crash,
        Parsed::Done { st: st1, tree } => match tree {
            None => done(st1, None),
            Some(node) => match peek(toks, st1) {
                Some(t) => if is_rel_op(t.token_type) {
                    let (st2, _) = match_tok(toks, st1, t.token_type, true);
                    let cursor = st2.cur;
                    if left(toks, st2) >= left(toks, st) {
                        Parsed::Crash
                    } else {
                        match w_simple(toks, st2) {
                            Parsed::Crash => Parsed::Crash,
                            Parsed::Done { st: st3, tree: right } => match right {
                                None => done(st3, None),
                                Some(r) => done(st3, Some(binop(t.token_type, node, r, cursor))),
                            },
                        }
                    }
                } else {
                    done(st1, Some(node))
                },
                None => done(st1, Some(node)),
            },
        },
    }
}

#[verifier::spinoff_prover]
proof fn lemma_unfold_rel(toks: Seq<Token>, st: PState)
    ensures
        w_rel(toks, st) == b_rel(toks, st),
{
    reveal(w_rel);
    reveal(w_simple);
}

/// `p_simple`, kept folded where only what it gives is used.
#[verifier::opaque]
spec fn w_simple(toks: Seq<Token>, st: PState) -> Parsed {
    p_simple(toks, st)
}

/// One step of `p_simple`, over the folded steps it calls.
spec fn b_simple(toks: Seq<Token>, st: PState) -> Parsed {
    match w_termino(toks, st) {
        Parsed::Crash => Parsed::Crash,
        Parsed::Done { st: st1, tree } => match tree {
            None => done(st1, None),
            Some(node) => if left(toks, st1) > left(toks, st) {
                Parsed::Crash
            } else {
                w_simple_loop(toks, st1, node)
            },
        },
    }
}

#[verifier::spinoff_prover]
proof fn lemma_unfold_simple(toks: Seq<Token>, st: PState)
    ensures
        w_simple(toks, st) == b_simple(toks, st),
{
    reveal(w_simple);
    reveal(w_simple_loop);
    reveal(w_termino);
}

/// `p_simple_loop`, kept folded where only what it gives is used.
#[verifier::opaque]
spec fn w_simple_loop(toks: Seq<Token>, st: PState, node: TreeV) -> Parsed {
    p_simple_loop(toks, st, node)
}

/// One step of `p_simple_loop`, over the folded steps it calls.
spec fn b_simple_loop(toks: Seq<Token>, st: PState, node: TreeV) -> Parsed {
    match peek(toks, st) {
        None => Parsed::Crash,
        Some(curr) => {
            let op = curr.token_type;
            if op == TokenType::SUM || op == TokenType::MIN {
                let (st1, _) = match_tok(toks, st, op, true);
                let cursor = st1.cur;
                match w_termino(toks, st1) {
                    Parsed::Crash => Parsed::Crash,
                    Parsed::Done { st: st2, tree } => match tree {
                        None => done(st2, None),
                        Some(r) => if left(toks, st2) < left(toks, st) {
                            w_simple_loop(toks, st2, binop(op, node, r, cursor))
                        } else {
                            Parsed::Crash
                        },
                    },
                }
            } else if op == TokenType::INT || op == TokenType::FLOAT {
                if has_sign(curr.lexemme@) {
                    let cursor = st.cur;
                    match w_termino(toks, st) {
                        Parsed::Crash => Parsed::Crash,
                        Parsed::Done { st: st2, tree } => match tree {
                            None => done(st2, None),
                            Some(r) => if left(toks, st2) < left(toks, st) {
                                w_simple_loop(toks, st2, binop(TokenType::SUM, node, r, cursor))
                            } else {
                                Parsed::Crash
                            },
                        },
                    }
                } else {
                    done(push_err(st, perr("Se esperaba un símbolo de suma o resta"@,
                        Some(seq![TokenType::SUM, TokenType::MIN]), Some(curr))), None)
                }
            } else {
                done(st, Some(node))
            }
        },
    }
}

#[verifier::spinoff_prover]
proof fn lemma_unfold_simple_loop(toks: Seq<Token>, st: PState, node: TreeV)
    ensures
        w_simple_loop(toks, st, node) == b_simple_loop(toks, st, node),
{
    reveal(w_simple_loop);
    reveal(w_termino);
}

/// `p_termino`, kept folded where only what it gives is used.
#[verifier::opaque]
spec fn w_termino(toks: Seq<Token>, st: PState) -> Parsed {
    p_termino(toks, st)
}

/// One step of `p_termino`, over the folded steps it calls.
spec fn b_termino(toks: Seq<Token>, st: PState) -> Parsed {
    match w_factor(toks, st) {
        Parsed::Crash => Parsed::Crash,
        Parsed::Done { st: st1, tree } => match tree {
            None => done(st1, None),
            Some(node) => if left(toks, st1) > left(toks, st) {
                Parsed::Crash
            } else {
                w_term_loop(toks, st1, node)
            },
        },
    }
}

#[verifier::spinoff_prover]
proof fn lemma_unfold_termino(toks: Seq<Token>, st: PState)
    ensures
        w_termino(toks, st) == b_termino(toks, st),
{
    reveal(w_termino);
    reveal(w_factor);
    reveal(w_term_loop);
}

/// `p_term_loop`, kept folded where only what it gives is used.
#[verifier::opaque]
spec fn w_term_loop(toks: Seq<Token>, st: PState, node: TreeV) -> Parsed {
    p_term_loop(toks, st, node)
}

/// One step of `p_term_loop`, over the folded steps it calls.
spec fn b_term_loop(toks: Seq<Token>, st: PState, node: TreeV) -> Parsed {
    match peek(toks, st) {
        None => Parsed::Crash,
        Some(curr) => if is_mult_op(curr.token_type) {
            let op = curr.token_type;
            let (st1, _) = match_tok(toks, st, op, true);
            let cursor = st1.cur;
            match w_factor(toks, st1) {
                Parsed::Crash => Parsed::Crash,
                Parsed::Done { st: st2, tree } => match tree {
                    None => done(st2, None),
                    Some(r) => if left(toks, st2) < left(toks, st) {
                        w_term_loop(toks, st2, binop(op, node, r, cursor))
                    } else {
                        Parsed::Crash
                    },
                },
            }
        } else {
            done(st, Some(node))
        },
    }
}

#[verifier::spinoff_prover]
proof fn lemma_unfold_term_loop(toks: Seq<Token>, st: PState, node: TreeV)
    ensures
        w_term_loop(toks, st, node) == b_term_loop(toks, st, node),
{
    reveal(w_term_loop);
    reveal(w_factor);
}

/// `p_factor`, kept folded where only what it gives is used.
#[verifier::opaque]
spec fn w_factor(toks: Seq<Token>, st: PState) -> Parsed {
    p_factor(toks, st)
}

/// One step of `p_factor`, over the folded steps it calls.
spec fn b_factor(toks: Seq<Token>, st: PState) -> Parsed {
    match w_componente(toks, st) {
        Parsed::Crash => Parsed::Crash,
        Parsed::Done { st: st1, tree } => match tree {
            None => done(st1, None),
            Some(node) => if left(toks, st1) > left(toks, st) {
                Parsed::Crash
            } else {
                w_factor_loop(toks, st1, node)
            },
        },
    }
}

#[verifier::spinoff_prover]
proof fn lemma_unfold_factor(toks: Seq<Token>, st: PState)
    ensures
        w_factor(toks, st) == b_factor(toks, st),
{
    reveal(w_factor);
    reveal(w_componente);
    reveal(w_factor_loop);
}

/// `p_factor_loop`, kept folded where only what it gives is used.
#[verifier::opaque]
spec fn w_factor_loop(toks: Seq<Token>, st: PState, node: TreeV) -> Parsed {
    p_factor_loop(toks, st, node)
}

/// One step of `p_factor_loop`, over the folded steps it calls.
spec fn b_factor_loop(toks: Seq<Token>, st: PState, node: TreeV) -> Parsed {
    match peek(toks, st) {
        None => Parsed::Crash,
        Some(curr) => if curr.token_type == TokenType::POWER {
            let (st1, _) = match_tok(toks, st, TokenType::POWER, true);
            let cursor = st1.cur;
            match w_componente(toks, st1) {
                Parsed::Crash => Parsed::Crash,
                Parsed::Done { st: st2, tree } => match tree {
                    None => done(st2, None),
                    Some(r) => if left(toks, st2) < left(toks, st) {
                        w_factor_loop(toks, st2, binop(TokenType::POWER, node, r, cursor))
                    } else {
                        Parsed::Crash
                    },
                },
            }
        } else {
            done(st, Some(node))
        },
    }
}

#[verifier::spinoff_prover]
proof fn lemma_unfold_factor_loop(toks: Seq<Token>, st: PState, node: TreeV)
    ensures
        w_factor_loop(toks, st, node) == b_factor_loop(toks, st, node),
{
    reveal(w_factor_loop);
    reveal(w_componente);
}

/// `p_componente`, kept folded where only what it gives is used.
#[verifier::opaque]
spec fn w_componente(toks: Seq<Token>, st: PState) -> Parsed {
    p_componente(toks, st)
}

/// One step of `p_componente`, over the folded steps it calls.
spec fn b_componente(toks: Seq<Token>, st: PState) -> Parsed {
    match peek(toks, st) {
        None => done(st, None),
        Some(token) => {
            let tt = token.token_type;
            if tt == TokenType::LPAR {
                let (st1, _) = match_tok(toks, st, TokenType::LPAR, true);
                if left(toks, st1) >= left(toks, st) {
                    Parsed::Crash
                } else {
                    match w_expresion(toks, st1) {
                        Parsed::Crash => Parsed::Crash,
                        Parsed::Done { st: st2, tree } => match tree {
                            None => done(st2, None),
                            Some(n) => {
                                let (st3, ok) = match_tok(toks, st2, TokenType::RPAR, true);
                                if !ok { done(st3, None) } else { done(st3, Some(n)) }
                            },
                        },
                    }
                }
            } else if tt == TokenType::INT {
                match spec_parse_i32(token.lexemme@) {
                    None => Parsed::Crash,
                    Some(value) => {
                        let (st1, _) = match_tok(toks, st, TokenType::INT, true);
                        done(st1, Some(exp(ExpV::Const { value }, st1.cur)))
                    },
                }
            } else if tt == TokenType::FLOAT {
                match float_at(st) {
                    None => Parsed::Crash,
                    Some(value) => {
                        let (st1, _) = match_tok(toks, st, TokenType::FLOAT, true);
                        done(st1, Some(exp(ExpV::ConstF { value }, st1.cur)))
                    },
                }
            } else if tt == TokenType::ID {
                w_incremento(toks, st)
            } else {
                done(push_err(st, perr(bad_component_msg(), Some(seq![TokenType::LPAR, TokenType::INT, TokenType::ID]),
                    Some(token))), None)
            }
        },
    }
}

#[verifier::spinoff_prover]
proof fn lemma_unfold_componente(toks: Seq<Token>, st: PState)
    ensures
        w_componente(toks, st) == b_componente(toks, st),
{
    reveal(w_componente);
    reveal(w_expresion);
    reveal(w_incremento);
}

/// `p_incremento`, kept folded where only what it gives is used.
#[verifier::opaque]
spec fn w_incremento(toks: Seq<Token>, st: PState) -> Parsed {
    p_incremento(toks, st)
}

/// One step of `p_incremento`, over the folded steps it calls.
spec fn b_incremento(toks: Seq<Token>, st: PState) -> Parsed {
    if st.pos >= toks.len() {
        Parsed::Crash
    } else {
    let name = toks[st.pos as int].lexemme@;
    let (st1, _) = match_tok(toks, st, TokenType::ID, true);
    let cursor = st1.cur;
    match peek(toks, st1) {
        None => Parsed::Crash,
        Some(t) => if t.token_type == TokenType::INC || t.token_type == TokenType::DEC {
            let (st2, _) = match_tok(toks, st1, t.token_type, true);
            let cursor2 = st2.cur;
            done(st2, Some(binop(step_op(t.token_type), exp(ExpV::Id { name }, cursor2),
                exp(ExpV::Const { value: 1 }, None), cursor)))
        } else {
            done(st1, Some(exp(ExpV::Id { name }, cursor)))
        },
    }
    }
}

#[verifier::spinoff_prover]
proof fn lemma_unfold_incremento(toks: Seq<Token>, st: PState)
    ensures
        w_incremento(toks, st) == b_incremento(toks, st),
{
    reveal(w_incremento);
}

proof fn lemma_fw_and(toks: Seq<Token>, st: PState)
    ensures
        moves_forward(toks, st, w_and(toks, st)),
{
    reveal(w_and);
    lemma_and_forward(toks, st);
}

proof fn lemma_fw_not(toks: Seq<Token>, st: PState)
    ensures
        moves_forward(toks, st, w_not(toks, st)),
{
    reveal(w_not);
    lemma_not_forward(toks, st);
}

proof fn lemma_fw_simple(toks: Seq<Token>, st: PState)
    ensures
        moves_forward(toks, st, w_simple(toks, st)),
{
    reveal(w_simple);
    lemma_simple_forward(toks, st);
}

proof fn lemma_fw_termino(toks: Seq<Token>, st: PState)
    ensures
        moves_forward(toks, st, w_termino(toks, st)),
{
    reveal(w_termino);
    lemma_termino_forward(toks, st);
}

proof fn lemma_fw_factor(toks: Seq<Token>, st: PState)
    ensures
        moves_forward(toks, st, w_factor(toks, st)),
{
    reveal(w_factor);
    lemma_factor_forward(toks, st);
}

proof fn lemma_fw_componente(toks: Seq<Token>, st: PState)
    ensures
        moves_forward(toks, st, w_componente(toks, st)),
{
    reveal(w_componente);
    lemma_componente_forward(toks, st);
}

proof fn lemma_fw_expresion(toks: Seq<Token>, st: PState)
    ensures
        moves_forward(toks, st, w_expresion(toks, st)),
{
    reveal(w_expresion);
    lemma_expresion_forward(toks, st);
}

proof fn lemma_fw_termino_on_number(toks: Seq<Token>, st: PState)
    requires
        peek_is(toks, st, TokenType::INT) || peek_is(toks, st, TokenType::FLOAT),
    ensures
        w_termino(toks, st) matches Parsed::Done { st: s1, tree: Some(_) } ==> left(toks, s1) < left(toks, st),
{
    reveal(w_termino);
    lemma_termino_on_number(toks, st);
}

/// Reading an expression on such a list finishes, without consuming its
/// last token.
proof fn lemma_expresion_finishes(toks: Seq<Token>, st: PState)
    requires
        good(toks, st),
    ensures
        finishes_inside(toks, st, p_expresion(toks, st)),
{
    lemma_expresion_total(toks, st);
    reveal(w_expresion);
}


#[verifier::spinoff_prover]
proof fn lemma_expresion_total(toks: Seq<Token>, st: PState)
    requires
        good(toks, st),
    ensures
        finishes_inside(toks, st, w_expresion(toks, st)),
    decreases left(toks, st), 12nat,
{
    lemma_unfold_expresion(toks, st);
    lemma_and_total(toks, st);
    lemma_fw_and(toks, st);
    if let Parsed::Done { st: st1, tree: Some(_) } = w_and(toks, st) {
        if peek_is(toks, st1, TokenType::OR) {
            let st2 = match_tok(toks, st1, TokenType::OR, true).0;
            lemma_and_total(toks, st2);
        }
    }
}

#[verifier::spinoff_prover]
proof fn lemma_and_total(toks: Seq<Token>, st: PState)
    requires
        good(toks, st),
    ensures
        finishes_inside(toks, st, w_and(toks, st)),
    decreases left(toks, st), 11nat,
{
    lemma_unfold_and(toks, st);
    lemma_not_total(toks, st);
    lemma_fw_not(toks, st);
    if let Parsed::Done { st: st1, tree: Some(_) } = w_not(toks, st) {
        if peek_is(toks, st1, TokenType::AND) {
            let st2 = match_tok(toks, st1, TokenType::AND, true).0;
            lemma_not_total(toks, st2);
        }
    }
}

#[verifier::spinoff_prover]
proof fn lemma_not_total(toks: Seq<Token>, st: PState)
    requires
        good(toks, st),
    ensures
        finishes_inside(toks, st, w_not(toks, st)),
    decreases left(toks, st), 10nat,
{
    lemma_unfold_not(toks, st);
    if let Some(t) = peek(toks, st) {
        if t.token_type == TokenType::NEG {
            lemma_rel_total(toks, match_tok(toks, st, TokenType::NEG, true).0);
        } else {
            lemma_rel_total(toks, st);
        }
    }
}

#[verifier::spinoff_prover]
proof fn lemma_rel_total(toks: Seq<Token>, st: PState)
    requires
        good(toks, st),
    ensures
        finishes_inside(toks, st, w_rel(toks, st)),
    decreases left(toks, st), 9nat,
{
    lemma_unfold_rel(toks, st);
    lemma_simple_total(toks, st);
    lemma_fw_simple(toks, st);
    if let Parsed::Done { st: st1, tree: Some(_) } = w_simple(toks, st) {
        if let Some(t) = peek(toks, st1) {
            if crate::parse_model::is_rel_op(t.token_type) {
                let st2 = match_tok(toks, st1, t.token_type, true).0;
                lemma_simple_total(toks, st2);
            }
        }
    }
}

#[verifier::spinoff_prover]
proof fn lemma_simple_total(toks: Seq<Token>, st: PState)
    requires
        good(toks, st),
    ensures
        finishes_inside(toks, st, w_simple(toks, st)),
    decreases left(toks, st), 8nat,
{
    lemma_unfold_simple(toks, st);
    lemma_termino_total(toks, st);
    lemma_fw_termino(toks, st);
    if let Parsed::Done { st: st1, tree: Some(node) } = w_termino(toks, st) {
        lemma_simple_loop_total(toks, st1, node);
    }
}

#[verifier::spinoff_prover]
proof fn lemma_simple_loop_total(toks: Seq<Token>, st: PState, node: TreeV)
    requires
        good(toks, st),
        st.pos < toks.len(),
    ensures
        finishes_inside(toks, st, w_simple_loop(toks, st, node)),
    decreases left(toks, st), 7nat,
{
    lemma_unfold_simple_loop(toks, st, node);
    let curr = toks[st.pos as int];
    let op = curr.token_type;
    if op == TokenType::SUM || op == TokenType::MIN {
        let st1 = match_tok(toks, st, op, true).0;
        let cursor = st1.cur;
        lemma_termino_total(toks, st1);
        lemma_fw_termino(toks, st1);
        if let Parsed::Done { st: st2, tree: Some(r) } = w_termino(toks, st1) {
            lemma_simple_loop_total(toks, st2, binop(op, node, r, cursor));
        }
    } else if op == TokenType::INT || op == TokenType::FLOAT {
        let cursor = st.cur;
        lemma_termino_total(toks, st);
        lemma_fw_termino_on_number(toks, st);
        if let Parsed::Done { st: st2, tree: Some(r) } = w_termino(toks, st) {
            lemma_simple_loop_total(toks, st2, binop(TokenType::SUM, node, r, cursor));
        }
    }
}

#[verifier::spinoff_prover]
proof fn lemma_termino_total(toks: Seq<Token>, st: PState)
    requires
        good(toks, st),
    ensures
        finishes_inside(toks, st, w_termino(toks, st)),
    decreases left(toks, st), 6nat,
{
    lemma_unfold_termino(toks, st);
    lemma_factor_total(toks, st);
    lemma_fw_factor(toks, st);
    if let Parsed::Done { st: st1, tree: Some(node) } = w_factor(toks, st) {
        lemma_term_loop_total(toks, st1, node);
    }
}

#[verifier::spinoff_prover]
proof fn lemma_term_loop_total(toks: Seq<Token>, st: PState, node: TreeV)
    requires
        good(toks, st),
        st.pos < toks.len(),
    ensures
        finishes_inside(toks, st, w_term_loop(toks, st, node)),
    decreases left(toks, st), 5nat,
{
    lemma_unfold_term_loop(toks, st, node);
    let op = toks[st.pos as int].token_type;
    if crate::parse_model::is_mult_op(op) {
        let st1 = match_tok(toks, st, op, true).0;
        let cursor = st1.cur;
        lemma_factor_total(toks, st1);
        lemma_fw_factor(toks, st1);
        if let Parsed::Done { st: st2, tree: Some(r) } = w_factor(toks, st1) {
            lemma_term_loop_total(toks, st2, binop(op, node, r, cursor));
        }
    }
}

#[verifier::spinoff_prover]
proof fn lemma_factor_total(toks: Seq<Token>, st: PState)
    requires
        good(toks, st),
    ensures
        finishes_inside(toks, st, w_factor(toks, st)),
    decreases left(toks, st), 4nat,
{
    lemma_unfold_factor(toks, st);
    lemma_componente_total(toks, st);
    lemma_fw_componente(toks, st);
    if let Parsed::Done { st: st1, tree: Some(node) } = w_componente(toks, st) {
        lemma_factor_loop_total(toks, st1, node);
    }
}

#[verifier::spinoff_prover]
proof fn lemma_factor_loop_total(toks: Seq<Token>, st: PState, node: TreeV)
    requires
        good(toks, st),
        st.pos < toks.len(),
    ensures
        finishes_inside(toks, st, w_factor_loop(toks, st, node)),
    decreases left(toks, st), 3nat,
{
    lemma_unfold_factor_loop(toks, st, node);
    if toks[st.pos as int].token_type == TokenType::POWER {
        let st1 = match_tok(toks, st, TokenType::POWER, true).0;
        let cursor = st1.cur;
        lemma_componente_total(toks, st1);
        lemma_fw_componente(toks, st1);
        if let Parsed::Done { st: st2, tree: Some(r) } = w_componente(toks, st1) {
            lemma_factor_loop_total(toks, st2, binop(TokenType::POWER, node, r, cursor));
        }
    }
}

#[verifier::spinoff_prover]
proof fn lemma_componente_total(toks: Seq<Token>, st: PState)
    requires
        good(toks, st),
    ensures
        finishes_inside(toks, st, w_componente(toks, st)),
    decreases left(toks, st), 2nat,
{
    lemma_unfold_componente(toks, st);
    if st.pos < toks.len() {
        let token = toks[st.pos as int];
        if token.token_type == TokenType::LPAR {
            let st1 = match_tok(toks, st, TokenType::LPAR, true).0;
            lemma_expresion_total(toks, st1);
        } else if token.token_type == TokenType::ID {
            lemma_incremento_total(toks, st);
        }
    }
}

#[verifier::spinoff_prover]
proof fn lemma_incremento_total(toks: Seq<Token>, st: PState)
    requires
        good(toks, st),
        st.pos < toks.len(),
        toks[st.pos as int].token_type == TokenType::ID,
    ensures
        finishes_inside(toks, st, w_incremento(toks, st)),
{
    lemma_unfold_incremento(toks, st);
}

// ---------------------------------------------------------------------------
// Statements
// ---------------------------------------------------------------------------

#[verifier::spinoff_prover]
proof fn lemma_sent_expresion_total(toks: Seq<Token>, st: PState)
    requires
        good(toks, st),
    ensures
        finishes(toks, st, p_sent_expresion(toks, st)),
{
    lemma_expresion_finishes(toks, st);
    if let Parsed::Done { st: st1, .. } = p_expresion(toks, st) {
        lemma_skip(toks, st1, TokenType::SCOL);
    }
}

#[verifier::spinoff_prover]
proof fn lemma_asignacion_total(toks: Seq<Token>, st: PState)
    requires
        good(toks, st),
        st.pos < toks.len(),
    ensures
        finishes(toks, st, p_asignacion(toks, st)),
{
    let token = toks[st.pos as int];
    let (st1, matched) = match_tok(toks, st, TokenType::ID, false);
    if !matched {
        let st2 = push_err(st1, perr("Se esperaba un identificador"@, Some(seq![TokenType::ID]), Some(token)));
        lemma_skip(toks, st2, TokenType::SCOL);
    } else if let Some(t) = peek(toks, st1) {
        if !(t.token_type == TokenType::INC || t.token_type == TokenType::DEC) {
            let (st2, ok) = match_tok(toks, st1, TokenType::ASSIGN, false);
            if !ok {
                let st3 = push_err(st2, perr("Se esperaba '='"@, Some(seq![TokenType::ASSIGN]), peek(toks, st2)));
                lemma_skip(toks, st3, TokenType::SCOL);
            } else {
                lemma_sent_expresion_total(toks, st2);
            }
        }
    }
}

#[verifier::spinoff_prover]
proof fn lemma_sent_in_total(toks: Seq<Token>, st: PState)
    requires
        good(toks, st),
    ensures
        finishes(toks, st, p_sent_in(toks, st)),
{
    let st1 = match_tok(toks, st, TokenType::STDIN, true).0;
    let st2 = match_tok(toks, st1, TokenType::ID, true).0;
    lemma_skip(toks, st2, TokenType::SCOL);
}

#[verifier::spinoff_prover]
proof fn lemma_sent_out_total(toks: Seq<Token>, st: PState)
    requires
        good(toks, st),
    ensures
        finishes(toks, st, p_sent_out(toks, st)),
{
    let st1 = match_tok(toks, st, TokenType::STDOUT, true).0;
    lemma_expresion_finishes(toks, st1);
    if let Parsed::Done { st: st2, tree } = p_expresion(toks, st1) {
        if tree is None {
            let st3 = push_err(st2, perr("Se esperaba una expresion"@, None, peek(toks, st2)));
            lemma_skip(toks, st3, TokenType::SCOL);
        }
    }
}

proof fn lemma_ident_rest_total(toks: Seq<Token>, st: PState, typ: ExpType)
    requires
        st.pos <= toks.len(),
    ensures
        p_ident_rest(toks, st, typ).0.floats == st.floats,
        p_ident_rest(toks, st, typ).0.pos <= toks.len(),
    decreases left(toks, st),
{
    if peek_is(toks, st, TokenType::COMMA) {
        let st1 = match_tok(toks, st, TokenType::COMMA, true).0;
        let (st2, ok) = match_tok(toks, st1, TokenType::ID, true);
        if ok && peek(toks, st1) is Some {
            lemma_ident_rest_total(toks, st2, typ);
        }
    }
}

#[verifier::spinoff_prover]
proof fn lemma_declaracion_variable_total(toks: Seq<Token>, st: PState)
    requires
        good(toks, st),
        st.pos < toks.len(),
    ensures
        finishes(toks, st, p_declaracion_variable(toks, st)),
{
    let t = toks[st.pos as int];
    let st1 = match_tok(toks, st, t.token_type, true).0;
    let typ = decl_type(t.token_type);
    if let Some(_) = peek(toks, st1) {
        let (st2, ok) = match_tok(toks, st1, TokenType::ID, true);
        if ok {
            lemma_ident_rest_total(toks, st2, typ);
        }
    }
}

#[verifier::spinoff_prover]
proof fn lemma_lista_sentencias_total(toks: Seq<Token>, st: PState)
    requires
        good(toks, st),
    ensures
        finishes(toks, st, p_lista_sentencias(toks, st)),
    decreases left(toks, st), 4nat,
{
    lemma_sent_loop_total(toks, st, None);
}

#[verifier::spinoff_prover]
proof fn lemma_sent_loop_total(toks: Seq<Token>, st: PState, acc: Option<TreeV>)
    requires
        good(toks, st),
    ensures
        finishes(toks, st, p_sent_loop(toks, st, acc)),
    decreases left(toks, st), 3nat,
{
    if st.pos < toks.len() {
        lemma_sentencia_total(toks, st);
        if let Parsed::Done { st: st1, tree } = p_sentencia(toks, st) {
            let acc1 = match tree {
                Some(n) => append_opt(acc, n),
                None => acc,
            };
            if left(toks, st1) < left(toks, st) {
                lemma_sent_loop_total(toks, st1, acc1);
            }
        }
    }
}

#[verifier::spinoff_prover]
proof fn lemma_sentencia_total(toks: Seq<Token>, st: PState)
    requires
        good(toks, st),
    ensures
        finishes(toks, st, p_sentencia(toks, st)),
    decreases left(toks, st), 2nat,
{
    if st.pos < toks.len() {
        let tt = toks[st.pos as int].token_type;
        if tt == TokenType::IF {
            lemma_seleccion_total(toks, st);
        } else if tt == TokenType::WHILE {
            lemma_iteracion_total(toks, st);
        } else if tt == TokenType::DO {
            lemma_repeticion_total(toks, st);
        } else if tt == TokenType::STDIN {
            lemma_sent_in_total(toks, st);
        } else if tt == TokenType::STDOUT {
            lemma_sent_out_total(toks, st);
        } else if tt == TokenType::ID {
            lemma_asignacion_total(toks, st);
        } else if tt == TokenType::INTEGER || tt == TokenType::DOUBLE {
            lemma_declaracion_variable_total(toks, st);
        }
    }
}

#[verifier::spinoff_prover]
proof fn lemma_seleccion_total(toks: Seq<Token>, st: PState)
    requires
        good(toks, st),
    ensures
        finishes(toks, st, p_seleccion(toks, st)),
    decreases left(toks, st), 1nat,
{
    let (st0, matched) = match_tok(toks, st, TokenType::IF, false);
    if matched {
        lemma_expresion_finishes(toks, st0);
        lemma_expresion_forward(toks, st0);
        if let Parsed::Done { st: st2, tree: condition } = p_expresion(toks, st0) {
            match condition {
                None => {
                    let st3 = push_err(st2, perr("Se esperaba una expresión como condición del if"@, None, peek(toks, st2)));
                    lemma_skip_if_keeps(toks, st3);
                },
                Some(_) => {
                    let (st3, ok) = match_tok(toks, st2, TokenType::LBRA, false);
                    if !ok {
                        let st4 = push_err(st3, perr("Se esperaba '{'"@, None, peek(toks, st3)));
                        lemma_skip_if_keeps(toks, st4);
                    } else {
                        lemma_lista_sentencias_total(toks, st3);
                        lemma_lista_sentencias_forward(toks, st3);
                        if let Parsed::Done { st: st4, .. } = p_lista_sentencias(toks, st3) {
                            let (st5, ok2) = match_tok(toks, st4, TokenType::RBRA, false);
                            if !ok2 {
                                let st6 = push_err(st5, perr("Se esperaba '}'"@, Some(seq![TokenType::RBRA]), peek(toks, st5)));
                                lemma_skip_if_keeps(toks, st6);
                            } else if peek_is(toks, st5, TokenType::ELSE) {
                                let st6 = match_tok(toks, st5, TokenType::ELSE, true).0;
                                let (st7, ok3) = match_tok(toks, st6, TokenType::LBRA, false);
                                if !ok3 {
                                    lemma_skip(toks, push_err(st7, perr("Se esperaba '{' después del 'else'"@, None, peek(toks, st7))),
                                        TokenType::RBRA);
                                } else {
                                    lemma_lista_sentencias_total(toks, st7);
                                }
                            }
                        }
                    }
                },
            }
        }
    }
}

#[verifier::spinoff_prover]
proof fn lemma_iteracion_total(toks: Seq<Token>, st: PState)
    requires
        good(toks, st),
    ensures
        finishes(toks, st, p_iteracion(toks, st)),
    decreases left(toks, st), 1nat,
{
    let (st0, matched) = match_tok(toks, st, TokenType::WHILE, false);
    if matched {
        lemma_expresion_finishes(toks, st0);
        lemma_expresion_forward(toks, st0);
        if let Parsed::Done { st: st2, tree: condition } = p_expresion(toks, st0) {
            match condition {
                None => lemma_skip(toks, st2, TokenType::RBRA),
                Some(_) => {
                    let (st3, ok) = match_tok(toks, st2, TokenType::LBRA, false);
                    if !ok {
                        lemma_skip(toks, push_err(st3, perr("Se esperaba '{'"@, Some(seq![TokenType::LBRA]), peek(toks, st3))),
                            TokenType::RBRA);
                    } else {
                        lemma_lista_sentencias_total(toks, st3);
                        if let Parsed::Done { st: st4, .. } = p_lista_sentencias(toks, st3) {
                            let (st5, ok2) = match_tok(toks, st4, TokenType::RBRA, false);
                            if !ok2 {
                                lemma_skip(toks, push_err(st5, perr("Se esperaba '}'"@, Some(seq![TokenType::RBRA]), peek(toks, st5))),
                                    TokenType::RBRA);
                            }
                        }
                    }
                },
            }
        }
    }
}

#[verifier::spinoff_prover]
proof fn lemma_repeticion_total(toks: Seq<Token>, st: PState)
    requires
        good(toks, st),
    ensures
        finishes(toks, st, p_repeticion(toks, st)),
    decreases left(toks, st), 1nat,
{
    let (st0, matched) = match_tok(toks, st, TokenType::DO, false);
    if matched {
        let (st2, ok) = match_tok(toks, st0, TokenType::LBRA, false);
        if !ok {
            lemma_skip(toks, push_err(st2, perr("Se esperaba '{'"@, Some(seq![TokenType::LBRA]), peek(toks, st2))), TokenType::RBRA);
        } else {
            lemma_lista_sentencias_total(toks, st2);
            if let Parsed::Done { st: st3, .. } = p_lista_sentencias(toks, st2) {
                let (st4, ok2) = match_tok(toks, st3, TokenType::RBRA, false);
                if !ok2 {
                    lemma_skip(toks, push_err(st4, perr("Se esperaba '}'"@, Some(seq![TokenType::RBRA]), peek(toks, st4))),
                        TokenType::SCOL);
                } else {
                    let (st5, ok3) = match_tok(toks, st4, TokenType::WHILE, false);
                    if !ok3 {
                        lemma_skip(toks, push_err(st5, perr("Se esperaba 'while'"@, Some(seq![TokenType::WHILE]), peek(toks, st5))),
                            TokenType::SCOL);
                    } else {
                        lemma_expresion_finishes(toks, st5);
                        if let Parsed::Done { st: st6, .. } = p_expresion(toks, st5) {
                            lemma_skip(toks, st6, TokenType::SCOL);
                        }
                    }
                }
            }
        }
    }
}

// ---------------------------------------------------------------------------
// Declarations and the program
// ---------------------------------------------------------------------------

#[verifier::spinoff_prover]
proof fn lemma_declaracion_total(toks: Seq<Token>, st: PState)
    requires
        good(toks, st),
    ensures
        finishes(toks, st, p_declaracion(toks, st)),
{
    if st.pos < toks.len() {
        let t = toks[st.pos as int];
        if t.token_type == TokenType::INTEGER || t.token_type == TokenType::DOUBLE {
            lemma_declaracion_variable_total(toks, st);
        } else {
            lemma_lista_sentencias_total(toks, st);
        }
    }
}

#[verifier::spinoff_prover]
proof fn lemma_decl_loop_total(toks: Seq<Token>, st: PState, acc: TreeV)
    requires
        good(toks, st),
    ensures
        finishes(toks, st, p_decl_loop(toks, st, acc)),
    decreases left(toks, st),
{
    lemma_declaracion_total(toks, st);
    if let Parsed::Done { st: st1, tree: Some(q) } = p_declaracion(toks, st) {
        if left(toks, st1) < left(toks, st) {
            lemma_decl_loop_total(toks, st1, append_tree(acc, q));
        }
    }
}

#[verifier::spinoff_prover]
proof fn lemma_lista_declaracion_total(toks: Seq<Token>, st: PState)
    requires
        good(toks, st),
    ensures
        finishes(toks, st, p_lista_declaracion(toks, st)),
{
    lemma_declaracion_total(toks, st);
    lemma_declaracion_forward(toks, st);
    if let Parsed::Done { st: st1, tree: Some(t) } = p_declaracion(toks, st) {
        lemma_decl_loop_total(toks, st1, t);
    }
}

/// The parser stops the program on no token list that ends in `}` and
/// whose integer literals read as `i32` values and whose float literals
/// have values: the parse of such a list always finishes, with the errors
/// it found.
pub proof fn lemma_parse_finishes(toks: Seq<Token>, floats: Seq<Option<Seq<char>>>)
    requires
        ends_in_rbra(toks),
        literals_read(toks, floats),
    ensures
        spec_parse(toks, floats) is Done,
{
    let st = initial_state(toks, floats);
    let st1 = match_tok(toks, st, TokenType::MAIN, true).0;
    let st2 = match_tok(toks, st1, TokenType::LBRA, true).0;
    lemma_lista_declaracion_total(toks, st2);
}

} // verus!
