//! Laws of the parser: it only ever moves forward in the token list; a
//! statement or declaration that yields something, and a term that starts
//! with a number, has consumed a token.
//!
//! They show that the guards of the model on progress hold: each stands
//! after a token was consumed and a walk that does not go back, or after one
//! of these steps. The branches that give `Parsed::Crash` or stop where a
//! guard fails are never taken, so that `Parsed::Crash` stands only for the
//! places where the parser really stops the program.

use vstd::prelude::*;
use crate::parse_model::{advance_until, left, match_tok, p_and, p_componente, p_decl_loop, p_declaracion, p_declaracion_variable, p_expresion, p_factor, p_factor_loop, p_ident_rest, p_incremento, p_iteracion, p_lista_declaracion, p_lista_sentencias, p_not, p_programa, p_rel, p_repeticion, p_asignacion, p_seleccion, p_sent_expresion, p_sent_in, p_sent_loop, p_sent_out, p_sentencia, p_simple, p_simple_loop, p_term_loop, p_termino, peek, peek_is, skip_if, skip_to, PState, Parsed};
use crate::structures::TreeV;
use crate::token::{Token, TokenType};

verus! {

/// The result `p` of a parsing step from `st` leaves no more tokens than
/// there were.
pub open spec fn moves_forward(toks: Seq<Token>, st: PState, p: Parsed) -> bool {
    p matches Parsed::Done { st: s1, .. } ==> left(toks, s1) <= left(toks, st)
}

pub proof fn lemma_advance_until(toks: Seq<Token>, st: PState, tt: TokenType)
    ensures
        left(toks, advance_until(toks, st, tt).0) <= left(toks, st),
    decreases left(toks, st),
{
    if st.pos < toks.len() && toks[st.pos as int].token_type != tt {
        lemma_advance_until(toks, crate::parse_model::advance(toks, st), tt);
    }
}

pub proof fn lemma_skip_if(toks: Seq<Token>, st: PState)
    ensures
        left(toks, skip_if(toks, st)) <= left(toks, st),
{
    lemma_advance_until(toks, st, TokenType::RBRA);
    lemma_advance_until(toks, skip_to(toks, st, TokenType::RBRA), TokenType::RBRA);
}

// ---------------------------------------------------------------------------
// Expressions
// ---------------------------------------------------------------------------

/// Reading an expression never moves backwards.
pub proof fn lemma_expresion_forward(toks: Seq<Token>, st: PState)
    ensures
        moves_forward(toks, st, p_expresion(toks, st)),
    decreases left(toks, st), 12nat,
{
    lemma_and_forward(toks, st);
    if let Parsed::Done { st: st1, tree: Some(_) } = p_and(toks, st) {
        if peek_is(toks, st1, TokenType::OR) {
            let st2 = match_tok(toks, st1, TokenType::OR, true).0;
            if left(toks, st2) < left(toks, st) {
                lemma_and_forward(toks, st2);
            }
        }
    }
}

pub proof fn lemma_and_forward(toks: Seq<Token>, st: PState)
    ensures
        moves_forward(toks, st, p_and(toks, st)),
    decreases left(toks, st), 11nat,
{
    lemma_not_forward(toks, st);
    if let Parsed::Done { st: st1, tree: Some(_) } = p_not(toks, st) {
        if peek_is(toks, st1, TokenType::AND) {
            let st2 = match_tok(toks, st1, TokenType::AND, true).0;
            if left(toks, st2) < left(toks, st) {
                lemma_not_forward(toks, st2);
            }
        }
    }
}

pub proof fn lemma_not_forward(toks: Seq<Token>, st: PState)
    ensures
        moves_forward(toks, st, p_not(toks, st)),
    decreases left(toks, st), 10nat,
{
    if let Some(t) = peek(toks, st) {
        if t.token_type == TokenType::NEG {
            lemma_rel_forward(toks, match_tok(toks, st, TokenType::NEG, true).0);
        } else {
            lemma_rel_forward(toks, st);
        }
    }
}

pub proof fn lemma_rel_forward(toks: Seq<Token>, st: PState)
    ensures
        moves_forward(toks, st, p_rel(toks, st)),
    decreases left(toks, st), 9nat,
{
    lemma_simple_forward(toks, st);
    if let Parsed::Done { st: st1, tree: Some(_) } = p_simple(toks, st) {
        if let Some(t) = peek(toks, st1) {
            let st2 = match_tok(toks, st1, t.token_type, true).0;
            if left(toks, st2) < left(toks, st) {
                lemma_simple_forward(toks, st2);
            }
        }
    }
}

pub proof fn lemma_simple_forward(toks: Seq<Token>, st: PState)
    ensures
        moves_forward(toks, st, p_simple(toks, st)),
    decreases left(toks, st), 8nat,
{
    lemma_termino_forward(toks, st);
    if let Parsed::Done { st: st1, tree: Some(node) } = p_termino(toks, st) {
        if left(toks, st1) <= left(toks, st) {
            lemma_simple_loop_forward(toks, st1, node);
        }
    }
}

pub proof fn lemma_simple_loop_forward(toks: Seq<Token>, st: PState, node: TreeV)
    ensures
        moves_forward(toks, st, p_simple_loop(toks, st, node)),
    decreases left(toks, st), 7nat,
{
    if let Some(curr) = peek(toks, st) {
        let op = curr.token_type;
        if op == TokenType::SUM || op == TokenType::MIN {
            let st1 = match_tok(toks, st, op, true).0;
            let cursor = st1.cur;
            lemma_termino_forward(toks, st1);
            if let Parsed::Done { st: st2, tree: Some(r) } = p_termino(toks, st1) {
                if left(toks, st2) < left(toks, st) {
                    lemma_simple_loop_forward(toks, st2, crate::parse_model::binop(op, node, r, cursor));
                }
            }
        } else if op == TokenType::INT || op == TokenType::FLOAT {
            let cursor = st.cur;
            lemma_termino_forward(toks, st);
            if let Parsed::Done { st: st2, tree: Some(r) } = p_termino(toks, st) {
                if left(toks, st2) < left(toks, st) {
                    lemma_simple_loop_forward(toks, st2, crate::parse_model::binop(TokenType::SUM, node, r, cursor));
                }
            }
        }
    }
}

pub proof fn lemma_termino_forward(toks: Seq<Token>, st: PState)
    ensures
        moves_forward(toks, st, p_termino(toks, st)),
    decreases left(toks, st), 6nat,
{
    lemma_factor_forward(toks, st);
    if let Parsed::Done { st: st1, tree: Some(node) } = p_factor(toks, st) {
        if left(toks, st1) <= left(toks, st) {
            lemma_term_loop_forward(toks, st1, node);
        }
    }
}

pub proof fn lemma_term_loop_forward(toks: Seq<Token>, st: PState, node: TreeV)
    ensures
        moves_forward(toks, st, p_term_loop(toks, st, node)),
    decreases left(toks, st), 5nat,
{
    if let Some(curr) = peek(toks, st) {
        let op = curr.token_type;
        if crate::parse_model::is_mult_op(op) {
            let st1 = match_tok(toks, st, op, true).0;
            let cursor = st1.cur;
            lemma_factor_forward(toks, st1);
            if let Parsed::Done { st: st2, tree: Some(r) } = p_factor(toks, st1) {
                if left(toks, st2) < left(toks, st) {
                    lemma_term_loop_forward(toks, st2, crate::parse_model::binop(op, node, r, cursor));
                }
            }
        }
    }
}

pub proof fn lemma_factor_forward(toks: Seq<Token>, st: PState)
    ensures
        moves_forward(toks, st, p_factor(toks, st)),
    decreases left(toks, st), 4nat,
{
    lemma_componente_forward(toks, st);
    if let Parsed::Done { st: st1, tree: Some(node) } = p_componente(toks, st) {
        if left(toks, st1) <= left(toks, st) {
            lemma_factor_loop_forward(toks, st1, node);
        }
    }
}

pub proof fn lemma_factor_loop_forward(toks: Seq<Token>, st: PState, node: TreeV)
    ensures
        moves_forward(toks, st, p_factor_loop(toks, st, node)),
    decreases left(toks, st), 3nat,
{
    if let Some(curr) = peek(toks, st) {
        if curr.token_type == TokenType::POWER {
            let st1 = match_tok(toks, st, TokenType::POWER, true).0;
            let cursor = st1.cur;
            lemma_componente_forward(toks, st1);
            if let Parsed::Done { st: st2, tree: Some(r) } = p_componente(toks, st1) {
                if left(toks, st2) < left(toks, st) {
                    lemma_factor_loop_forward(toks, st2, crate::parse_model::binop(TokenType::POWER, node, r, cursor));
                }
            }
        }
    }
}

pub proof fn lemma_componente_forward(toks: Seq<Token>, st: PState)
    ensures
        moves_forward(toks, st, p_componente(toks, st)),
    decreases left(toks, st), 2nat,
{
    if let Some(token) = peek(toks, st) {
        if token.token_type == TokenType::LPAR {
            let st1 = match_tok(toks, st, TokenType::LPAR, true).0;
            if left(toks, st1) < left(toks, st) {
                lemma_expresion_forward(toks, st1);
            }
        } else if token.token_type == TokenType::ID {
            lemma_incremento_forward(toks, st);
        }
    }
}

pub proof fn lemma_incremento_forward(toks: Seq<Token>, st: PState)
    ensures
        moves_forward(toks, st, p_incremento(toks, st)),
{
}

/// A term that starts with a number consumes it: the signed numbers that
/// `p_simple_loop` reads as sums always move forward.
pub proof fn lemma_termino_on_number(toks: Seq<Token>, st: PState)
    requires
        peek_is(toks, st, TokenType::INT) || peek_is(toks, st, TokenType::FLOAT),
    ensures
        p_termino(toks, st) matches Parsed::Done { st: s1, tree: Some(_) } ==> left(toks, s1) < left(toks, st),
{
    lemma_componente_forward(toks, st);
    if let Parsed::Done { st: st1, tree: Some(node) } = p_componente(toks, st) {
        lemma_factor_loop_forward(toks, st1, node);
        if let Parsed::Done { st: st2, tree: Some(n2) } = p_factor(toks, st) {
            lemma_term_loop_forward(toks, st2, n2);
        }
    }
}

// ---------------------------------------------------------------------------
// Statements
// ---------------------------------------------------------------------------

pub proof fn lemma_sent_expresion_forward(toks: Seq<Token>, st: PState)
    ensures
        moves_forward(toks, st, p_sent_expresion(toks, st)),
{
    lemma_expresion_forward(toks, st);
    if let Parsed::Done { st: st1, .. } = p_expresion(toks, st) {
        lemma_advance_until(toks, st1, TokenType::SCOL);
    }
}

pub proof fn lemma_asignacion_forward(toks: Seq<Token>, st: PState)
    ensures
        moves_forward(toks, st, p_asignacion(toks, st)),
        peek_is(toks, st, TokenType::ID) ==> (p_asignacion(toks, st) matches Parsed::Done { st: s1, .. } ==> left(toks, s1)
            < left(toks, st)),
{
    if let Some(token) = peek(toks, st) {
        let (st1, matched) = match_tok(toks, st, TokenType::ID, false);
        if !matched {
            let st2 = crate::parse_model::push_err(st1, crate::parse_model::perr(
                "Se esperaba un identificador"@, Some(seq![TokenType::ID]), Some(token)));
            lemma_advance_until(toks, st2, TokenType::SCOL);
        } else if let Some(t) = peek(toks, st1) {
            if !(t.token_type == TokenType::INC || t.token_type == TokenType::DEC) {
                let (st2, ok) = match_tok(toks, st1, TokenType::ASSIGN, false);
                if !ok {
                    let st3 = crate::parse_model::push_err(st2, crate::parse_model::perr(
                        "Se esperaba '='"@, Some(seq![TokenType::ASSIGN]), peek(toks, st2)));
                    lemma_advance_until(toks, st3, TokenType::SCOL);
                } else {
                    lemma_sent_expresion_forward(toks, st2);
                }
            }
        }
    }
}

pub proof fn lemma_sent_in_forward(toks: Seq<Token>, st: PState)
    ensures
        moves_forward(toks, st, p_sent_in(toks, st)),
        peek_is(toks, st, TokenType::STDIN) ==> (p_sent_in(toks, st) matches Parsed::Done { st: s1, .. } ==> left(toks, s1)
            < left(toks, st)),
{
    let st1 = match_tok(toks, st, TokenType::STDIN, true).0;
    let st2 = match_tok(toks, st1, TokenType::ID, true).0;
    lemma_advance_until(toks, st2, TokenType::SCOL);
}

pub proof fn lemma_sent_out_forward(toks: Seq<Token>, st: PState)
    ensures
        moves_forward(toks, st, p_sent_out(toks, st)),
        peek_is(toks, st, TokenType::STDOUT) ==> (p_sent_out(toks, st) matches Parsed::Done { st: s1, .. } ==> left(toks, s1)
            < left(toks, st)),
{
    let st1 = match_tok(toks, st, TokenType::STDOUT, true).0;
    lemma_expresion_forward(toks, st1);
    if let Parsed::Done { st: st2, tree } = p_expresion(toks, st1) {
        if tree is None {
            let st3 = crate::parse_model::push_err(st2, crate::parse_model::perr(
                "Se esperaba una expresion"@, None, peek(toks, st2)));
            lemma_advance_until(toks, st3, TokenType::SCOL);
        }
    }
}

pub proof fn lemma_ident_rest_forward(toks: Seq<Token>, st: PState, typ: crate::structures::ExpType)
    ensures
        left(toks, p_ident_rest(toks, st, typ).0) <= left(toks, st),
    decreases left(toks, st),
{
    if peek_is(toks, st, TokenType::COMMA) {
        let st1 = match_tok(toks, st, TokenType::COMMA, true).0;
        let (st2, ok) = match_tok(toks, st1, TokenType::ID, true);
        if ok && peek(toks, st1) is Some {
            lemma_ident_rest_forward(toks, st2, typ);
        }
    }
}

pub proof fn lemma_declaracion_variable_forward(toks: Seq<Token>, st: PState)
    ensures
        p_declaracion_variable(toks, st) matches Parsed::Done { st: s1, .. } ==> left(toks, s1) < left(toks, st),
{
    if let Some(t) = peek(toks, st) {
        let st1 = match_tok(toks, st, t.token_type, true).0;
        let typ = crate::parse_model::decl_type(t.token_type);
        if let Some(_) = peek(toks, st1) {
            let st2 = match_tok(toks, st1, TokenType::ID, true).0;
            lemma_ident_rest_forward(toks, st2, typ);
        }
    }
}

/// Reading a list of statements never moves backwards; a list that yields a
/// statement where it started with none has consumed a token.
pub proof fn lemma_lista_sentencias_forward(toks: Seq<Token>, st: PState)
    ensures
        moves_forward(toks, st, p_lista_sentencias(toks, st)),
        p_lista_sentencias(toks, st) matches Parsed::Done { st: s1, tree: Some(_) } ==> left(toks, s1) < left(toks, st),
    decreases left(toks, st), 4nat,
{
    lemma_sent_loop_forward(toks, st, None);
}

pub proof fn lemma_sent_loop_forward(toks: Seq<Token>, st: PState, acc: Option<TreeV>)
    ensures
        moves_forward(toks, st, p_sent_loop(toks, st, acc)),
        p_sent_loop(toks, st, acc) matches Parsed::Done { tree, .. } ==> (acc is Some ==> tree is Some),
        p_sent_loop(toks, st, acc) matches Parsed::Done { st: s1, tree } ==> (acc is None && tree is Some ==> left(toks, s1)
            < left(toks, st)),
    decreases left(toks, st), 3nat,
{
    if st.pos < toks.len() {
        lemma_sentencia_forward(toks, st);
        if let Parsed::Done { st: st1, tree } = p_sentencia(toks, st) {
            let acc1 = match tree {
                Some(n) => crate::parse_model::append_opt(acc, n),
                None => acc,
            };
            if left(toks, st1) < left(toks, st) {
                lemma_sent_loop_forward(toks, st1, acc1);
            }
        }
    }
}

/// A statement that yields a tree or reports an error has consumed a token.
pub proof fn lemma_sentencia_forward(toks: Seq<Token>, st: PState)
    ensures
        moves_forward(toks, st, p_sentencia(toks, st)),
        p_sentencia(toks, st) matches Parsed::Done { st: s1, tree } ==> (tree is Some || s1.errs.len() != st.errs.len()
            ==> left(toks, s1) < left(toks, st)),
    decreases left(toks, st), 2nat,
{
    if let Some(t) = peek(toks, st) {
        let tt = t.token_type;
        if tt == TokenType::IF {
            lemma_seleccion_forward(toks, st);
        } else if tt == TokenType::WHILE {
            lemma_iteracion_forward(toks, st);
        } else if tt == TokenType::DO {
            lemma_repeticion_forward(toks, st);
        } else if tt == TokenType::STDIN {
            lemma_sent_in_forward(toks, st);
        } else if tt == TokenType::STDOUT {
            lemma_sent_out_forward(toks, st);
        } else if tt == TokenType::ID {
            lemma_asignacion_forward(toks, st);
        } else if tt == TokenType::INTEGER || tt == TokenType::DOUBLE {
            lemma_declaracion_variable_forward(toks, st);
        }
    }
}

pub proof fn lemma_seleccion_forward(toks: Seq<Token>, st: PState)
    ensures
        moves_forward(toks, st, p_seleccion(toks, st)),
        peek_is(toks, st, TokenType::IF) ==> (p_seleccion(toks, st) matches Parsed::Done { st: s1, .. } ==> left(toks, s1)
            < left(toks, st)),
    decreases left(toks, st), 1nat,
{
    let (st0, matched) = match_tok(toks, st, TokenType::IF, false);
    if matched {
        lemma_expresion_forward(toks, st0);
        if let Parsed::Done { st: st2, tree: condition } = p_expresion(toks, st0) {
            match condition {
                None => {
                    let st3 = crate::parse_model::push_err(st2, crate::parse_model::perr(
                        "Se esperaba una expresión como condición del if"@, None, peek(toks, st2)));
                    lemma_skip_if(toks, st3);
                },
                Some(_) => {
                    let (st3, ok) = match_tok(toks, st2, TokenType::LBRA, false);
                    if !ok {
                        let st4 = crate::parse_model::push_err(st3, crate::parse_model::perr(
                            "Se esperaba '{'"@, None, peek(toks, st3)));
                        lemma_skip_if(toks, st4);
                    } else if left(toks, st3) < left(toks, st) {
                        lemma_lista_sentencias_forward(toks, st3);
                        if let Parsed::Done { st: st4, .. } = p_lista_sentencias(toks, st3) {
                            let (st5, ok2) = match_tok(toks, st4, TokenType::RBRA, false);
                            if !ok2 {
                                let st6 = crate::parse_model::push_err(st5, crate::parse_model::perr(
                                    "Se esperaba '}'"@, Some(seq![TokenType::RBRA]), peek(toks, st5)));
                                lemma_skip_if(toks, st6);
                            } else if peek_is(toks, st5, TokenType::ELSE) {
                                let st6 = match_tok(toks, st5, TokenType::ELSE, true).0;
                                let (st7, ok3) = match_tok(toks, st6, TokenType::LBRA, false);
                                if !ok3 {
                                    lemma_advance_until(toks, crate::parse_model::push_err(st7, crate::parse_model::perr(
                                        "Se esperaba '{' después del 'else'"@, None, peek(toks, st7))), TokenType::RBRA);
                                } else if left(toks, st7) < left(toks, st) {
                                    lemma_lista_sentencias_forward(toks, st7);
                                }
                            }
                        }
                    }
                },
            }
        }
    }
}

pub proof fn lemma_iteracion_forward(toks: Seq<Token>, st: PState)
    ensures
        moves_forward(toks, st, p_iteracion(toks, st)),
        peek_is(toks, st, TokenType::WHILE) ==> (p_iteracion(toks, st) matches Parsed::Done { st: s1, .. } ==> left(toks, s1)
            < left(toks, st)),
    decreases left(toks, st), 1nat,
{
    let (st0, matched) = match_tok(toks, st, TokenType::WHILE, false);
    if matched {
        lemma_expresion_forward(toks, st0);
        if let Parsed::Done { st: st2, tree: condition } = p_expresion(toks, st0) {
            match condition {
                None => lemma_advance_until(toks, st2, TokenType::RBRA),
                Some(_) => {
                    let (st3, ok) = match_tok(toks, st2, TokenType::LBRA, false);
                    if !ok {
                        lemma_advance_until(toks, crate::parse_model::push_err(st3, crate::parse_model::perr(
                            "Se esperaba '{'"@, Some(seq![TokenType::LBRA]), peek(toks, st3))), TokenType::RBRA);
                    } else if left(toks, st3) < left(toks, st) {
                        lemma_lista_sentencias_forward(toks, st3);
                        if let Parsed::Done { st: st4, .. } = p_lista_sentencias(toks, st3) {
                            let (st5, ok2) = match_tok(toks, st4, TokenType::RBRA, false);
                            if !ok2 {
                                lemma_advance_until(toks, crate::parse_model::push_err(st5, crate::parse_model::perr(
                                    "Se esperaba '}'"@, Some(seq![TokenType::RBRA]), peek(toks, st5))), TokenType::RBRA);
                            }
                        }
                    }
                },
            }
        }
    }
}

pub proof fn lemma_repeticion_forward(toks: Seq<Token>, st: PState)
    ensures
        moves_forward(toks, st, p_repeticion(toks, st)),
        peek_is(toks, st, TokenType::DO) ==> (p_repeticion(toks, st) matches Parsed::Done { st: s1, .. } ==> left(toks, s1)
            < left(toks, st)),
    decreases left(toks, st), 1nat,
{
    let (st0, matched) = match_tok(toks, st, TokenType::DO, false);
    if matched {
        let (st2, ok) = match_tok(toks, st0, TokenType::LBRA, false);
        if !ok {
            lemma_advance_until(toks, crate::parse_model::push_err(st2, crate::parse_model::perr(
                "Se esperaba '{'"@, Some(seq![TokenType::LBRA]), peek(toks, st2))), TokenType::RBRA);
        } else if left(toks, st2) < left(toks, st) {
            lemma_lista_sentencias_forward(toks, st2);
            if let Parsed::Done { st: st3, .. } = p_lista_sentencias(toks, st2) {
                let (st4, ok2) = match_tok(toks, st3, TokenType::RBRA, false);
                if !ok2 {
                    lemma_advance_until(toks, crate::parse_model::push_err(st4, crate::parse_model::perr(
                        "Se esperaba '}'"@, Some(seq![TokenType::RBRA]), peek(toks, st4))), TokenType::SCOL);
                } else {
                    let (st5, ok3) = match_tok(toks, st4, TokenType::WHILE, false);
                    if !ok3 {
                        lemma_advance_until(toks, crate::parse_model::push_err(st5, crate::parse_model::perr(
                            "Se esperaba 'while'"@, Some(seq![TokenType::WHILE]), peek(toks, st5))), TokenType::SCOL);
                    } else {
                        lemma_expresion_forward(toks, st5);
                        if let Parsed::Done { st: st6, .. } = p_expresion(toks, st5) {
                            lemma_advance_until(toks, st6, TokenType::SCOL);
                        }
                    }
                }
            }
        }
    }
}

// ---------------------------------------------------------------------------
// Declarations and the program
// ---------------------------------------------------------------------------

/// A declaration that yields a tree has consumed a token.
pub proof fn lemma_declaracion_forward(toks: Seq<Token>, st: PState)
    ensures
        moves_forward(toks, st, p_declaracion(toks, st)),
        p_declaracion(toks, st) matches Parsed::Done { st: s1, tree: Some(_) } ==> left(toks, s1) < left(toks, st),
{
    if let Some(t) = peek(toks, st) {
        if t.token_type == TokenType::INTEGER || t.token_type == TokenType::DOUBLE {
            lemma_declaracion_variable_forward(toks, st);
        } else {
            lemma_lista_sentencias_forward(toks, st);
        }
    }
}

pub proof fn lemma_decl_loop_forward(toks: Seq<Token>, st: PState, acc: TreeV)
    ensures
        moves_forward(toks, st, p_decl_loop(toks, st, acc)),
    decreases left(toks, st),
{
    lemma_declaracion_forward(toks, st);
    if let Parsed::Done { st: st1, tree: Some(q) } = p_declaracion(toks, st) {
        if left(toks, st1) < left(toks, st) {
            lemma_decl_loop_forward(toks, st1, crate::parse_model::append_tree(acc, q));
        }
    }
}

pub proof fn lemma_lista_declaracion_forward(toks: Seq<Token>, st: PState)
    ensures
        moves_forward(toks, st, p_lista_declaracion(toks, st)),
{
    lemma_declaracion_forward(toks, st);
    if let Parsed::Done { st: st1, tree: Some(t) } = p_declaracion(toks, st) {
        lemma_decl_loop_forward(toks, st1, t);
    }
}

/// Parsing a program never moves backwards in the token list.
pub proof fn lemma_programa_forward(toks: Seq<Token>, st: PState)
    ensures
        moves_forward(toks, st, p_programa(toks, st)),
{
    let st1 = match_tok(toks, st, TokenType::MAIN, true).0;
    let st2 = match_tok(toks, st1, TokenType::LBRA, true).0;
    lemma_lista_declaracion_forward(toks, st2);
}

} // verus!
