//! The functional model of the parser: each function of the parser is a
//! function from the parser's state to its next state and the tree it
//! builds, or to `Crash` where the parser would stop the program.

use vstd::prelude::*;
use crate::structures::{DeclV, ExpType, ExpV, NodeV, ParseErrorV, StmtV, TreeV};
use crate::text::spec_parse_i32;
use crate::token::{Cursor, Token, TokenType, spec_token_type_name};

verus! {

/// The state of the parser: how many tokens it has consumed, the errors it
/// has recorded and the position of the token consumed last; and, for each
/// token, the value of the float literal it holds (as `NodeValue::Float`
/// writes it), `None` where its text is no float literal.
pub struct PState {
    pub pos: nat,
    pub errs: Seq<ParseErrorV>,
    pub cur: Option<Cursor>,
    pub floats: Seq<Option<Seq<char>>>,
}

/// What a step of the parser comes to.
pub enum Parsed {
    /// The program stops (a token was read that is not there, or the text of
    /// a number literal that was read is no number of its type).
    Crash,
    Done { st: PState, tree: Option<TreeV> },
}

pub open spec fn done(st: PState, tree: Option<TreeV>) -> Parsed {
    Parsed::Done { st, tree }
}

/// The number of tokens not consumed yet.
pub open spec fn left(toks: Seq<Token>, st: PState) -> nat {
    if st.pos < toks.len() { (toks.len() - st.pos) as nat } else { 0 }
}

/// The token to be consumed next.
pub open spec fn peek(toks: Seq<Token>, st: PState) -> Option<Token> {
    if st.pos < toks.len() { Some(toks[st.pos as int]) } else { None }
}

pub open spec fn peek_is(toks: Seq<Token>, st: PState, tt: TokenType) -> bool {
    peek(toks, st) matches Some(t) && t.token_type == tt
}

/// Consumes the next token, if any; the cursor becomes its start (none if
/// there was no token).
pub open spec fn advance(toks: Seq<Token>, st: PState) -> PState {
    if st.pos < toks.len() {
        PState { pos: st.pos + 1, cur: Some(toks[st.pos as int].start), ..st }
    } else {
        PState { cur: None, ..st }
    }
}

pub open spec fn push_err(st: PState, e: ParseErrorV) -> PState {
    PState { errs: st.errs.push(e), ..st }
}

pub open spec fn perr(msg: Seq<char>, expected: Option<Seq<TokenType>>, current: Option<Token>) -> ParseErrorV {
    ParseErrorV { current_token: current, expected_token_type: expected, message: msg }
}

/// The error of a token of the wrong kind.
pub open spec fn mismatch_msg(tt: TokenType) -> Seq<char> {
    "Se esperaba un token del tipo "@ + spec_token_type_name(tt)
}

/// The error of a missing token.
pub open spec fn missing_msg(tt: TokenType) -> Seq<char> {
    "Se esperaba un token del tipo "@ + spec_token_type_name(tt)
        + " pero ya no hay ningún token disponible!"@
}

/// Consumes a token of kind `tt` if it comes next; otherwise records an
/// error (when `handle` is set) and consumes nothing.
pub open spec fn match_tok(toks: Seq<Token>, st: PState, tt: TokenType, handle: bool) -> (PState, bool) {
    match peek(toks, st) {
        Some(t) => if t.token_type != tt {
            (if handle { push_err(st, perr(mismatch_msg(tt), Some(seq![tt]), Some(t))) } else { st }, false)
        } else {
            (advance(toks, st), true)
        },
        None => (if handle { push_err(st, perr(missing_msg(tt), Some(seq![tt]), None)) } else { st }, false),
    }
}

/// Consumes tokens up to and including the first of kind `tt`; says
/// whether one was found.
pub open spec fn advance_until(toks: Seq<Token>, st: PState, tt: TokenType) -> (PState, bool)
    decreases left(toks, st),
{
    if st.pos < toks.len() {
        let st2 = advance(toks, st);
        if toks[st.pos as int].token_type == tt {
            (st2, true)
        } else {
            advance_until(toks, st2, tt)
        }
    } else {
        (advance(toks, st), false)
    }
}

pub open spec fn skip_to(toks: Seq<Token>, st: PState, tt: TokenType) -> PState {
    advance_until(toks, st, tt).0
}

/// A node without siblings.
pub open spec fn leaf(n: NodeV) -> TreeV {
    TreeV { sibling: None, node: n }
}

pub open spec fn exp(kind: ExpV, cursor: Option<Cursor>) -> TreeV {
    leaf(NodeV::Exp { kind, typ: ExpType::Void, cursor, val: None })
}

pub open spec fn stmt(kind: StmtV, cursor: Option<Cursor>) -> TreeV {
    leaf(NodeV::Stmt { kind, cursor })
}

pub open spec fn binop(op: TokenType, l: TreeV, r: TreeV, cursor: Option<Cursor>) -> TreeV {
    exp(ExpV::Op { op, left: Box::new(l), right: Some(Box::new(r)) }, cursor)
}

/// The list `a` followed by the list `b`.
pub open spec fn append_tree(a: TreeV, b: TreeV) -> TreeV
    decreases a,
{
    match a.sibling {
        None => TreeV { sibling: Some(Box::new(b)), node: a.node },
        Some(s) => TreeV { sibling: Some(Box::new(append_tree(*s, b))), node: a.node },
    }
}

pub open spec fn append_opt(a: Option<TreeV>, b: TreeV) -> Option<TreeV> {
    match a {
        None => Some(b),
        Some(x) => Some(append_tree(x, b)),
    }
}

pub open spec fn boxed(t: Option<TreeV>) -> Option<Box<TreeV>> {
    match t {
        Some(x) => Some(Box::new(x)),
        None => None,
    }
}

// ---------------------------------------------------------------------------
// Program and declarations
// ---------------------------------------------------------------------------

/// programa -> main { lista_declaracion }
pub open spec fn p_programa(toks: Seq<Token>, st: PState) -> Parsed {
    let (st1, ok1) = match_tok(toks, st, TokenType::MAIN, true);
    if !ok1 {
        done(st1, None)
    } else {
        let (st2, ok2) = match_tok(toks, st1, TokenType::LBRA, true);
        if !ok2 {
            done(st2, None)
        } else {
            match p_lista_declaracion(toks, st2) {
                Parsed::Crash => Parsed::Crash,
                Parsed::Done { st: st3, tree: root } => {
                    let current = peek(toks, st3);
                    let (st4, is_rbra) = match_tok(toks, st3, TokenType::RBRA, true);
                    let st5 = if !is_rbra {
                        push_err(st4, perr("Falta cerrar la llave del main!"@, None, current))
                    } else {
                        st4
                    };
                    let st6 = match peek(toks, st5) {
                        Some(t) => push_err(st5, perr("No se puede escribir fuera del cuerpo del main!"@, None, Some(t))),
                        None => st5,
                    };
                    done(st6, root)
                },
            }
        }
    }
}

/// lista_declaracion -> declaracion+
pub open spec fn p_lista_declaracion(toks: Seq<Token>, st: PState) -> Parsed {
    match p_declaracion(toks, st) {
        Parsed::Crash => Parsed::Crash,
        Parsed::Done { st: st1, tree } => match tree {
            None => done(st1, None),
            Some(t) => if left(toks, st1) < left(toks, st) { p_decl_loop(toks, st1, t) } else { done(st1, Some(t)) },
        },
    }
}

/// Appends declarations to `acc` while one can be read.
pub open spec fn p_decl_loop(toks: Seq<Token>, st: PState, acc: TreeV) -> Parsed
    decreases left(toks, st),
{
    match p_declaracion(toks, st) {
        Parsed::Crash => Parsed::Crash,
        Parsed::Done { st: st1, tree } => match tree {
            None => done(st1, Some(acc)),
            Some(q) => if left(toks, st1) < left(toks, st) {
                p_decl_loop(toks, st1, append_tree(acc, q))
            } else {
                done(st1, Some(append_tree(acc, q)))
            },
        },
    }
}

/// declaracion -> declaracion_variable | lista_sentencias
pub open spec fn p_declaracion(toks: Seq<Token>, st: PState) -> Parsed {
    match peek(toks, st) {
        Some(t) => if t.token_type == TokenType::INTEGER || t.token_type == TokenType::DOUBLE {
            p_declaracion_variable(toks, st)
        } else {
            p_lista_sentencias(toks, st)
        },
        None => done(st, None),
    }
}

pub open spec fn decl_type(tt: TokenType) -> ExpType {
    if tt == TokenType::INTEGER {
        ExpType::Integer
    } else if tt == TokenType::DOUBLE {
        ExpType::Float
    } else {
        ExpType::Void
    }
}

/// declaracion_variable -> tipo identificador ;
/// (entered on a token of kind `INTEGER` or `DOUBLE`)
pub open spec fn p_declaracion_variable(toks: Seq<Token>, st: PState) -> Parsed {
    match peek(toks, st) {
        None => Parsed::Crash,
        Some(t) => {
            let (st1, _) = match_tok(toks, st, t.token_type, true);
            let (st2, node) = p_identificador(toks, st1, decl_type(t.token_type));
            let (st3, _) = match_tok(toks, st2, TokenType::SCOL, true);
            done(st3, node)
        },
    }
}

pub open spec fn decl(typ: ExpType, name: Seq<char>, cursor: Option<Cursor>, sibling: Option<Box<TreeV>>) -> TreeV {
    TreeV { sibling, node: NodeV::Decl { kind: DeclV::Var { typ, name }, cursor } }
}

/// identificador -> id (, id)*
pub open spec fn p_identificador(toks: Seq<Token>, st: PState, typ: ExpType) -> (PState, Option<TreeV>) {
    match peek(toks, st) {
        None => (st, None),
        Some(token) => {
            let (st1, ok) = match_tok(toks, st, TokenType::ID, true);
            if !ok {
                (st1, None)
            } else {
                let (st2, rest) = p_ident_rest(toks, st1, typ);
                (st2, Some(decl(typ, token.lexemme@, st1.cur, rest)))
            }
        },
    }
}

/// The declarations after the first one, each after a comma.
pub open spec fn p_ident_rest(toks: Seq<Token>, st: PState, typ: ExpType) -> (PState, Option<Box<TreeV>>)
    decreases left(toks, st),
{
    if peek_is(toks, st, TokenType::COMMA) {
        let (st1, _) = match_tok(toks, st, TokenType::COMMA, true);
        let token_op = peek(toks, st1);
        let (st2, ok) = match_tok(toks, st1, TokenType::ID, true);
        if !ok || token_op is None {
            (st2, None)
        } else {
            let (st3, rest) = p_ident_rest(toks, st2, typ);
            (st3, Some(Box::new(decl(typ, token_op.unwrap().lexemme@, st2.cur, rest))))
        }
    } else {
        (st, None)
    }
}

// ---------------------------------------------------------------------------
// Statements
// ---------------------------------------------------------------------------

/// lista_sentencias -> sentencia*
pub open spec fn p_lista_sentencias(toks: Seq<Token>, st: PState) -> Parsed
    decreases left(toks, st), 4nat,
{
    p_sent_loop(toks, st, None)
}

/// Reads statements while tokens remain, going on past a statement that
/// failed with an error and stopping at one that failed without error.
pub open spec fn p_sent_loop(toks: Seq<Token>, st: PState, acc: Option<TreeV>) -> Parsed
    decreases left(toks, st), 3nat,
{
    if st.pos >= toks.len() {
        done(st, acc)
    } else {
        match p_sentencia(toks, st) {
            Parsed::Crash => Parsed::Crash,
            Parsed::Done { st: st1, tree } => {
                let acc1 = match tree {
                    Some(n) => append_opt(acc, n),
                    None => acc,
                };
                let go_on = tree is Some || st1.errs.len() != st.errs.len();
                if !go_on {
                    done(st1, acc)
                } else if left(toks, st1) < left(toks, st) {
                    p_sent_loop(toks, st1, acc1)
                } else {
                    done(st1, acc1)
                }
            },
        }
    }
}

pub open spec fn bad_stmt_msg() -> Seq<char> {
    "Mala sentencia, se esperaba uno de los siguientes tokens: IF, WHILE, DO, STDIN, STDOUT, ID"@
}

/// sentencia -> seleccion | iteracion | repeticion | sent_in | sent_out | asignacion
pub open spec fn p_sentencia(toks: Seq<Token>, st: PState) -> Parsed
    decreases left(toks, st), 2nat,
{
    match peek(toks, st) {
        None => done(st, None),
        Some(t) => {
            let tt = t.token_type;
            if tt == TokenType::IF {
                p_seleccion(toks, st)
            } else if tt == TokenType::WHILE {
                p_iteracion(toks, st)
            } else if tt == TokenType::DO {
                p_repeticion(toks, st)
            } else if tt == TokenType::STDIN {
                p_sent_in(toks, st)
            } else if tt == TokenType::STDOUT {
                p_sent_out(toks, st)
            } else if tt == TokenType::ID {
                p_asignacion(toks, st)
            } else if tt == TokenType::INTEGER || tt == TokenType::DOUBLE {
                p_declaracion_variable(toks, st)
            } else if tt != TokenType::RBRA {
                let st1 = push_err(st, perr(bad_stmt_msg(), Some(seq![TokenType::IF, TokenType::WHILE,
                    TokenType::DO, TokenType::STDIN, TokenType::STDOUT, TokenType::ID]), Some(t)));
                done(advance(toks, st1), None)
            } else {
                done(st, None)
            }
        },
    }
}

/// The assignment `name = name op 1` that `name++;` and `name--;` stand for.
pub open spec fn step_assign(name: Seq<char>, op: TokenType, cursor: Option<Cursor>) -> TreeV {
    stmt(StmtV::Assign {
        name,
        value: Box::new(binop(op, exp(ExpV::Id { name }, cursor), exp(ExpV::Const { value: 1 }, None), cursor)),
    }, cursor)
}

pub open spec fn step_op(tt: TokenType) -> TokenType {
    if tt == TokenType::INC { TokenType::SUM } else { TokenType::MIN }
}

/// asignacion -> id = sent_expresion | id ++ ; | id -- ;
/// (entered on a token of kind `ID`)
pub open spec fn p_asignacion(toks: Seq<Token>, st: PState) -> Parsed {
    match peek(toks, st) {
        None => Parsed::Crash,
        Some(token) => {
            let name = token.lexemme@;
            let (st1, matched) = match_tok(toks, st, TokenType::ID, false);
            if !matched {
                let st2 = push_err(st1, perr("Se esperaba un identificador"@, Some(seq![TokenType::ID]), Some(token)));
                done(skip_to(toks, st2, TokenType::SCOL), None)
            } else {
                let cursor = st1.cur;
                match peek(toks, st1) {
                    None => done(st1, None),
                    Some(t) => if t.token_type == TokenType::INC || t.token_type == TokenType::DEC {
                        let (st2, _) = match_tok(toks, st1, t.token_type, true);
                        let (st3, _) = match_tok(toks, st2, TokenType::SCOL, true);
                        done(st3, Some(step_assign(name, step_op(t.token_type), cursor)))
                    } else {
                        let (st2, ok) = match_tok(toks, st1, TokenType::ASSIGN, false);
                        if !ok {
                            let st3 = push_err(st2, perr("Se esperaba '='"@, Some(seq![TokenType::ASSIGN]), peek(toks, st2)));
                            done(skip_to(toks, st3, TokenType::SCOL), None)
                        } else {
                            match p_sent_expresion(toks, st2) {
                                Parsed::Crash => Parsed::Crash,
                                Parsed::Done { st: st3, tree } => match tree {
                                    None => done(st3, None),
                                    Some(v) => done(st3, Some(stmt(StmtV::Assign { name, value: Box::new(v) }, cursor))),
                                },
                            }
                        }
                    },
                }
            }
        },
    }
}

/// sent_expresion -> expresion ;
pub open spec fn p_sent_expresion(toks: Seq<Token>, st: PState) -> Parsed {
    match p_expresion(toks, st) {
        Parsed::Crash => Parsed::Crash,
        Parsed::Done { st: st1, tree } => match tree {
            None => done(skip_to(toks, st1, TokenType::SCOL), None),
            Some(n) => {
                let (st2, ok) = match_tok(toks, st1, TokenType::SCOL, false);
                if !ok {
                    done(push_err(st2, perr("Se esperaba ';'"@, Some(seq![TokenType::SCOL]), peek(toks, st2))), Some(n))
                } else {
                    done(st2, Some(n))
                }
            },
        },
    }
}

/// Skips to the end of the block, and of an `else` block after it.
pub open spec fn skip_if(toks: Seq<Token>, st: PState) -> PState {
    let st1 = skip_to(toks, st, TokenType::RBRA);
    if peek_is(toks, st1, TokenType::ELSE) {
        skip_to(toks, st1, TokenType::RBRA)
    } else {
        st1
    }
}

/// seleccion -> if expresion { lista_sentencias } [else { lista_sentencias }]
/// (entered on a token of kind `IF`)
pub open spec fn p_seleccion(toks: Seq<Token>, st: PState) -> Parsed
    decreases left(toks, st), 1nat,
{
    let (st0, matched) = match_tok(toks, st, TokenType::IF, false);
    if !matched {
        done(push_err(st0, perr("Se esperaba 'if'"@, Some(seq![TokenType::IF]), peek(toks, st0))), None)
    } else {
    let st1 = st0;
    let cursor = st1.cur;
    match p_expresion(toks, st1) {
        Parsed::Crash => Parsed::Crash,
        Parsed::Done { st: st2, tree: condition } => match condition {
            None => {
                let st3 = push_err(st2, perr("Se esperaba una expresión como condición del if"@, None, peek(toks, st2)));
                done(skip_if(toks, st3), None)
            },
            Some(cond) => {
                let (st3, ok) = match_tok(toks, st2, TokenType::LBRA, false);
                if !ok {
                    let st4 = push_err(st3, perr("Se esperaba '{'"@, None, peek(toks, st3)));
                    done(skip_if(toks, st4), None)
                } else if left(toks, st3) >= left(toks, st) {
                    Parsed::Crash
                } else {
                    match p_lista_sentencias(toks, st3) {
                        Parsed::Crash => Parsed::Crash,
                        Parsed::Done { st: st4, tree: then_branch } => {
                            let (st5, ok2) = match_tok(toks, st4, TokenType::RBRA, false);
                            if !ok2 {
                                let st6 = push_err(st5, perr("Se esperaba '}'"@, Some(seq![TokenType::RBRA]), peek(toks, st5)));
                                done(skip_if(toks, st6), None)
                            } else if peek_is(toks, st5, TokenType::ELSE) {
                                let (st6, _) = match_tok(toks, st5, TokenType::ELSE, true);
                                let (st7, ok3) = match_tok(toks, st6, TokenType::LBRA, false);
                                if !ok3 {
                                    let st8 = push_err(st7, perr("Se esperaba '{' después del 'else'"@, None, peek(toks, st7)));
                                    done(skip_to(toks, st8, TokenType::RBRA), None)
                                } else if left(toks, st7) >= left(toks, st) {
                                    Parsed::Crash
                                } else {
                                    match p_lista_sentencias(toks, st7) {
                                        Parsed::Crash => Parsed::Crash,
                                        Parsed::Done { st: st8, tree: else_branch } => {
                                            let (st9, ok4) = match_tok(toks, st8, TokenType::RBRA, false);
                                            if !ok4 {
                                                done(push_err(st9, perr("Se esperaba '}' después del bloque 'else'"@,
                                                    Some(seq![TokenType::RBRA]), peek(toks, st9))), None)
                                            } else {
                                                done(st9, Some(stmt(StmtV::If {
                                                    condition: Box::new(cond),
                                                    then_branch: boxed(then_branch),
                                                    else_branch: boxed(else_branch),
                                                }, cursor)))
                                            }
                                        },
                                    }
                                }
                            } else {
                                done(st5, Some(stmt(StmtV::If {
                                    condition: Box::new(cond),
                                    then_branch: boxed(then_branch),
                                    else_branch: None,
                                }, cursor)))
                            }
                        },
                    }
                }
            },
        },
    }
    }
}

/// iteracion -> while expresion { lista_sentencias }
/// (entered on a token of kind `WHILE`)
pub open spec fn p_iteracion(toks: Seq<Token>, st: PState) -> Parsed
    decreases left(toks, st), 1nat,
{
    let (st0, matched) = match_tok(toks, st, TokenType::WHILE, false);
    if !matched {
        done(push_err(st0, perr("Se esperaba 'while'"@, Some(seq![TokenType::WHILE]), peek(toks, st0))), None)
    } else {
    let st1 = st0;
    let cursor = st1.cur;
    match p_expresion(toks, st1) {
        Parsed::Crash => Parsed::Crash,
        Parsed::Done { st: st2, tree: condition } => match condition {
            None => done(skip_to(toks, st2, TokenType::RBRA), None),
            Some(cond) => {
                let (st3, ok) = match_tok(toks, st2, TokenType::LBRA, false);
                if !ok {
                    let st4 = push_err(st3, perr("Se esperaba '{'"@, Some(seq![TokenType::LBRA]), peek(toks, st3)));
                    done(skip_to(toks, st4, TokenType::RBRA), None)
                } else if left(toks, st3) >= left(toks, st) {
                    Parsed::Crash
                } else {
                    match p_lista_sentencias(toks, st3) {
                        Parsed::Crash => Parsed::Crash,
                        Parsed::Done { st: st4, tree: body } => {
                            let (st5, ok2) = match_tok(toks, st4, TokenType::RBRA, false);
                            if !ok2 {
                                let st6 = push_err(st5, perr("Se esperaba '}'"@, Some(seq![TokenType::RBRA]), peek(toks, st5)));
                                done(skip_to(toks, st6, TokenType::RBRA), None)
                            } else {
                                done(st5, Some(stmt(StmtV::While { condition: Box::new(cond), body: boxed(body) }, cursor)))
                            }
                        },
                    }
                }
            },
        },
    }
    }
}

/// repeticion -> do { lista_sentencias } while expresion ;
/// (entered on a token of kind `DO`)
pub open spec fn p_repeticion(toks: Seq<Token>, st: PState) -> Parsed
    decreases left(toks, st), 1nat,
{
    let (st0, matched) = match_tok(toks, st, TokenType::DO, false);
    if !matched {
        done(push_err(st0, perr("Se esperaba 'do'"@, Some(seq![TokenType::DO]), peek(toks, st0))), None)
    } else {
    let st1 = st0;
    let cursor = st1.cur;
    let (st2, ok) = match_tok(toks, st1, TokenType::LBRA, false);
    if !ok {
        let st3 = push_err(st2, perr("Se esperaba '{'"@, Some(seq![TokenType::LBRA]), peek(toks, st2)));
        done(skip_to(toks, st3, TokenType::RBRA), None)
    } else if left(toks, st2) >= left(toks, st) {
        Parsed::Crash
    } else {
        match p_lista_sentencias(toks, st2) {
            Parsed::Crash => Parsed::Crash,
            Parsed::Done { st: st3, tree: body } => {
                let (st4, ok2) = match_tok(toks, st3, TokenType::RBRA, false);
                if !ok2 {
                    let st5 = push_err(st4, perr("Se esperaba '}'"@, Some(seq![TokenType::RBRA]), peek(toks, st4)));
                    done(skip_to(toks, st5, TokenType::SCOL), None)
                } else {
                    let (st5, ok3) = match_tok(toks, st4, TokenType::WHILE, false);
                    if !ok3 {
                        let st6 = push_err(st5, perr("Se esperaba 'while'"@, Some(seq![TokenType::WHILE]), peek(toks, st5)));
                        done(skip_to(toks, st6, TokenType::SCOL), None)
                    } else {
                        match p_expresion(toks, st5) {
                            Parsed::Crash => Parsed::Crash,
                            Parsed::Done { st: st6, tree: condition } => match condition {
                                None => done(skip_to(toks, st6, TokenType::SCOL), None),
                                Some(cond) => {
                                    let (st7, _) = match_tok(toks, st6, TokenType::SCOL, false);
                                    done(st7, Some(stmt(StmtV::Do { body: boxed(body), condition: Box::new(cond) }, cursor)))
                                },
                            },
                        }
                    }
                }
            },
        }
    }
    }
}

/// sent_in -> cin id ;
pub open spec fn p_sent_in(toks: Seq<Token>, st: PState) -> Parsed {
    let (st1, _) = match_tok(toks, st, TokenType::STDIN, true);
    let cursor = st1.cur;
    let current = peek(toks, st1);
    let (st2, ok) = match_tok(toks, st1, TokenType::ID, true);
    if !ok {
        done(skip_to(toks, st2, TokenType::SCOL), None)
    } else {
        match current {
            None => done(st2, None),
            Some(t) => {
                let (st3, _) = match_tok(toks, st2, TokenType::SCOL, true);
                done(st3, Some(stmt(StmtV::In { name: t.lexemme@ }, cursor)))
            },
        }
    }
}

/// sent_out -> cout expresion ;
pub open spec fn p_sent_out(toks: Seq<Token>, st: PState) -> Parsed {
    let (st1, _) = match_tok(toks, st, TokenType::STDOUT, true);
    let cursor = st1.cur;
    match p_expresion(toks, st1) {
        Parsed::Crash => Parsed::Crash,
        Parsed::Done { st: st2, tree } => match tree {
            None => {
                let st3 = push_err(st2, perr("Se esperaba una expresion"@, None, peek(toks, st2)));
                done(skip_to(toks, st3, TokenType::SCOL), None)
            },
            Some(e) => {
                let (st3, _) = match_tok(toks, st2, TokenType::SCOL, true);
                done(st3, Some(stmt(StmtV::Out { expression: Box::new(e) }, cursor)))
            },
        },
    }
}

// ---------------------------------------------------------------------------
// Expressions
// ---------------------------------------------------------------------------

/// expresion -> expresion_and [OR expresion_and]
pub open spec fn p_expresion(toks: Seq<Token>, st: PState) -> Parsed
    decreases left(toks, st), 12nat,
{
    match p_and(toks, st) {
        Parsed::Crash => Parsed::Crash,
        Parsed::Done { st: st1, tree } => match tree {
            None => done(st1, None),
            Some(node) => if peek_is(toks, st1, TokenType::OR) {
                let (st2, _) = match_tok(toks, st1, TokenType::OR, true);
                let cursor = st2.cur;
                if left(toks, st2) >= left(toks, st) {
                    Parsed::Crash
                } else {
                    match p_and(toks, st2) {
                        Parsed::Crash => Parsed::Crash,
                        Parsed::Done { st: st3, tree: right } => match right {
                            None => done(st3, None),
                            Some(r) => done(st3, Some(binop(TokenType::OR, node, r, cursor))),
                        },
                    }
                }
            } else {
                done(st1, Some(node))
            },
        },
    }
}

/// expresion_and -> expresion_not [AND expresion_not]
pub open spec fn p_and(toks: Seq<Token>, st: PState) -> Parsed
    decreases left(toks, st), 11nat,
{
    match p_not(toks, st) {
        Parsed::Crash => Parsed::Crash,
        Parsed::Done { st: st1, tree } => match tree {
            None => done(st1, None),
            Some(node) => if peek_is(toks, st1, TokenType::AND) {
                let (st2, _) = match_tok(toks, st1, TokenType::AND, true);
                let cursor = st2.cur;
                if left(toks, st2) >= left(toks, st) {
                    Parsed::Crash
                } else {
                    match p_not(toks, st2) {
                        Parsed::Crash => Parsed::Crash,
                        Parsed::Done { st: st3, tree: right } => match right {
                            None => done(st3, None),
                            Some(r) => done(st3, Some(binop(TokenType::AND, node, r, cursor))),
                        },
                    }
                }
            } else {
                done(st1, Some(node))
            },
        },
    }
}

/// expresion_not -> NOT expresion_rel | expresion_rel
pub open spec fn p_not(toks: Seq<Token>, st: PState) -> Parsed
    decreases left(toks, st), 10nat,
{
    match peek(toks, st) {
        None => done(st, None),
        Some(t) => if t.token_type == TokenType::NEG {
            let (st1, _) = match_tok(toks, st, TokenType::NEG, true);
            let cursor = st1.cur;
            match p_rel(toks, st1) {
                Parsed::Crash => Parsed::Crash,
                Parsed::Done { st: st2, tree } => match tree {
                    None => done(st2, None),
                    Some(l) => done(st2, Some(exp(ExpV::Op { op: TokenType::NEG, left: Box::new(l), right: None }, cursor))),
                },
            }
        } else {
            p_rel(toks, st)
        },
    }
}

pub open spec fn is_rel_op(tt: TokenType) -> bool {
    tt == TokenType::LT || tt == TokenType::LE || tt == TokenType::GT || tt == TokenType::GE
        || tt == TokenType::EQ || tt == TokenType::NE
}

/// expresion_rel -> expresion_simple [relop expresion_simple]
pub open spec fn p_rel(toks: Seq<Token>, st: PState) -> Parsed
    decreases left(toks, st), 9nat,
{
    match p_simple(toks, st) {
        Parsed::Crash => Parsed::Crash,
        Parsed::Done { st: st1, tree } => match tree {
            None => done(st1, None),
            Some(node) => match peek(toks, st1) {
                Some(t) => if is_rel_op(t.token_type) {
                    let (st2, _) = match_tok(toks, st1, t.token_type, true);
                    let cursor = st2.cur;
                    if left(toks, st2) >= left(toks, st) {
                        Parsed::Crash
                    } else {
                        match p_simple(toks, st2) {
                            Parsed::Crash => Parsed::Crash,
                            Parsed::Done { st: st3, tree: right } => match right {
                                None => done(st3, None),
                                Some(r) => done(st3, Some(binop(t.token_type, node, r, cursor))),
                            },
                        }
                    }
                } else {
                    done(st1, Some(node))
                },
                None => done(st1, Some(node)),
            },
        },
    }
}

/// Whether a lexeme holds a sign.
pub open spec fn has_sign(s: Seq<char>) -> bool {
    s.contains('+') || s.contains('-')
}

/// expresion_simple -> termino ((+|-) termino | signed-number)*
pub open spec fn p_simple(toks: Seq<Token>, st: PState) -> Parsed
    decreases left(toks, st), 8nat,
{
    match p_termino(toks, st) {
        Parsed::Crash => Parsed::Crash,
        Parsed::Done { st: st1, tree } => match tree {
            None => done(st1, None),
            Some(node) => if left(toks, st1) > left(toks, st) {
                Parsed::Crash
            } else {
                p_simple_loop(toks, st1, node)
            },
        },
    }
}

pub open spec fn p_simple_loop(toks: Seq<Token>, st: PState, node: TreeV) -> Parsed
    decreases left(toks, st), 7nat,
{
    match peek(toks, st) {
        None => Parsed::Crash,
        Some(curr) => {
            let op = curr.token_type;
            if op == TokenType::SUM || op == TokenType::MIN {
                let (st1, _) = match_tok(toks, st, op, true);
                let cursor = st1.cur;
                match p_termino(toks, st1) {
                    Parsed::Crash => Parsed::Crash,
                    Parsed::Done { st: st2, tree } => match tree {
                        None => done(st2, None),
                        Some(r) => if left(toks, st2) < left(toks, st) {
                            p_simple_loop(toks, st2, binop(op, node, r, cursor))
                        } else {
                            Parsed::Crash
                        },
                    },
                }
            } else if op == TokenType::INT || op == TokenType::FLOAT {
                if has_sign(curr.lexemme@) {
                    let cursor = st.cur;
                    match p_termino(toks, st) {
                        Parsed::Crash => Parsed::Crash,
                        Parsed::Done { st: st2, tree } => match tree {
                            None => done(st2, None),
                            Some(r) => if left(toks, st2) < left(toks, st) {
                                p_simple_loop(toks, st2, binop(TokenType::SUM, node, r, cursor))
                            } else {
                                Parsed::Crash
                            },
                        },
                    }
                } else {
                    done(push_err(st, perr("Se esperaba un símbolo de suma o resta"@,
                        Some(seq![TokenType::SUM, TokenType::MIN]), Some(curr))), None)
                }
            } else {
                done(st, Some(node))
            }
        },
    }
}

pub open spec fn is_mult_op(tt: TokenType) -> bool {
    tt == TokenType::TIMES || tt == TokenType::DIV || tt == TokenType::MODULUS
}

/// termino -> factor ((*|/|%) factor)*
pub open spec fn p_termino(toks: Seq<Token>, st: PState) -> Parsed
    decreases left(toks, st), 6nat,
{
    match p_factor(toks, st) {
        Parsed::Crash => Parsed::Crash,
        Parsed::Done { st: st1, tree } => match tree {
            None => done(st1, None),
            Some(node) => if left(toks, st1) > left(toks, st) {
                Parsed::Crash
            } else {
                p_term_loop(toks, st1, node)
            },
        },
    }
}

pub open spec fn p_term_loop(toks: Seq<Token>, st: PState, node: TreeV) -> Parsed
    decreases left(toks, st), 5nat,
{
    match peek(toks, st) {
        None => Parsed::Crash,
        Some(curr) => if is_mult_op(curr.token_type) {
            let op = curr.token_type;
            let (st1, _) = match_tok(toks, st, op, true);
            let cursor = st1.cur;
            match p_factor(toks, st1) {
                Parsed::Crash => Parsed::Crash,
                Parsed::Done { st: st2, tree } => match tree {
                    None => done(st2, None),
                    Some(r) => if left(toks, st2) < left(toks, st) {
                        p_term_loop(toks, st2, binop(op, node, r, cursor))
                    } else {
                        Parsed::Crash
                    },
                },
            }
        } else {
            done(st, Some(node))
        },
    }
}

/// factor -> componente (^ componente)*
pub open spec fn p_factor(toks: Seq<Token>, st: PState) -> Parsed
    decreases left(toks, st), 4nat,
{
    match p_componente(toks, st) {
        Parsed::Crash => Parsed::Crash,
        Parsed::Done { st: st1, tree } => match tree {
            None => done(st1, None),
            Some(node) => if left(toks, st1) > left(toks, st) {
                Parsed::Crash
            } else {
                p_factor_loop(toks, st1, node)
            },
        },
    }
}

pub open spec fn p_factor_loop(toks: Seq<Token>, st: PState, node: TreeV) -> Parsed
    decreases left(toks, st), 3nat,
{
    match peek(toks, st) {
        None => Parsed::Crash,
        Some(curr) => if curr.token_type == TokenType::POWER {
            let (st1, _) = match_tok(toks, st, TokenType::POWER, true);
            let cursor = st1.cur;
            match p_componente(toks, st1) {
                Parsed::Crash => Parsed::Crash,
                Parsed::Done { st: st2, tree } => match tree {
                    None => done(st2, None),
                    Some(r) => if left(toks, st2) < left(toks, st) {
                        p_factor_loop(toks, st2, binop(TokenType::POWER, node, r, cursor))
                    } else {
                        Parsed::Crash
                    },
                },
            }
        } else {
            done(st, Some(node))
        },
    }
}

pub open spec fn bad_component_msg() -> Seq<char> {
    "Expresión no válida. Se esperaba uno de los siguientes tokens: [LPAR, INT, ID]"@
}

/// componente -> ( expresion ) | numero | incremento
pub open spec fn p_componente(toks: Seq<Token>, st: PState) -> Parsed
    decreases left(toks, st), 2nat,
{
    match peek(toks, st) {
        None => done(st, None),
        Some(token) => {
            let tt = token.token_type;
            if tt == TokenType::LPAR {
                let (st1, _) = match_tok(toks, st, TokenType::LPAR, true);
                if left(toks, st1) >= left(toks, st) {
                    Parsed::Crash
                } else {
                    match p_expresion(toks, st1) {
                        Parsed::Crash => Parsed::Crash,
                        Parsed::Done { st: st2, tree } => match tree {
                            None => done(st2, None),
                            Some(n) => {
                                let (st3, ok) = match_tok(toks, st2, TokenType::RPAR, true);
                                if !ok { done(st3, None) } else { done(st3, Some(n)) }
                            },
                        },
                    }
                }
            } else if tt == TokenType::INT {
                match spec_parse_i32(token.lexemme@) {
                    None => Parsed::Crash,
                    Some(value) => {
                        let (st1, _) = match_tok(toks, st, TokenType::INT, true);
                        done(st1, Some(exp(ExpV::Const { value }, st1.cur)))
                    },
                }
            } else if tt == TokenType::FLOAT {
                match float_at(st) {
                    None => Parsed::Crash,
                    Some(value) => {
                        let (st1, _) = match_tok(toks, st, TokenType::FLOAT, true);
                        done(st1, Some(exp(ExpV::ConstF { value }, st1.cur)))
                    },
                }
            } else if tt == TokenType::ID {
                p_incremento(toks, st)
            } else {
                done(push_err(st, perr(bad_component_msg(), Some(seq![TokenType::LPAR, TokenType::INT, TokenType::ID]),
                    Some(token))), None)
            }
        },
    }
}

/// incremento -> id [++ | --]
/// (entered on a token of kind `ID`)
pub open spec fn p_incremento(toks: Seq<Token>, st: PState) -> Parsed {
    if st.pos >= toks.len() {
        Parsed::Crash
    } else {
    let name = toks[st.pos as int].lexemme@;
    let (st1, _) = match_tok(toks, st, TokenType::ID, true);
    let cursor = st1.cur;
    match peek(toks, st1) {
        None => Parsed::Crash,
        Some(t) => if t.token_type == TokenType::INC || t.token_type == TokenType::DEC {
            let (st2, _) = match_tok(toks, st1, t.token_type, true);
            let cursor2 = st2.cur;
            done(st2, Some(binop(step_op(t.token_type), exp(ExpV::Id { name }, cursor2),
                exp(ExpV::Const { value: 1 }, None), cursor)))
        } else {
            done(st1, Some(exp(ExpV::Id { name }, cursor)))
        },
    }
    }
}

/// The value of the float literal at the next token.
pub open spec fn float_at(st: PState) -> Option<Seq<char>> {
    if st.pos < st.floats.len() { st.floats[st.pos as int] } else { None }
}

/// The state before any token is consumed.
pub open spec fn initial_state(toks: Seq<Token>, floats: Seq<Option<Seq<char>>>) -> PState {
    PState {
        pos: 0,
        errs: Seq::empty(),
        cur: if toks.len() > 0 { Some(toks[0].start) } else { None },
        floats,
    }
}

/// The parse of a whole token list.
pub open spec fn spec_parse(toks: Seq<Token>, floats: Seq<Option<Seq<char>>>) -> Parsed {
    p_programa(toks, initial_state(toks, floats))
}

} // verus!
