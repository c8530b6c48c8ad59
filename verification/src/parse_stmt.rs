//! The parser: statements.

use vstd::prelude::*;
use crate::ids::ids_ok;
use crate::parse::{Parser, answers, append_sibling, assign_node, binop_node, const_node, do_node, error, error0, error1, id_node, if_node, in_node, opt_view, out_node, while_node};
use crate::parse_model::{append_opt, done, left, peek_is, match_tok, p_lista_sentencias, p_sent_loop, p_sentencia, p_asignacion, p_sent_expresion, skip_if, p_seleccion, p_iteracion, p_repeticion, p_sent_in, p_sent_out};
use crate::structures::TreeNode;
use crate::token::TokenType;

verus! {

impl Parser {
    // -----------------------------------------------------------------------
    // Statements
    // -----------------------------------------------------------------------

    pub(crate) fn lista_sentencias(&mut self) -> (r: Option<Option<TreeNode>>)
        requires
            old(self).wf(),
        ensures
            Self::kept(*old(self), *final(self)),
            answers(p_lista_sentencias(old(self).toks(), old(self).state()), r, final(self).state()),
            r matches Some(Some(t)) ==> ids_ok(t),
            r matches Some(Some(_)) ==> final(self).state().pos > old(self).state().pos,
        decreases left(old(self).toks(), old(self).state()), 4nat,
    {
        let ghost toks = self.toks();
        let mut node: Option<TreeNode> = None;
        loop
            invariant
                toks == old(self).toks(),
                Self::kept(*old(self), *self),
                node is Some ==> self.state().pos > old(self).state().pos,
                p_lista_sentencias(toks, old(self).state()) == p_sent_loop(toks, self.state(), opt_view(node)),
                node matches Some(n) ==> ids_ok(n),
            decreases left(self.toks(), self.state()),
        {
            if self.at_end() {
                return Some(node);
            }
            let ghost st = self.state();
            let ghost acc = opt_view(node);
            let errors_before = self.error_count();
            let result = self.sentencia()?;
            let ghost st1 = self.state();
            assert(p_sentencia(toks, st) == done(st1, opt_view(result)));
            assert(p_sent_loop(toks, st, acc) == (if !(result is Some || st1.errs.len() != st.errs.len()) {
                done(st1, acc)
            } else if left(toks, st1) < left(toks, st) {
                p_sent_loop(toks, st1, match opt_view(result) { Some(n) => append_opt(acc, n), None => acc })
            } else {
                done(st1, match opt_view(result) { Some(n) => append_opt(acc, n), None => acc })
            }));
            match result {
                Some(new_node) => {
                    let ghost nv = new_node@;
                    node = match node {
                        None => Some(new_node),
                        Some(mut n) => {
                            append_sibling(&mut n, new_node);
                            Some(n)
                        },
                    };
                    assert(opt_view(node) == append_opt(acc, nv));
                },
                None => {
                    if self.error_count() == errors_before {
                        return Some(node);
                    }
                },
            }
        }
    }

    pub(crate) fn sentencia(&mut self) -> (r: Option<Option<TreeNode>>)
        requires
            old(self).wf(),
        ensures
            Self::kept(*old(self), *final(self)),
            answers(p_sentencia(old(self).toks(), old(self).state()), r, final(self).state()),
            r matches Some(Some(t)) ==> ids_ok(t),
            final(self).state().pos == old(self).state().pos ==> (r matches Some(None)
                && final(self).state().errs.len() == old(self).state().errs.len()),
        decreases left(old(self).toks(), old(self).state()), 2nat,
    {
        let token = match self.peek_token() {
            None => return Some(None),
            Some(t) => t,
        };
        let tt = token.token_type;
        if tt == TokenType::IF {
            self.seleccion()
        } else if tt == TokenType::WHILE {
            self.iteracion()
        } else if tt == TokenType::DO {
            self.repeticion()
        } else if tt == TokenType::STDIN {
            self.sent_in()
        } else if tt == TokenType::STDOUT {
            self.sent_out()
        } else if tt == TokenType::ID {
            self.asignacion()
        } else if tt == TokenType::INTEGER || tt == TokenType::DOUBLE {
            self.declaracion_variable()
        } else {
            if tt != TokenType::RBRA {
                self.add_error(error(
                    "Mala sentencia, se esperaba uno de los siguientes tokens: IF, WHILE, DO, STDIN, STDOUT, ID",
                    Some(vec![TokenType::IF, TokenType::WHILE, TokenType::DO, TokenType::STDIN, TokenType::STDOUT, TokenType::ID]),
                    Some(token),
                ));
                self.get_next_token();
            }
            Some(None)
        }
    }

    pub(crate) fn asignacion(&mut self) -> (r: Option<Option<TreeNode>>)
        requires
            old(self).wf(),
            peek_is(old(self).toks(), old(self).state(), TokenType::ID),
        ensures
            Self::kept(*old(self), *final(self)),
            answers(p_asignacion(old(self).toks(), old(self).state()), r, final(self).state()),
            r matches Some(Some(t)) ==> ids_ok(t),
            final(self).state().pos > old(self).state().pos,
    {
        let token = self.peek_token()?;
        let name = token.lexemme.clone();
        if !self.match_tok(TokenType::ID, false) {
            self.add_error(error1("Se esperaba un identificador", TokenType::ID, Some(token)));
            self.avanzar_hasta(TokenType::SCOL);
            return Some(None);
        }
        let cursor = self.cursor();
        match self.peek_token() {
            Some(t) => {
                if t.token_type == TokenType::INC || t.token_type == TokenType::DEC {
                    let operacion = if t.token_type == TokenType::INC { TokenType::SUM } else { TokenType::MIN };
                    self.match_tok(t.token_type, true);
                    let value = binop_node(operacion, id_node(name.clone(), cursor), const_node(1, None), cursor);
                    let node = assign_node(name, value, cursor);
                    self.match_tok(TokenType::SCOL, true);
                    return Some(Some(node));
                }
            },
            None => return Some(None),
        }
        if !self.match_tok(TokenType::ASSIGN, false) {
            let token = self.peek_token();
            self.add_error(error1("Se esperaba '='", TokenType::ASSIGN, token));
            self.avanzar_hasta(TokenType::SCOL);
            return Some(None);
        }
        let value = match self.sent_expresion()? {
            None => return Some(None),
            Some(v) => v,
        };
        Some(Some(assign_node(name, value, cursor)))
    }

    pub(crate) fn sent_expresion(&mut self) -> (r: Option<Option<TreeNode>>)
        requires
            old(self).wf(),
        ensures
            Self::kept(*old(self), *final(self)),
            answers(p_sent_expresion(old(self).toks(), old(self).state()), r, final(self).state()),
            r matches Some(Some(t)) ==> ids_ok(t),
    {
        let node = self.expresion()?;
        if node.is_none() {
            self.avanzar_hasta(TokenType::SCOL);
            return Some(None);
        }
        if !self.match_tok(TokenType::SCOL, false) {
            let token = self.peek_token();
            self.add_error(error1("Se esperaba ';'", TokenType::SCOL, token));
        }
        Some(node)
    }

    /// Skips to the end of the block, and of an `else` block after it.
    pub(crate) fn skip_if(&mut self)
        requires
            old(self).wf(),
        ensures
            Self::kept(*old(self), *final(self)),
            final(self).state() == skip_if(old(self).toks(), old(self).state()),
    {
        self.avanzar_hasta(TokenType::RBRA);
        if self.peek_type() == Some(TokenType::ELSE) {
            self.avanzar_hasta(TokenType::RBRA);
        }
    }

    pub(crate) fn seleccion(&mut self) -> (r: Option<Option<TreeNode>>)
        requires
            old(self).wf(),
            peek_is(old(self).toks(), old(self).state(), TokenType::IF),
        ensures
            Self::kept(*old(self), *final(self)),
            answers(p_seleccion(old(self).toks(), old(self).state()), r, final(self).state()),
            r matches Some(Some(t)) ==> ids_ok(t),
            final(self).state().pos > old(self).state().pos,
        decreases left(old(self).toks(), old(self).state()), 1nat,
    {
        if !self.match_tok(TokenType::IF, false) {
            let token = self.peek_token();
            self.add_error(error1("Se esperaba 'if'", TokenType::IF, token));
            return Some(None);
        }
        let cursor = self.cursor();
        let condition = match self.expresion()? {
            None => {
                let token = self.peek_token();
                self.add_error(error0("Se esperaba una expresión como condición del if", token));
                self.skip_if();
                return Some(None);
            },
            Some(c) => c,
        };
        if !self.match_tok(TokenType::LBRA, false) {
            let token = self.peek_token();
            self.add_error(error0("Se esperaba '{'", token));
            self.skip_if();
            return Some(None);
        }
        let then_branch = self.lista_sentencias()?;
        if !self.match_tok(TokenType::RBRA, false) {
            let token = self.peek_token();
            self.add_error(error1("Se esperaba '}'", TokenType::RBRA, token));
            self.skip_if();
            return Some(None);
        }
        let else_branch = if self.peek_type() == Some(TokenType::ELSE) {
            self.match_tok(TokenType::ELSE, true);
            if !self.match_tok(TokenType::LBRA, false) {
                let token = self.peek_token();
                self.add_error(error0("Se esperaba '{' después del 'else'", token));
                self.avanzar_hasta(TokenType::RBRA);
                return Some(None);
            }
            let r = self.lista_sentencias()?;
            if !self.match_tok(TokenType::RBRA, false) {
                let token = self.peek_token();
                self.add_error(error1("Se esperaba '}' después del bloque 'else'", TokenType::RBRA, token));
                return Some(None);
            }
            r
        } else {
            None
        };
        Some(Some(if_node(condition, then_branch, else_branch, cursor)))
    }

    pub(crate) fn iteracion(&mut self) -> (r: Option<Option<TreeNode>>)
        requires
            old(self).wf(),
            peek_is(old(self).toks(), old(self).state(), TokenType::WHILE),
        ensures
            Self::kept(*old(self), *final(self)),
            answers(p_iteracion(old(self).toks(), old(self).state()), r, final(self).state()),
            r matches Some(Some(t)) ==> ids_ok(t),
            final(self).state().pos > old(self).state().pos,
        decreases left(old(self).toks(), old(self).state()), 1nat,
    {
        if !self.match_tok(TokenType::WHILE, false) {
            let token = self.peek_token();
            self.add_error(error1("Se esperaba 'while'", TokenType::WHILE, token));
            return Some(None);
        }
        let cursor = self.cursor();
        match self.expresion()? {
            Some(condition) => {
                if !self.match_tok(TokenType::LBRA, false) {
                    let token = self.peek_token();
                    self.add_error(error1("Se esperaba '{'", TokenType::LBRA, token));
                    self.avanzar_hasta(TokenType::RBRA);
                    return Some(None);
                }
                let body = self.lista_sentencias()?;
                if !self.match_tok(TokenType::RBRA, false) {
                    let token = self.peek_token();
                    self.add_error(error1("Se esperaba '}'", TokenType::RBRA, token));
                    self.avanzar_hasta(TokenType::RBRA);
                    return Some(None);
                }
                Some(Some(while_node(condition, body, cursor)))
            },
            None => {
                self.avanzar_hasta(TokenType::RBRA);
                Some(None)
            },
        }
    }

    pub(crate) fn repeticion(&mut self) -> (r: Option<Option<TreeNode>>)
        requires
            old(self).wf(),
            peek_is(old(self).toks(), old(self).state(), TokenType::DO),
        ensures
            Self::kept(*old(self), *final(self)),
            answers(p_repeticion(old(self).toks(), old(self).state()), r, final(self).state()),
            r matches Some(Some(t)) ==> ids_ok(t),
            final(self).state().pos > old(self).state().pos,
        decreases left(old(self).toks(), old(self).state()), 1nat,
    {
        if !self.match_tok(TokenType::DO, false) {
            let token = self.peek_token();
            self.add_error(error1("Se esperaba 'do'", TokenType::DO, token));
            return Some(None);
        }
        let cursor = self.cursor();
        if !self.match_tok(TokenType::LBRA, false) {
            let token = self.peek_token();
            self.add_error(error1("Se esperaba '{'", TokenType::LBRA, token));
            self.avanzar_hasta(TokenType::RBRA);
            return Some(None);
        }
        let body = self.lista_sentencias()?;
        if !self.match_tok(TokenType::RBRA, false) {
            let token = self.peek_token();
            self.add_error(error1("Se esperaba '}'", TokenType::RBRA, token));
            self.avanzar_hasta(TokenType::SCOL);
            return Some(None);
        }
        if !self.match_tok(TokenType::WHILE, false) {
            let token = self.peek_token();
            self.add_error(error1("Se esperaba 'while'", TokenType::WHILE, token));
            self.avanzar_hasta(TokenType::SCOL);
            return Some(None);
        }
        match self.expresion()? {
            Some(condition) => {
                self.match_tok(TokenType::SCOL, false);
                Some(Some(do_node(body, condition, cursor)))
            },
            None => {
                self.avanzar_hasta(TokenType::SCOL);
                Some(None)
            },
        }
    }

    pub(crate) fn sent_in(&mut self) -> (r: Option<Option<TreeNode>>)
        requires
            old(self).wf(),
            peek_is(old(self).toks(), old(self).state(), TokenType::STDIN),
        ensures
            Self::kept(*old(self), *final(self)),
            answers(p_sent_in(old(self).toks(), old(self).state()), r, final(self).state()),
            r matches Some(Some(t)) ==> ids_ok(t),
            final(self).state().pos > old(self).state().pos,
    {
        self.match_tok(TokenType::STDIN, true);
        let cursor = self.cursor();
        let curr_token = self.peek_token();
        if !self.match_tok(TokenType::ID, true) {
            self.avanzar_hasta(TokenType::SCOL);
            return Some(None);
        }
        match curr_token {
            None => Some(None),
            Some(t) => {
                let name = t.lexemme;
                self.match_tok(TokenType::SCOL, true);
                Some(Some(in_node(name, cursor)))
            },
        }
    }

    pub(crate) fn sent_out(&mut self) -> (r: Option<Option<TreeNode>>)
        requires
            old(self).wf(),
            peek_is(old(self).toks(), old(self).state(), TokenType::STDOUT),
        ensures
            Self::kept(*old(self), *final(self)),
            answers(p_sent_out(old(self).toks(), old(self).state()), r, final(self).state()),
            r matches Some(Some(t)) ==> ids_ok(t),
            final(self).state().pos > old(self).state().pos,
    {
        self.match_tok(TokenType::STDOUT, true);
        let cursor = self.cursor();
        match self.expresion()? {
            None => {
                let token = self.peek_token();
                self.add_error(error0("Se esperaba una expresion", token));
                self.avanzar_hasta(TokenType::SCOL);
                Some(None)
            },
            Some(expression) => {
                self.match_tok(TokenType::SCOL, true);
                Some(Some(out_node(expression, cursor)))
            },
        }
    }

}

} // verus!
