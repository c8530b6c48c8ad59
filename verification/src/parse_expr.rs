//! The parser: expressions.

use vstd::prelude::*;
use crate::ids::ids_ok;
use crate::parse::{Parser, answers, binop_node, const_node, constf_node, error, id_node, lexeme_has_sign, neg_node};
use crate::parse_model::{left, peek_is, match_tok, p_expresion, p_and, p_not, p_rel, p_simple, p_simple_loop, p_termino, p_term_loop, p_factor, p_factor_loop, p_componente, p_incremento};
use crate::structures::TreeNode;
use crate::text::parse_i32;
use crate::token::TokenType;

verus! {

impl Parser {
    // -----------------------------------------------------------------------
    // Expressions
    // -----------------------------------------------------------------------

    pub(crate) fn expresion(&mut self) -> (r: Option<Option<TreeNode>>)
        requires
            old(self).wf(),
        ensures
            Self::kept(*old(self), *final(self)),
            answers(p_expresion(old(self).toks(), old(self).state()), r, final(self).state()),
            r matches Some(Some(t)) ==> ids_ok(t),
            r matches Some(Some(_)) ==> final(self).state().pos > old(self).state().pos,
        decreases left(old(self).toks(), old(self).state()), 12nat,
    {
        let node = match self.expresion_logica_and()? {
            None => return Some(None),
            Some(n) => n,
        };
        if self.peek_type() == Some(TokenType::OR) {
            self.match_tok(TokenType::OR, true);
            let cursor = self.cursor();
            let right = match self.expresion_logica_and()? {
                None => return Some(None),
                Some(r) => r,
            };
            return Some(Some(binop_node(TokenType::OR, node, right, cursor)));
        }
        Some(Some(node))
    }

    pub(crate) fn expresion_logica_and(&mut self) -> (r: Option<Option<TreeNode>>)
        requires
            old(self).wf(),
        ensures
            Self::kept(*old(self), *final(self)),
            answers(p_and(old(self).toks(), old(self).state()), r, final(self).state()),
            r matches Some(Some(t)) ==> ids_ok(t),
            r matches Some(Some(_)) ==> final(self).state().pos > old(self).state().pos,
        decreases left(old(self).toks(), old(self).state()), 11nat,
    {
        let node = match self.expresion_logica_not()? {
            None => return Some(None),
            Some(n) => n,
        };
        if self.peek_type() == Some(TokenType::AND) {
            self.match_tok(TokenType::AND, true);
            let cursor = self.cursor();
            let right = match self.expresion_logica_not()? {
                None => return Some(None),
                Some(r) => r,
            };
            return Some(Some(binop_node(TokenType::AND, node, right, cursor)));
        }
        Some(Some(node))
    }

    pub(crate) fn expresion_logica_not(&mut self) -> (r: Option<Option<TreeNode>>)
        requires
            old(self).wf(),
        ensures
            Self::kept(*old(self), *final(self)),
            answers(p_not(old(self).toks(), old(self).state()), r, final(self).state()),
            r matches Some(Some(t)) ==> ids_ok(t),
            r matches Some(Some(_)) ==> final(self).state().pos > old(self).state().pos,
        decreases left(old(self).toks(), old(self).state()), 10nat,
    {
        match self.peek_type() {
            Some(tt) => {
                if tt == TokenType::NEG {
                    self.match_tok(TokenType::NEG, true);
                    let cursor = self.cursor();
                    let left = match self.expresion_rel()? {
                        None => return Some(None),
                        Some(l) => l,
                    };
                    Some(Some(neg_node(left, cursor)))
                } else {
                    self.expresion_rel()
                }
            },
            None => Some(None),
        }
    }

    pub(crate) fn expresion_rel(&mut self) -> (r: Option<Option<TreeNode>>)
        requires
            old(self).wf(),
        ensures
            Self::kept(*old(self), *final(self)),
            answers(p_rel(old(self).toks(), old(self).state()), r, final(self).state()),
            r matches Some(Some(t)) ==> ids_ok(t),
            r matches Some(Some(_)) ==> final(self).state().pos > old(self).state().pos,
        decreases left(old(self).toks(), old(self).state()), 9nat,
    {
        let node = match self.expresion_simple()? {
            None => return Some(None),
            Some(n) => n,
        };
        if let Some(op) = self.peek_type() {
            if op == TokenType::LT || op == TokenType::LE || op == TokenType::GT || op == TokenType::GE
                || op == TokenType::EQ || op == TokenType::NE {
                self.match_tok(op, true);
                let cursor = self.cursor();
                let right = match self.expresion_simple()? {
                    None => return Some(None),
                    Some(r) => r,
                };
                return Some(Some(binop_node(op, node, right, cursor)));
            }
        }
        Some(Some(node))
    }

    pub(crate) fn expresion_simple(&mut self) -> (r: Option<Option<TreeNode>>)
        requires
            old(self).wf(),
        ensures
            Self::kept(*old(self), *final(self)),
            answers(p_simple(old(self).toks(), old(self).state()), r, final(self).state()),
            r matches Some(Some(t)) ==> ids_ok(t),
            r matches Some(Some(_)) ==> final(self).state().pos > old(self).state().pos,
        decreases left(old(self).toks(), old(self).state()), 8nat,
    {
        let ghost toks = self.toks();
        let mut node = match self.termino()? {
            None => return Some(None),
            Some(n) => n,
        };
        loop
            invariant
                toks == old(self).toks(),
                Self::kept(*old(self), *self),
                self.state().pos > old(self).state().pos,
                p_simple(toks, old(self).state()) == p_simple_loop(toks, self.state(), node@),
                ids_ok(node),
            decreases left(self.toks(), self.state()),
        {
            let curr = self.peek_token()?;
            let op = curr.token_type;
            if op == TokenType::SUM || op == TokenType::MIN {
                self.match_tok(op, true);
                let cursor = self.cursor();
                let right = match self.termino()? {
                    None => return Some(None),
                    Some(r) => r,
                };
                node = binop_node(op, node, right, cursor);
            } else if op == TokenType::INT || op == TokenType::FLOAT {
                if lexeme_has_sign(&curr.lexemme) {
                    let cursor = self.cursor();
                    let right = match self.termino()? {
                        None => return Some(None),
                        Some(r) => r,
                    };
                    node = binop_node(TokenType::SUM, node, right, cursor);
                } else {
                    self.add_error(error("Se esperaba un símbolo de suma o resta",
                        Some(vec![TokenType::SUM, TokenType::MIN]), Some(curr)));
                    return Some(None);
                }
            } else {
                return Some(Some(node));
            }
        }
    }

    pub(crate) fn termino(&mut self) -> (r: Option<Option<TreeNode>>)
        requires
            old(self).wf(),
        ensures
            Self::kept(*old(self), *final(self)),
            answers(p_termino(old(self).toks(), old(self).state()), r, final(self).state()),
            r matches Some(Some(t)) ==> ids_ok(t),
            r matches Some(Some(_)) ==> final(self).state().pos > old(self).state().pos,
        decreases left(old(self).toks(), old(self).state()), 6nat,
    {
        let ghost toks = self.toks();
        let mut node = match self.factor()? {
            None => return Some(None),
            Some(n) => n,
        };
        loop
            invariant
                toks == old(self).toks(),
                Self::kept(*old(self), *self),
                self.state().pos > old(self).state().pos,
                p_termino(toks, old(self).state()) == p_term_loop(toks, self.state(), node@),
                ids_ok(node),
            decreases left(self.toks(), self.state()),
        {
            let op = self.peek_type()?;
            if op == TokenType::TIMES || op == TokenType::DIV || op == TokenType::MODULUS {
                self.match_tok(op, true);
                let cursor = self.cursor();
                let right = match self.factor()? {
                    None => return Some(None),
                    Some(r) => r,
                };
                node = binop_node(op, node, right, cursor);
            } else {
                return Some(Some(node));
            }
        }
    }

    pub(crate) fn factor(&mut self) -> (r: Option<Option<TreeNode>>)
        requires
            old(self).wf(),
        ensures
            Self::kept(*old(self), *final(self)),
            answers(p_factor(old(self).toks(), old(self).state()), r, final(self).state()),
            r matches Some(Some(t)) ==> ids_ok(t),
            r matches Some(Some(_)) ==> final(self).state().pos > old(self).state().pos,
        decreases left(old(self).toks(), old(self).state()), 4nat,
    {
        let ghost toks = self.toks();
        let mut node = match self.componente()? {
            None => return Some(None),
            Some(n) => n,
        };
        loop
            invariant
                toks == old(self).toks(),
                Self::kept(*old(self), *self),
                self.state().pos > old(self).state().pos,
                p_factor(toks, old(self).state()) == p_factor_loop(toks, self.state(), node@),
                ids_ok(node),
            decreases left(self.toks(), self.state()),
        {
            let op = self.peek_type()?;
            if op == TokenType::POWER {
                self.match_tok(op, true);
                let cursor = self.cursor();
                let right = match self.componente()? {
                    None => return Some(None),
                    Some(r) => r,
                };
                node = binop_node(op, node, right, cursor);
            } else {
                return Some(Some(node));
            }
        }
    }

    pub(crate) fn componente(&mut self) -> (r: Option<Option<TreeNode>>)
        requires
            old(self).wf(),
        ensures
            Self::kept(*old(self), *final(self)),
            answers(p_componente(old(self).toks(), old(self).state()), r, final(self).state()),
            r matches Some(Some(t)) ==> ids_ok(t),
            r matches Some(Some(_)) ==> final(self).state().pos > old(self).state().pos,
        decreases left(old(self).toks(), old(self).state()), 2nat,
    {
        let token = match self.peek_token() {
            None => return Some(None),
            Some(t) => t,
        };
        let tt = token.token_type;
        if tt == TokenType::LPAR {
            self.match_tok(TokenType::LPAR, true);
            let node = match self.expresion()? {
                None => return Some(None),
                Some(n) => n,
            };
            if !self.match_tok(TokenType::RPAR, true) {
                return Some(None);
            }
            Some(Some(node))
        } else if tt == TokenType::INT {
            let value = parse_i32(token.lexemme.as_str())?;
            self.match_tok(TokenType::INT, true);
            let cursor = self.cursor();
            Some(Some(const_node(value, cursor)))
        } else if tt == TokenType::FLOAT {
            let value = self.float_at()?;
            self.match_tok(TokenType::FLOAT, true);
            let cursor = self.cursor();
            Some(Some(constf_node(value, cursor)))
        } else if tt == TokenType::ID {
            self.incremento()
        } else {
            self.add_error(error(
                "Expresión no válida. Se esperaba uno de los siguientes tokens: [LPAR, INT, ID]",
                Some(vec![TokenType::LPAR, TokenType::INT, TokenType::ID]),
                Some(token),
            ));
            Some(None)
        }
    }

    pub(crate) fn incremento(&mut self) -> (r: Option<Option<TreeNode>>)
        requires
            old(self).wf(),
            peek_is(old(self).toks(), old(self).state(), TokenType::ID),
        ensures
            Self::kept(*old(self), *final(self)),
            answers(p_incremento(old(self).toks(), old(self).state()), r, final(self).state()),
            r matches Some(Some(t)) ==> ids_ok(t),
            final(self).state().pos > old(self).state().pos,
    {
        let name = self.peek_token()?.lexemme;
        self.match_tok(TokenType::ID, true);
        let cursor = self.cursor();
        let op_token = self.peek_type()?;
        if op_token == TokenType::INC || op_token == TokenType::DEC {
            let op = if op_token == TokenType::INC { TokenType::SUM } else { TokenType::MIN };
            self.match_tok(op_token, true);
            let cursor2 = self.cursor();
            Some(Some(binop_node(op, id_node(name, cursor2), const_node(1, None), cursor)))
        } else {
            Some(Some(id_node(name, cursor)))
        }
    }
}

} // verus!
