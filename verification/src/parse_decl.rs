//! The parser: the program and its declarations.

use vstd::prelude::*;
use crate::ids::ids_ok;
use crate::parse::{Parser, answers, append_sibling, decl_node, error0, opt_view};
use crate::parse_model::{left, match_tok, p_programa, p_lista_declaracion, p_decl_loop, p_declaracion, p_declaracion_variable, p_identificador, p_ident_rest};
use crate::structures::{ExpType, TreeNode, opt_tree_view};
use crate::token::TokenType;

verus! {

impl Parser {
    // -----------------------------------------------------------------------
    // Program and declarations
    // -----------------------------------------------------------------------

    pub(crate) fn programa(&mut self) -> (r: Option<Option<TreeNode>>)
        requires
            old(self).wf(),
        ensures
            Self::kept(*old(self), *final(self)),
            answers(p_programa(old(self).toks(), old(self).state()), r, final(self).state()),
            r matches Some(Some(t)) ==> ids_ok(t),
    {
        if !self.match_tok(TokenType::MAIN, true) {
            return Some(None);
        }
        if !self.match_tok(TokenType::LBRA, true) {
            return Some(None);
        }
        let root = self.lista_declaracion()?;
        let current_token = self.peek_token();
        let is_rbra = self.match_tok(TokenType::RBRA, true);
        if !is_rbra {
            self.add_error(error0("Falta cerrar la llave del main!", current_token));
        }
        let token = self.peek_token();
        if let Some(tkn) = token {
            self.add_error(error0("No se puede escribir fuera del cuerpo del main!", Some(tkn)));
        }
        Some(root)
    }

    pub(crate) fn lista_declaracion(&mut self) -> (r: Option<Option<TreeNode>>)
        requires
            old(self).wf(),
        ensures
            Self::kept(*old(self), *final(self)),
            answers(p_lista_declaracion(old(self).toks(), old(self).state()), r, final(self).state()),
            r matches Some(Some(t)) ==> ids_ok(t),
    {
        let ghost toks = self.toks();
        let t = self.declaracion()?;
        match t {
            None => Some(None),
            Some(first) => {
                let mut acc = first;
                loop
                    invariant
                        toks == old(self).toks(),
                        Self::kept(*old(self), *self),
                        self.state().pos > old(self).state().pos,
                        p_lista_declaracion(toks, old(self).state()) == p_decl_loop(toks, self.state(), acc@),
                        ids_ok(acc),
                    decreases left(self.toks(), self.state()),
                {
                    let q = self.declaracion()?;
                    match q {
                        None => return Some(Some(acc)),
                        Some(q) => {
                            append_sibling(&mut acc, q);
                        },
                    }
                }
            },
        }
    }

    pub(crate) fn declaracion(&mut self) -> (r: Option<Option<TreeNode>>)
        requires
            old(self).wf(),
        ensures
            Self::kept(*old(self), *final(self)),
            answers(p_declaracion(old(self).toks(), old(self).state()), r, final(self).state()),
            r matches Some(Some(t)) ==> ids_ok(t),
            r matches Some(Some(_)) ==> final(self).state().pos > old(self).state().pos,
    {
        match self.peek_type() {
            Some(tt) => {
                if tt == TokenType::INTEGER || tt == TokenType::DOUBLE {
                    self.declaracion_variable()
                } else {
                    self.lista_sentencias()
                }
            },
            None => Some(None),
        }
    }

    pub(crate) fn declaracion_variable(&mut self) -> (r: Option<Option<TreeNode>>)
        requires
            old(self).wf(),
        ensures
            Self::kept(*old(self), *final(self)),
            answers(p_declaracion_variable(old(self).toks(), old(self).state()), r, final(self).state()),
            r matches Some(Some(t)) ==> ids_ok(t),
            r is Some ==> final(self).state().pos > old(self).state().pos,
    {
        let typ = self.peek_type()?;
        self.match_tok(typ, true);
        let exp_type = if typ == TokenType::INTEGER {
            ExpType::Integer
        } else if typ == TokenType::DOUBLE {
            ExpType::Float
        } else {
            ExpType::Void
        };
        let node = self.identificador(exp_type);
        self.match_tok(TokenType::SCOL, true);
        Some(node)
    }

    pub(crate) fn identificador(&mut self, typ: ExpType) -> (r: Option<TreeNode>)
        requires
            old(self).wf(),
        ensures
            Self::kept(*old(self), *final(self)),
            (final(self).state(), opt_view(r)) == p_identificador(old(self).toks(), old(self).state(), typ),
            r matches Some(t) ==> ids_ok(t),
    {
        match self.peek_token() {
            Some(token) => {
                if !self.match_tok(TokenType::ID, true) {
                    return None;
                }
                let cursor = self.cursor();
                let rest = self.identificador_rest(typ);
                Some(decl_node(typ, token.lexemme, cursor, rest))
            },
            None => None,
        }
    }

    /// The declarations after the first one, each after a comma.
    pub(crate) fn identificador_rest(&mut self, typ: ExpType) -> (r: Option<Box<TreeNode>>)
        requires
            old(self).wf(),
        ensures
            Self::kept(*old(self), *final(self)),
            (final(self).state(), opt_tree_view(r)) == p_ident_rest(old(self).toks(), old(self).state(), typ),
            r matches Some(b) ==> ids_ok(*b),
        decreases left(old(self).toks(), old(self).state()),
    {
        if self.peek_type() == Some(TokenType::COMMA) {
            self.match_tok(TokenType::COMMA, true);
            let token_op = self.peek_token();
            if !self.match_tok(TokenType::ID, true) || token_op.is_none() {
                return None;
            }
            let cursor = self.cursor();
            let rest = self.identificador_rest(typ);
            let name = token_op.unwrap().lexemme;
            Some(Box::new(decl_node(typ, name, cursor, rest)))
        } else {
            None
        }
    }

}

} // verus!
