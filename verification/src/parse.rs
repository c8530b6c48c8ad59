//! The recursive-descent parser with error recovery.

use vstd::prelude::*;
use crate::ids::{ids_ok, new_node_id, node_ids_ok, opt_ids_ok};
use crate::parse_model::{PState, Parsed, left, peek, advance, push_err, perr, match_tok, advance_until, exp, stmt, binop, append_tree, boxed, p_programa, decl, has_sign, initial_state, spec_parse, float_at};
use crate::structures::{
    DeclKind, DeclV, ExpKind, ExpType, ExpV, Node, StmtV, ParseError, ParseErrorV, StmtKind, NodeV, node_view, TreeNode, TreeV, opt_tree_view,
    tree_view,
};
use crate::token::{Cursor, Token, TokenType, token_type_name};
use vstd::string::StrSliceExecFns;

verus! {

/// The model of an optional tree.
pub open spec fn opt_view(t: Option<TreeNode>) -> Option<TreeV> {
    match t {
        Some(x) => Some(tree_view(x)),
        None => None,
    }
}

/// The models of the float values handed to the parser.
pub open spec fn float_texts(v: Seq<Option<String>>) -> Seq<Option<Seq<char>>> {
    v.map_values(|f: Option<String>| opt_text(f))
}

/// Parses a program given as the list of its tokens: the syntax tree, when
/// one could be built, and the syntax errors found.
///
/// `float_values[i]` is the value of the float literal that `tokens[i]`
/// holds, written as `NodeValue::Float` holds it, and `None` where the text
/// of `tokens[i]` is no `f32` literal.
///
/// Returns `None` exactly where the parser stops the program (see
/// `Parsed::Crash`).
pub fn try_parse(tokens: Vec<Token>, float_values: Vec<Option<String>>) -> (r: Option<(Option<TreeNode>, Vec<ParseError>)>)
    ensures
        match spec_parse(tokens@, float_texts(float_values@)) {
            Parsed::Crash => r is None,
            Parsed::Done { st, tree } => r matches Some((t, errs)) && opt_view(t) == tree
                && errs@.map_values(|e: ParseError| e@) == st.errs,
        },
        r matches Some((Some(t), _)) ==> ids_ok(t),
{
    let parser = Parser::new(tokens, float_values);
    parser.parse()
}

/// Parses a program given as the list of its tokens: the syntax tree, when
/// one could be built, and the syntax errors found (see `try_parse`).
pub fn parse(tokens: Vec<Token>, float_values: Vec<Option<String>>) -> (r: (Option<TreeNode>, Vec<ParseError>))
    requires
        !(spec_parse(tokens@, float_texts(float_values@)) is Crash),
    ensures
        spec_parse(tokens@, float_texts(float_values@)) matches Parsed::Done { st, tree }
            && opt_view(r.0) == tree && r.1@.map_values(|e: ParseError| e@) == st.errs,
        r.0 matches Some(t) ==> ids_ok(t),
{
    match try_parse(tokens, float_values) {
        Some(r) => r,
        None => (None, Vec::new()),
    }
}

/// The model of an optional text.
pub open spec fn opt_text(t: Option<String>) -> Option<Seq<char>> {
    match t {
        Some(s) => Some(s@),
        None => None,
    }
}

/// How a parser function's result `r` and final state `st` answer its
/// model `p`: `None` where the model stops the program.
pub open spec fn answers(p: Parsed, r: Option<Option<TreeNode>>, st: PState) -> bool {
    match p {
        Parsed::Crash => r is None,
        Parsed::Done { st: s, tree } => r is Some && st == s && opt_view(r.unwrap()) == tree,
    }
}

/// A parser over a list of tokens.
pub struct Parser {
    pub tokens: Vec<Token>,
    pub pos: usize,
    pub errors: Vec<ParseError>,
    pub current_cursor: Option<Cursor>,
    pub floats: Vec<Option<String>>,
}

impl Parser {
    pub open spec fn toks(&self) -> Seq<Token> {
        self.tokens@
    }

    #[verifier::opaque]
    pub open spec fn state(&self) -> PState {
        PState {
            pos: self.pos as nat,
            errs: self.errors@.map_values(|e: ParseError| e@),
            cur: self.current_cursor,
            floats: self.floats@.map_values(|f: Option<String>| opt_text(f)),
        }
    }

    pub open spec fn wf(&self) -> bool {
        self.state().pos <= self.toks().len()
    }

    /// Whether every token has been consumed.
    pub(crate) fn at_end(&self) -> (b: bool)
        requires
            self.wf(),
        ensures
            b == (self.state().pos >= self.toks().len()),
    {
        proof {
            reveal(Parser::state);
        }
        self.pos >= self.tokens.len()
    }

    /// The number of errors recorded.
    pub(crate) fn error_count(&self) -> (n: usize)
        ensures
            n == self.state().errs.len(),
    {
        proof {
            reveal(Parser::state);
        }
        self.errors.len()
    }

    /// The value of the float literal at the next token.
    pub(crate) fn float_at(&self) -> (r: Option<String>)
        ensures
            opt_text(r) == float_at(self.state()),
    {
        proof {
            reveal(Parser::state);
        }
        if self.pos < self.floats.len() {
            match &self.floats[self.pos] {
                Some(t) => Some(t.clone()),
                None => None,
            }
        } else {
            None
        }
    }


    /// A parser at the start of `tokens`; `floats[i]` is the value of the
    /// float literal that `tokens[i]` holds.
    pub fn new(tokens: Vec<Token>, floats: Vec<Option<String>>) -> (p: Parser)
        ensures
            p.wf(),
            p.toks() == tokens@,
            p.state() == initial_state(tokens@, floats@.map_values(|f: Option<String>| opt_text(f))),
    {
        proof {
            reveal(Parser::state);
        }
        let current_cursor = if tokens.len() > 0 { Some(tokens[0].start) } else { None };
        let p = Parser { errors: Vec::new(), tokens, pos: 0, current_cursor, floats };
        assert(p.state().errs =~= Seq::<ParseErrorV>::empty());
        p
    }

    /// Parses the whole program: the tree (if one was built) and the errors
    /// found. `None` where the model stops the program.
    pub fn parse(self) -> (r: Option<(Option<TreeNode>, Vec<ParseError>)>)
        requires
            self.wf(),
        ensures
            match p_programa(self.toks(), self.state()) {
                Parsed::Crash => r is None,
                Parsed::Done { st, tree } => r matches Some((t, errs)) && opt_view(t) == tree
                    && errs@.map_values(|e: ParseError| e@) == st.errs,
            },
            r matches Some((Some(t), _)) ==> ids_ok(t),
    {
        proof {
            reveal(Parser::state);
        }
        let mut p = self;
        let root = p.programa();
        match root {
            None => None,
            Some(t) => Some((t, p.errors)),
        }
    }

    pub(crate) fn peek_type(&self) -> (r: Option<TokenType>)
        requires
            self.wf(),
        ensures
            r == (match peek(self.toks(), self.state()) {
                Some(t) => Some(t.token_type),
                None => None,
            }),
    {
        proof {
            reveal(Parser::state);
        }
        if self.pos < self.tokens.len() {
            Some(self.tokens[self.pos].token_type)
        } else {
            None
        }
    }

    pub(crate) fn peek_token(&self) -> (r: Option<Token>)
        requires
            self.wf(),
        ensures
            r == peek(self.toks(), self.state()),
    {
        proof {
            reveal(Parser::state);
        }
        if self.pos < self.tokens.len() {
            Some(self.tokens[self.pos].copy())
        } else {
            None
        }
    }

    /// Consumes the next token, if any.
    pub(crate) fn get_next_token(&mut self)
        requires
            old(self).wf(),
        ensures
            Self::kept(*old(self), *final(self)),
            final(self).wf(),
            final(self).toks() == old(self).toks(),
            final(self).state() == advance(old(self).toks(), old(self).state()),
    {
        proof {
            reveal(Parser::state);
        }
        if self.pos < self.tokens.len() {
            self.current_cursor = Some(self.tokens[self.pos].start);
            self.pos = self.pos + 1;
        } else {
            self.current_cursor = None;
        }
    }

    pub(crate) fn add_error(&mut self, error: ParseError)
        requires
            old(self).wf(),
        ensures
            Self::kept(*old(self), *final(self)),
            final(self).wf(),
            final(self).toks() == old(self).toks(),
            final(self).state() == push_err(old(self).state(), error@),
    {
        proof {
            reveal(Parser::state);
        }
        let ghost e = error@;
        self.errors.push(error);
        assert(self.state().errs =~= old(self).state().errs.push(e));
    }

    pub(crate) fn match_tok(&mut self, token: TokenType, handle_error: bool) -> (b: bool)
        requires
            old(self).wf(),
        ensures
            Self::kept(*old(self), *final(self)),
            final(self).wf(),
            final(self).toks() == old(self).toks(),
            (final(self).state(), b) == match_tok(old(self).toks(), old(self).state(), token, handle_error),
    {
        proof {
            reveal(Parser::state);
        }
        match self.peek_token() {
            Some(c_token) => {
                if c_token.token_type != token {
                    if handle_error {
                        let v = vec![token];
                        assert(v@ == seq![token]);
                        let mut message = String::from_str("Se esperaba un token del tipo ");
                        message.append(token_type_name(token));
                        self.add_error(ParseError {
                            message,
                            expected_token_type: Some(v),
                            current_token: Some(c_token),
                        });
                    }
                    return false;
                }
            },
            None => {
                if handle_error {
                    let v = vec![token];
                    assert(v@ == seq![token]);
                    let mut message = String::from_str("Se esperaba un token del tipo ");
                    message.append(token_type_name(token));
                    message.append(" pero ya no hay ningún token disponible!");
                    self.add_error(ParseError {
                        message,
                        expected_token_type: Some(v),
                        current_token: None,
                    });
                }
                return false;
            },
        }
        self.get_next_token();
        true
    }

    /// Consumes tokens up to and including the first of kind `token`.
    pub(crate) fn avanzar_hasta(&mut self, token: TokenType) -> (b: bool)
        requires
            old(self).wf(),
        ensures
            Self::kept(*old(self), *final(self)),
            final(self).wf(),
            final(self).toks() == old(self).toks(),
            (final(self).state(), b) == advance_until(old(self).toks(), old(self).state(), token),
    {
        proof {
            reveal(Parser::state);
        }
        let ghost toks = self.toks();
        loop
            invariant
                self.wf(),
                self.toks() == toks,
                toks == old(self).toks(),
                Self::kept(*old(self), *self),
                advance_until(toks, self.state(), token) == advance_until(toks, old(self).state(), token),
            decreases self.tokens.len() - self.pos,
        {
            proof {
                reveal(Parser::state);
            }
            if self.pos < self.tokens.len() {
                let tt = self.tokens[self.pos].token_type;
                self.get_next_token();
                if tt == token {
                    return true;
                }
            } else {
                self.get_next_token();
                return false;
            }
        }
    }

    pub(crate) open spec fn kept(before: Parser, after: Parser) -> bool {
        &&& after.wf()
        &&& after.toks() == before.toks()
        &&& after.state().pos >= before.state().pos
    }

    /// The position the next node records: that of the token consumed last.
    pub(crate) fn cursor(&self) -> (c: Option<Cursor>)
        ensures
            c == self.state().cur,
    {
        proof {
            reveal(Parser::state);
        }
        self.current_cursor
    }

}

/// A syntax error that expects no token in particular.
pub(crate) fn error0(message: &str, current_token: Option<Token>) -> (e: ParseError)
    ensures
        e@ == perr(message@, None, current_token),
{
    ParseError { message: String::from_str(message), expected_token_type: None, current_token }
}

/// A syntax error that expects a token of kind `expected`.
pub(crate) fn error1(message: &str, expected: TokenType, current_token: Option<Token>) -> (e: ParseError)
    ensures
        e@ == perr(message@, Some(seq![expected]), current_token),
{
    let v = vec![expected];
    assert(v@ == seq![expected]);
    ParseError { message: String::from_str(message), expected_token_type: Some(v), current_token }
}

/// A syntax error.
pub(crate) fn error(message: &str, expected_token_type: Option<Vec<TokenType>>, current_token: Option<Token>) -> (e: ParseError)
    ensures
        e@ == perr(message@, match expected_token_type { Some(v) => Some(v@), None => None }, current_token),
{
    ParseError { message: String::from_str(message), expected_token_type, current_token }
}

pub(crate) fn box_opt(t: Option<TreeNode>) -> (r: Option<Box<TreeNode>>)
    ensures
        opt_tree_view(r) == boxed(opt_view(t)),
        opt_ids_ok(t) ==> (r matches Some(b) ==> ids_ok(*b)),
{
    match t {
        Some(x) => Some(Box::new(x)),
        None => None,
    }
}

/// The expression `l op r`.
pub(crate) fn binop_node(op: TokenType, l: TreeNode, r: TreeNode, cursor: Option<Cursor>) -> (t: TreeNode)
    ensures
        t@ == binop(op, l@, r@, cursor),
        ids_ok(l) && ids_ok(r) ==> ids_ok(t),
{
    let ghost g_l = l;
    let ghost g_r = r;
    let ghost lv = l@;
    let ghost rv = r@;
    let t = TreeNode {
        sibling: None,
        node: Node::Exp {
            cursor,
            id: new_node_id(),
            typ: ExpType::Void,
            kind: ExpKind::Op { op, left: Box::new(l), right: Some(Box::new(r)) },
            val: None,
        },
    };
    assert(node_view(t.node) == (NodeV::Exp {
        kind: ExpV::Op { op, left: Box::new(lv), right: Some(Box::new(rv)) },
        typ: ExpType::Void,
        cursor,
        val: None,
    }));
    assert(tree_view(t).sibling is None);
    proof {
        reveal(ids_ok);
        reveal(node_ids_ok);
        if ids_ok(g_l) && ids_ok(g_r) {
            assert(node_ids_ok(t.node));
            assert(ids_ok(t));
        }
    }
    t
}

pub(crate) fn id_node(name: String, cursor: Option<Cursor>) -> (t: TreeNode)
    ensures
        t@ == exp(ExpV::Id { name: name@ }, cursor),
        ids_ok(t),
{
    let ghost nv = name@;
    let t = TreeNode {
        sibling: None,
        node: Node::Exp { cursor, id: new_node_id(), typ: ExpType::Void, kind: ExpKind::Id { name }, val: None },
    };
    assert(node_view(t.node) == (NodeV::Exp { kind: ExpV::Id { name: nv }, typ: ExpType::Void, cursor, val: None }));
    assert(tree_view(t).sibling is None);
    proof {
        reveal(ids_ok);
        reveal(node_ids_ok);
        if true {
            assert(node_ids_ok(t.node));
            assert(ids_ok(t));
        }
    }
    t
}

pub(crate) fn const_node(value: i32, cursor: Option<Cursor>) -> (t: TreeNode)
    ensures
        t@ == exp(ExpV::Const { value }, cursor),
        ids_ok(t),
{
    let t = TreeNode {
        sibling: None,
        node: Node::Exp { cursor, id: new_node_id(), typ: ExpType::Void, kind: ExpKind::Const { value }, val: None },
    };
    assert(node_view(t.node) == (NodeV::Exp { kind: ExpV::Const { value }, typ: ExpType::Void, cursor, val: None }));
    assert(tree_view(t).sibling is None);
    assert(tree_view(t) == exp(ExpV::Const { value }, cursor));
    proof {
        reveal(ids_ok);
        reveal(node_ids_ok);
        if true {
            assert(node_ids_ok(t.node));
            assert(ids_ok(t));
        }
    }
    t
}

/// Whether a lexeme holds a sign.
pub(crate) fn lexeme_has_sign(s: &String) -> (b: bool)
    ensures
        b == has_sign(s@),
{
    let text = s.as_str();
    let n = text.unicode_len();
    let mut i: usize = 0;
    while i < n
        invariant
            n == s@.len(),
            text@ == s@,
            0 <= i <= n,
            forall|j: int| 0 <= j < i ==> s@[j] != '+' && s@[j] != '-',
        decreases n - i,
    {
        let c = text.get_char(i);
        if c == '+' || c == '-' {
            return true;
        }
        i = i + 1;
    }
    false
}

/// A declaration of `name` followed by the list `sibling`.
pub(crate) fn decl_node(typ: ExpType, name: String, cursor: Option<Cursor>, sibling: Option<Box<TreeNode>>) -> (t: TreeNode)
    ensures
        t@ == decl(typ, name@, cursor, opt_tree_view(sibling)),
        (sibling matches Some(b) ==> ids_ok(*b)) ==> ids_ok(t),
{
    let ghost g_sibling = sibling;
    let ghost nv = name@;
    let ghost sv = opt_tree_view(sibling);
    let t = TreeNode { sibling, node: Node::Decl { kind: DeclKind::Var { typ, name }, id: new_node_id(), cursor } };
    assert(node_view(t.node) == (NodeV::Decl { kind: DeclV::Var { typ, name: nv }, cursor }));
    proof {
        reveal(ids_ok);
        reveal(node_ids_ok);
        if (g_sibling matches Some(b) ==> ids_ok(*b)) {
            assert(node_ids_ok(t.node));
            assert(ids_ok(t));
        }
    }
    t
}

pub(crate) fn if_node(condition: TreeNode, then_branch: Option<TreeNode>, else_branch: Option<TreeNode>, cursor: Option<Cursor>) -> (t: TreeNode)
    ensures
        t@ == stmt(StmtV::If {
            condition: Box::new(condition@),
            then_branch: boxed(opt_view(then_branch)),
            else_branch: boxed(opt_view(else_branch)),
        }, cursor),
        ids_ok(condition) && opt_ids_ok(then_branch) && opt_ids_ok(else_branch) ==> ids_ok(t),
{
    let ghost g_condition = condition;
    let ghost g_then_branch = then_branch;
    let ghost g_else_branch = else_branch;
    let ghost v = StmtV::If {
        condition: Box::new(condition@),
        then_branch: boxed(opt_view(then_branch)),
        else_branch: boxed(opt_view(else_branch)),
    };
    let ghost cv = condition@;
    let tb = box_opt(then_branch);
    let eb = box_opt(else_branch);
    let k = StmtKind::If { condition: Box::new(condition), then_branch: tb, else_branch: eb };
    let t = TreeNode { sibling: None, node: Node::Stmt { kind: k, id: new_node_id(), cursor } };
    assert(opt_tree_view(tb) == boxed(opt_view(then_branch)));
    assert(node_view(t.node) == (NodeV::Stmt { kind: StmtV::If { condition: Box::new(cv), then_branch: opt_tree_view(tb), else_branch: opt_tree_view(eb) }, cursor }));
    assert(node_view(t.node) == (NodeV::Stmt { kind: v, cursor }));
    proof {
        reveal(ids_ok);
        reveal(node_ids_ok);
        if ids_ok(g_condition) && opt_ids_ok(g_then_branch) && opt_ids_ok(g_else_branch) {
            assert(node_ids_ok(t.node));
            assert(ids_ok(t));
        }
    }
    t
}

pub(crate) fn while_node(condition: TreeNode, body: Option<TreeNode>, cursor: Option<Cursor>) -> (t: TreeNode)
    ensures
        t@ == stmt(StmtV::While { condition: Box::new(condition@), body: boxed(opt_view(body)) }, cursor),
        ids_ok(condition) && opt_ids_ok(body) ==> ids_ok(t),
{
    let ghost g_condition = condition;
    let ghost g_body = body;
    let ghost v = StmtV::While { condition: Box::new(condition@), body: boxed(opt_view(body)) };
    let t = TreeNode { sibling: None, node: Node::Stmt { kind: StmtKind::While { condition: Box::new(condition), body: box_opt(body) }, id: new_node_id(), cursor } };
    assert(node_view(t.node) == (NodeV::Stmt { kind: v, cursor }));
    proof {
        reveal(ids_ok);
        reveal(node_ids_ok);
        if ids_ok(g_condition) && opt_ids_ok(g_body) {
            assert(node_ids_ok(t.node));
            assert(ids_ok(t));
        }
    }
    t
}

pub(crate) fn do_node(body: Option<TreeNode>, condition: TreeNode, cursor: Option<Cursor>) -> (t: TreeNode)
    ensures
        t@ == stmt(StmtV::Do { body: boxed(opt_view(body)), condition: Box::new(condition@) }, cursor),
        ids_ok(condition) && opt_ids_ok(body) ==> ids_ok(t),
{
    let ghost g_condition = condition;
    let ghost g_body = body;
    let ghost v = StmtV::Do { body: boxed(opt_view(body)), condition: Box::new(condition@) };
    let t = TreeNode { sibling: None, node: Node::Stmt { kind: StmtKind::Do { body: box_opt(body), condition: Box::new(condition) }, id: new_node_id(), cursor } };
    assert(node_view(t.node) == (NodeV::Stmt { kind: v, cursor }));
    proof {
        reveal(ids_ok);
        reveal(node_ids_ok);
        if ids_ok(g_condition) && opt_ids_ok(g_body) {
            assert(node_ids_ok(t.node));
            assert(ids_ok(t));
        }
    }
    t
}

pub(crate) fn assign_node(name: String, value: TreeNode, cursor: Option<Cursor>) -> (t: TreeNode)
    ensures
        t@ == stmt(StmtV::Assign { name: name@, value: Box::new(value@) }, cursor),
        ids_ok(value) ==> ids_ok(t),
{
    let ghost g_value = value;
    let ghost v = StmtV::Assign { name: name@, value: Box::new(value@) };
    let t = TreeNode { sibling: None, node: Node::Stmt { kind: StmtKind::Assign { name, value: Box::new(value) }, id: new_node_id(), cursor } };
    assert(node_view(t.node) == (NodeV::Stmt { kind: v, cursor }));
    proof {
        reveal(ids_ok);
        reveal(node_ids_ok);
        if ids_ok(g_value) {
            assert(node_ids_ok(t.node));
            assert(ids_ok(t));
        }
    }
    t
}

pub(crate) fn in_node(name: String, cursor: Option<Cursor>) -> (t: TreeNode)
    ensures
        t@ == stmt(StmtV::In { name: name@ }, cursor),
        ids_ok(t),
{
    let ghost v = StmtV::In { name: name@ };
    let t = TreeNode { sibling: None, node: Node::Stmt { kind: StmtKind::In { name }, id: new_node_id(), cursor } };
    assert(node_view(t.node) == (NodeV::Stmt { kind: v, cursor }));
    proof {
        reveal(ids_ok);
        reveal(node_ids_ok);
        if true {
            assert(node_ids_ok(t.node));
            assert(ids_ok(t));
        }
    }
    t
}

pub(crate) fn out_node(expression: TreeNode, cursor: Option<Cursor>) -> (t: TreeNode)
    ensures
        t@ == stmt(StmtV::Out { expression: Box::new(expression@) }, cursor),
        ids_ok(expression) ==> ids_ok(t),
{
    let ghost g_expression = expression;
    let ghost v = StmtV::Out { expression: Box::new(expression@) };
    let t = TreeNode { sibling: None, node: Node::Stmt { kind: StmtKind::Out { expression: Box::new(expression) }, id: new_node_id(), cursor } };
    assert(node_view(t.node) == (NodeV::Stmt { kind: v, cursor }));
    proof {
        reveal(ids_ok);
        reveal(node_ids_ok);
        if ids_ok(g_expression) {
            assert(node_ids_ok(t.node));
            assert(ids_ok(t));
        }
    }
    t
}

/// The negation of `left`.
pub(crate) fn neg_node(left: TreeNode, cursor: Option<Cursor>) -> (t: TreeNode)
    ensures
        t@ == exp(ExpV::Op { op: TokenType::NEG, left: Box::new(left@), right: None }, cursor),
        ids_ok(left) ==> ids_ok(t),
{
    let ghost g_left = left;
    let ghost lv = left@;
    let t = TreeNode {
        sibling: None,
        node: Node::Exp {
            cursor,
            id: new_node_id(),
            typ: ExpType::Void,
            kind: ExpKind::Op { op: TokenType::NEG, left: Box::new(left), right: None },
            val: None,
        },
    };
    assert(node_view(t.node) == (NodeV::Exp {
        kind: ExpV::Op { op: TokenType::NEG, left: Box::new(lv), right: None },
        typ: ExpType::Void,
        cursor,
        val: None,
    }));
    proof {
        reveal(ids_ok);
        reveal(node_ids_ok);
        if ids_ok(g_left) {
            assert(node_ids_ok(t.node));
            assert(ids_ok(t));
        }
    }
    t
}

/// A float literal, holding its text.
pub(crate) fn constf_node(value: String, cursor: Option<Cursor>) -> (t: TreeNode)
    ensures
        t@ == exp(ExpV::ConstF { value: value@ }, cursor),
        ids_ok(t),
{
    let ghost vv = value@;
    let t = TreeNode {
        sibling: None,
        node: Node::Exp { cursor, id: new_node_id(), typ: ExpType::Void, kind: ExpKind::ConstF { value }, val: None },
    };
    assert(node_view(t.node) == (NodeV::Exp { kind: ExpV::ConstF { value: vv }, typ: ExpType::Void, cursor, val: None }));
    proof {
        reveal(ids_ok);
        reveal(node_ids_ok);
        if true {
            assert(node_ids_ok(t.node));
            assert(ids_ok(t));
        }
    }
    t
}

/// Appends the list `b` after the last sibling of `a`.
pub(crate) fn append_sibling(a: &mut TreeNode, b: TreeNode)
    ensures
        tree_view(*final(a)) == append_tree(tree_view(*old(a)), tree_view(b)),
        ids_ok(*old(a)) && ids_ok(b) ==> ids_ok(*final(a)),
    decreases *old(a),
{
    proof {
        reveal(ids_ok);
    }
    match a.sibling.take() {
        Some(mut next) => {
            append_sibling(&mut next, b);
            a.sibling = Some(next);
        },
        None => {
            a.sibling = Some(Box::new(b));
        },
    }
}

} // verus!
