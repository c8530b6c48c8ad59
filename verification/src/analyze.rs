//! The semantic analyzer: the symbol table, the types of the expressions and
//! the values known before run time.

use vstd::prelude::*;
use crate::analyze_model::{index_of, key_at, lemma_sym_children_wf, lemma_sym_opt_wf, lemma_sym_tree_wf, lemma_sym_visit_wf, sym_children, sym_decl, sym_err, sym_opt, sym_tree, sym_use, sym_visit, unique_keys, SymState, assign_check, cond_check, cursor_or_fake, op_typing, out_check, ty_node, ty_opt, ty_tree, analysis, arith, Arith, binop_step, op_step, ev_tree, ev_opt, ev_node, assign_value, msg_bad_operands, says_true, values_eq, values_order, expr_value, EvState, EvStep, FloatOps};
use crate::structures::{
    node_view, opt_tree_view, tree_view, AnalyzeError, DeclKind, ExpKind, ExpType, Node, NodeValue,
    StmtKind, SymbolData, SymbolDataV, SymbolErrorV, SymbolReference, TreeNode, NodeV, TreeV, ValueV, opt_value_view,
};
use crate::analyze_floats::{float_free, lemma_sym_tree_float_free, lemma_ty_tree_float_free, lemma_ev_node_no_floats, lemma_ev_opt_no_floats, lemma_ev_tree_no_floats, lemma_expr_value_no_float, node_float_free, not_float, opt_float_free, tab_float_free};
use crate::ids::{node_ids, opt_ids, tree_ids};
use crate::text::str_eq;
use crate::values::{copy_opt, int_arith_exec};
use crate::token::{fake_cursor, Cursor, TokenType};

verus! {

/// The variables of a program, in the order of their declarations, each
/// with what the analyzer knows of it. No name occurs twice.
pub struct SymbolTable {
    entries: Vec<(String, SymbolData)>,
}

impl View for SymbolTable {
    type V = Seq<(Seq<char>, SymbolDataV)>;

    closed spec fn view(&self) -> Seq<(Seq<char>, SymbolDataV)> {
        self.entries@.map_values(|e: (String, SymbolData)| (e.0@, e.1@))
    }
}

impl SymbolTable {
    /// An empty table.
    pub fn new() -> (t: SymbolTable)
        ensures
            t@ == Seq::<(Seq<char>, SymbolDataV)>::empty(),
    {
        let t = SymbolTable { entries: Vec::new() };
        assert(t@ =~= Seq::<(Seq<char>, SymbolDataV)>::empty());
        t
    }

    /// The number of variables.
    pub fn len(&self) -> (n: usize)
        ensures
            n == self@.len(),
    {
        self.entries.len()
    }

    /// The name of the `i`-th variable.
    pub fn name_at(&self, i: usize) -> (s: &String)
        requires
            i < self@.len(),
        ensures
            s@ == self@[i as int].0,
    {
        &self.entries[i].0
    }

    /// What is known of the `i`-th variable.
    pub fn data_at(&self, i: usize) -> (d: &SymbolData)
        requires
            i < self@.len(),
        ensures
            d@ == self@[i as int].1,
    {
        &self.entries[i].1
    }

    /// The index of the entry for `name`.
    pub fn find(&self, name: &str) -> (r: Option<usize>)
        requires
            unique_keys(self@),
        ensures
            match r {
                Some(i) => i < self@.len() && i == index_of(self@, name@),
                None => index_of(self@, name@) == -1,
            },
    {
        let n = self.entries.len();
        let mut i: usize = 0;
        while i < n
            invariant
                n == self@.len(),
                i <= n,
                unique_keys(self@),
                forall|j: int| 0 <= j < i ==> !key_at(self@, name@, j),
            decreases n - i,
        {
            if str_eq(self.entries[i].0.as_str(), name) {
                proof {
                    assert(key_at(self@, name@, i as int));
                    let k = index_of(self@, name@);
                    assert(key_at(self@, name@, k));
                    assert(self@[k].0 == self@[i as int].0);
                    assert(k == i);
                }
                return Some(i);
            }
            i = i + 1;
        }
        proof {
            assert(!exists|k: int| key_at(self@, name@, k));
        }
        None
    }

    /// What is known of the variable `name`.
    pub fn get(&self, name: &str) -> (r: Option<&SymbolData>)
        requires
            unique_keys(self@),
        ensures
            match r {
                Some(d) => index_of(self@, name@) >= 0 && d@ == self@[index_of(self@, name@)].1,
                None => index_of(self@, name@) == -1,
            },
    {
        match self.find(name) {
            Some(i) => Some(&self.entries[i].1),
            None => None,
        }
    }

    fn push(&mut self, name: String, d: SymbolData)
        ensures
            final(self)@ == old(self)@.push((name@, d@)),
    {
        self.entries.push((name, d));
        assert(self@ =~= old(self)@.push((name@, d@)));
    }

    fn set_value(&mut self, i: usize, v: Option<NodeValue>)
        requires
            i < old(self)@.len(),
        ensures
            final(self)@ == old(self)@.update(
                i as int,
                (old(self)@[i as int].0, SymbolDataV { value: opt_value_view(v), ..old(self)@[i as int].1 }),
            ),
    {
        let (name, mut d) = self.entries.remove(i);
        d.value = v;
        self.entries.insert(i, (name, d));
        assert(self@ =~= old(self)@.update(
            i as int,
            (old(self)@[i as int].0, SymbolDataV { value: opt_value_view(v), ..old(self)@[i as int].1 }),
        ));
    }

    fn add_usage(&mut self, i: usize, c: Cursor)
        requires
            i < old(self)@.len(),
        ensures
            final(self)@ == old(self)@.update(
                i as int,
                (old(self)@[i as int].0, SymbolDataV { usages: old(self)@[i as int].1.usages.push(c), ..old(self)@[i as int].1 }),
            ),
    {
        let (name, mut d) = self.entries.remove(i);
        let ghost old_usages = d.usages@;
        d.usages.push(SymbolReference { cursor: c });
        assert(d.usages@.map_values(|r: SymbolReference| r.cursor) =~= old_usages.map_values(
            |r: SymbolReference| r.cursor,
        ).push(c));
        self.entries.insert(i, (name, d));
        assert(self@ =~= old(self)@.update(
            i as int,
            (old(self)@[i as int].0, SymbolDataV { usages: old(self)@[i as int].1.usages.push(c), ..old(self)@[i as int].1 }),
        ));
    }
}

/// The model of a list of errors.
pub open spec fn errs_view(v: Seq<AnalyzeError>) -> Seq<SymbolErrorV> {
    v.map_values(|e: AnalyzeError| e@)
}

/// The analyzer: the errors found so far and the symbol table.
pub struct Analyzer {
    pub errors: Vec<AnalyzeError>,
    pub symbol_table: SymbolTable,
}

/// The state of the first walk is that of `a`, with `loc` the next free
/// memory location.
pub open spec fn sym_holds(a: Analyzer, loc: i32, s: SymState) -> bool {
    &&& a.symbol_table@ == s.tab
    &&& errs_view(a.errors@) == s.errs
    &&& loc == s.loc
}

impl Analyzer {
    /// An analyzer with no errors and an empty table.
    pub fn new() -> (a: Analyzer)
        ensures
            a.errors@.len() == 0,
            a.symbol_table@ == Seq::<(Seq<char>, SymbolDataV)>::empty(),
    {
        Analyzer { errors: Vec::new(), symbol_table: SymbolTable::new() }
    }

    fn push_error(&mut self, message: String, cursor: Cursor)
        ensures
            errs_view(final(self).errors@) == errs_view(old(self).errors@).push(sym_err(message@, cursor)),
            final(self).symbol_table == old(self).symbol_table,
    {
        self.errors.push(AnalyzeError { message, cursor });
        assert(errs_view(self.errors@) =~= errs_view(old(self).errors@).push(sym_err(message@, cursor)));
    }

    fn sym_use(&mut self, name: &str, cursor: Option<Cursor>, loc: i32) -> (ok: bool)
        requires
            unique_keys(old(self).symbol_table@),
        ensures
            match sym_use(SymState { tab: old(self).symbol_table@, errs: errs_view(old(self).errors@), loc }, name@, cursor) {
                None => !ok,
                Some(s) => ok && sym_holds(*final(self), loc, s),
            },
    {
        match cursor {
            None => false,
            Some(c) => {
                match self.symbol_table.find(name) {
                    Some(i) => {
                        self.symbol_table.add_usage(i, c);
                    },
                    None => {
                        self.push_error(String::from_str("Uso antes de declaración"), c);
                    },
                }
                true
            },
        }
    }

    fn sym_decl(&mut self, name: &String, typ: ExpType, cursor: Option<Cursor>, loc: &mut i32) -> (ok: bool)
        requires
            unique_keys(old(self).symbol_table@),
        ensures
            match sym_decl(SymState { tab: old(self).symbol_table@, errs: errs_view(old(self).errors@), loc: *old(loc) }, name@, typ, cursor) {
                None => !ok,
                Some(s) => ok && sym_holds(*final(self), *final(loc), s),
            },
    {
        match cursor {
            None => false,
            Some(c) => {
                match self.symbol_table.find(name.as_str()) {
                    Some(_) => {
                        self.push_error(String::from_str("Doble declaración"), c);
                        true
                    },
                    None => {
                        if *loc == i32::MAX {
                            return false;
                        }
                        let d = SymbolData {
                            mem_location: *loc,
                            typ,
                            declaration: c,
                            value: None,
                            usages: Vec::new(),
                        };
                        assert(d@.usages =~= Seq::<Cursor>::empty());
                        self.symbol_table.push(name.clone(), d);
                        *loc = *loc + 1;
                        true
                    },
                }
            },
        }
    }

    fn sym_visit(&mut self, n: &Node, loc: &mut i32) -> (ok: bool)
        requires
            unique_keys(old(self).symbol_table@),
        ensures
            match sym_visit(n@, SymState { tab: old(self).symbol_table@, errs: errs_view(old(self).errors@), loc: *old(loc) }) {
                None => !ok,
                Some(s) => ok && sym_holds(*final(self), *final(loc), s),
            },
    {
        match n {
            Node::Exp { kind: ExpKind::Id { name }, cursor, .. } => self.sym_use(name.as_str(), *cursor, *loc),
            Node::Decl { kind: DeclKind::Var { typ, name }, cursor, .. } => self.sym_decl(name, *typ, *cursor, loc),
            Node::Stmt { kind: StmtKind::Assign { name, .. }, cursor, .. } => self.sym_use(name.as_str(), *cursor, *loc),
            Node::Stmt { kind: StmtKind::In { name }, cursor, .. } => self.sym_use(name.as_str(), *cursor, *loc),
            _ => true,
        }
    }

    fn sym_tree(&mut self, t: &TreeNode, loc: &mut i32) -> (ok: bool)
        requires
            unique_keys(old(self).symbol_table@),
        ensures
            match sym_tree(t@, SymState { tab: old(self).symbol_table@, errs: errs_view(old(self).errors@), loc: *old(loc) }) {
                None => !ok,
                Some(s) => ok && sym_holds(*final(self), *final(loc), s),
            },
        decreases t,
    {
        proof {
            lemma_sym_visit_wf(t.node@, SymState { tab: self.symbol_table@, errs: errs_view(self.errors@), loc: *loc });
        }
        if !self.sym_visit(&t.node, loc) {
            return false;
        }
        proof {
            lemma_sym_children_wf(t.node@, SymState { tab: self.symbol_table@, errs: errs_view(self.errors@), loc: *loc });
        }
        if !self.sym_children(&t.node, loc) {
            return false;
        }
        self.sym_opt(&t.sibling, loc)
    }

    fn sym_opt(&mut self, o: &Option<Box<TreeNode>>, loc: &mut i32) -> (ok: bool)
        requires
            unique_keys(old(self).symbol_table@),
        ensures
            match sym_opt(opt_tree_view(*o), SymState { tab: old(self).symbol_table@, errs: errs_view(old(self).errors@), loc: *old(loc) }) {
                None => !ok,
                Some(s) => ok && sym_holds(*final(self), *final(loc), s),
            },
        decreases o,
    {
        match o {
            Some(t) => self.sym_tree(t, loc),
            None => true,
        }
    }

    fn sym_children(&mut self, n: &Node, loc: &mut i32) -> (ok: bool)
        requires
            unique_keys(old(self).symbol_table@),
        ensures
            match sym_children(n@, SymState { tab: old(self).symbol_table@, errs: errs_view(old(self).errors@), loc: *old(loc) }) {
                None => !ok,
                Some(s) => ok && sym_holds(*final(self), *final(loc), s),
            },
        decreases n,
    {
        let ghost s0 = SymState { tab: self.symbol_table@, errs: errs_view(self.errors@), loc: *loc };
        match n {
            Node::Stmt { kind, .. } => match kind {
                StmtKind::If { condition, then_branch, else_branch } => {
                    proof { lemma_sym_tree_wf(tree_view(**condition), s0); }
                    if !self.sym_tree(condition, loc) {
                        return false;
                    }
                    let ghost s1 = SymState { tab: self.symbol_table@, errs: errs_view(self.errors@), loc: *loc };
                    proof { lemma_sym_opt_wf(opt_tree_view(*then_branch), s1); }
                    if !self.sym_opt(then_branch, loc) {
                        return false;
                    }
                    self.sym_opt(else_branch, loc)
                },
                StmtKind::While { condition, body } => {
                    proof { lemma_sym_tree_wf(tree_view(**condition), s0); }
                    if !self.sym_tree(condition, loc) {
                        return false;
                    }
                    self.sym_opt(body, loc)
                },
                StmtKind::Do { body, condition } => {
                    proof { lemma_sym_opt_wf(opt_tree_view(*body), s0); }
                    if !self.sym_opt(body, loc) {
                        return false;
                    }
                    self.sym_tree(condition, loc)
                },
                StmtKind::Assign { value, .. } => self.sym_tree(value, loc),
                StmtKind::In { .. } => true,
                StmtKind::Out { expression } => self.sym_tree(expression, loc),
            },
            Node::Exp { kind, .. } => match kind {
                ExpKind::Op { left, right, .. } => {
                    proof { lemma_sym_tree_wf(tree_view(**left), s0); }
                    if !self.sym_tree(left, loc) {
                        return false;
                    }
                    self.sym_opt(right, loc)
                },
                _ => true,
            },
            Node::Decl { .. } => true,
        }
    }

    /// The first walk over `node`: fills the symbol table and records the
    /// uses of undeclared variables and the second declarations of a name.
    /// `false` where the walk stops the program.
    fn create_symbol_table(&mut self, node: &TreeNode) -> (ok: bool)
        requires
            unique_keys(old(self).symbol_table@),
        ensures
            ok ==> unique_keys(final(self).symbol_table@),
            match sym_tree(node@, SymState { tab: old(self).symbol_table@, errs: errs_view(old(self).errors@), loc: 0 }) {
                None => !ok,
                Some(s) => ok && final(self).symbol_table@ == s.tab && errs_view(final(self).errors@) == s.errs,
            },
    {
        let mut location: i32 = 0;
        proof {
            lemma_sym_tree_wf(node@, SymState { tab: self.symbol_table@, errs: errs_view(self.errors@), loc: 0 });
        }
        self.sym_tree(node, &mut location)
    }
}

/// The type and position of an expression node; `None` for another node.
fn exp_type_of(n: &Node) -> (r: Option<(ExpType, Option<Cursor>)>)
    ensures
        r == match n@ {
            NodeV::Exp { typ, cursor, .. } => Some((typ, cursor)),
            _ => None,
        },
{
    match n {
        Node::Exp { typ, cursor, .. } => Some((*typ, *cursor)),
        _ => None,
    }
}

fn cursor_or_fake_exec(c: Option<Cursor>) -> (r: Cursor)
    ensures
        r == cursor_or_fake(c),
{
    match c {
        Some(c) => c,
        None => fake_cursor(),
    }
}

impl Analyzer {
    fn check_cond(&mut self, c: &TreeNode, msg: &str)
        ensures
            errs_view(final(self).errors@) == cond_check(c@.node, errs_view(old(self).errors@), msg@),
            final(self).symbol_table == old(self).symbol_table,
    {
        match exp_type_of(&c.node) {
            Some((typ, cursor)) => {
                if typ != ExpType::Boolean {
                    self.push_error(String::from_str(msg), cursor_or_fake_exec(cursor));
                }
            },
            None => {},
        }
    }

    fn check_assign(&mut self, v: &TreeNode, name: &String)
        requires
            unique_keys(old(self).symbol_table@),
        ensures
            errs_view(final(self).errors@) == assign_check(v@.node, old(self).symbol_table@, name@, errs_view(old(self).errors@)),
            final(self).symbol_table == old(self).symbol_table,
    {
        match exp_type_of(&v.node) {
            Some((typ, cursor)) => {
                match self.symbol_table.find(name.as_str()) {
                    Some(i) => {
                        if typ == ExpType::Boolean {
                            self.push_error(
                                String::from_str("No se puede asignar una expresion booleana a una variable"),
                                cursor_or_fake_exec(cursor),
                            );
                        } else if self.symbol_table.data_at(i).typ != typ {
                            self.push_error(String::from_str("Se asigno un valor de tipo distinto!"), cursor_or_fake_exec(cursor));
                        }
                    },
                    None => {},
                }
            },
            None => {},
        }
    }

    fn check_out(&mut self, x: &TreeNode)
        ensures
            errs_view(final(self).errors@) == out_check(x@.node, errs_view(old(self).errors@)),
            final(self).symbol_table == old(self).symbol_table,
    {
        match exp_type_of(&x.node) {
            Some((typ, cursor)) => {
                if !(typ == ExpType::Integer || typ == ExpType::Float) {
                    self.push_error(
                        String::from_str("La sentencia out solo está definida para expresiones Enteras y Flotantes!"),
                        cursor_or_fake_exec(cursor),
                    );
                }
            },
            None => {},
        }
    }

    fn op_typing(&mut self, op: TokenType, l: &Node, r: &Option<Box<TreeNode>>, typ: ExpType, cursor: Option<Cursor>) -> (res: Option<ExpType>)
        ensures
            match op_typing(op, l@, opt_tree_view(*r), typ, cursor, errs_view(old(self).errors@)) {
                None => res is None,
                Some((t, e)) => res == Some(t) && errs_view(final(self).errors@) == e,
            },
            final(self).symbol_table == old(self).symbol_table,
    {
        let c = cursor_or_fake_exec(cursor);
        match r {
            Some(rb) => {
                let arith = op == TokenType::SUM || op == TokenType::MIN || op == TokenType::TIMES
                    || op == TokenType::DIV || op == TokenType::MODULUS || op == TokenType::POWER;
                let order = op == TokenType::LT || op == TokenType::LE || op == TokenType::GT || op == TokenType::GE;
                let equality = op == TokenType::NE || op == TokenType::EQ;
                let logic = op == TokenType::AND || op == TokenType::OR;
                if !(arith || order || equality || logic) {
                    return None;
                }
                match (exp_type_of(l), exp_type_of(&rb.node)) {
                    (Some((lt, _)), Some((rt, _))) => {
                        let lnum = lt == ExpType::Integer || lt == ExpType::Float;
                        let rnum = rt == ExpType::Integer || rt == ExpType::Float;
                        if arith {
                            if !lnum || !rnum {
                                self.push_error(
                                    String::from_str("Una operacion arimetica no puede ser aplicada en un tipo distinto a float o entero"),
                                    c,
                                );
                            }
                            if lt == ExpType::Float || rt == ExpType::Float {
                                Some(ExpType::Float)
                            } else {
                                Some(ExpType::Integer)
                            }
                        } else if order {
                            if !lnum || !rnum {
                                self.push_error(
                                    String::from_str("Una operacion de comparacion aritmetica no puede ser aplicada en un tipo distinto a float o entero"),
                                    c,
                                );
                            }
                            Some(ExpType::Boolean)
                        } else if equality {
                            if (!lnum && lt != ExpType::Boolean) || (!rnum && rt != ExpType::Boolean) {
                                self.push_error(
                                    String::from_str("Una operacion de comparacion aritmetica no puede ser aplicada en un tipo distinto a float o entero"),
                                    c,
                                );
                            }
                            Some(ExpType::Boolean)
                        } else {
                            if lt != ExpType::Boolean || rt != ExpType::Boolean {
                                self.push_error(
                                    String::from_str("Una operacion lógica no puede ser aplicada en un tipo distinto a booleano"),
                                    c,
                                );
                            }
                            Some(ExpType::Boolean)
                        }
                    },
                    _ => Some(typ),
                }
            },
            None => {
                if op != TokenType::NEG {
                    self.push_error(String::from_str("Operacion binaria sin lado derecho"), c);
                    Some(typ)
                } else {
                    match exp_type_of(l) {
                        Some((lt, _)) => {
                            if lt != ExpType::Boolean {
                                self.push_error(
                                    String::from_str("Operacion de negacion solo esta disponible para booleanos"),
                                    c,
                                );
                            }
                        },
                        None => {},
                    }
                    Some(ExpType::Boolean)
                }
            },
        }
    }

    fn check_tree(&mut self, t: TreeNode) -> (r: Option<TreeNode>)
        requires
            unique_keys(old(self).symbol_table@),
        ensures
            final(self).symbol_table == old(self).symbol_table,
            match ty_tree(t@, old(self).symbol_table@, errs_view(old(self).errors@)) {
                None => r is None,
                Some(p) => r matches Some(t2) && t2@ == p.0 && errs_view(final(self).errors@) == p.1,
            },
            r matches Some(t2) ==> tree_ids(t2) == tree_ids(t),
        decreases t,
    {
        let TreeNode { sibling, node } = t;
        let n2 = self.check_node(node)?;
        let s2 = self.check_opt(sibling)?;
        Some(TreeNode { sibling: s2, node: n2 })
    }

    fn check_opt(&mut self, o: Option<Box<TreeNode>>) -> (r: Option<Option<Box<TreeNode>>>)
        requires
            unique_keys(old(self).symbol_table@),
        ensures
            final(self).symbol_table == old(self).symbol_table,
            match ty_opt(opt_tree_view(o), old(self).symbol_table@, errs_view(old(self).errors@)) {
                None => r is None,
                Some(p) => r matches Some(o2) && opt_tree_view(o2) == p.0 && errs_view(final(self).errors@) == p.1,
            },
            r matches Some(o2) ==> opt_ids(o2) == opt_ids(o),
        decreases o,
    {
        match o {
            Some(b) => {
                let t2 = self.check_tree(*b)?;
                Some(Some(Box::new(t2)))
            },
            None => Some(None),
        }
    }

    fn check_node(&mut self, n: Node) -> (r: Option<Node>)
        requires
            unique_keys(old(self).symbol_table@),
        ensures
            final(self).symbol_table == old(self).symbol_table,
            match ty_node(n@, old(self).symbol_table@, errs_view(old(self).errors@)) {
                None => r is None,
                Some(p) => r matches Some(n2) && n2@ == p.0 && errs_view(final(self).errors@) == p.1,
            },
            r matches Some(n2) ==> node_ids(n2) == node_ids(n),
        decreases n,
    {
        match n {
            Node::Stmt { kind, id, cursor } => {
                let kind2 = match kind {
                    StmtKind::If { condition, then_branch, else_branch } => {
                        let c2 = self.check_tree(*condition)?;
                        let t2 = self.check_opt(then_branch)?;
                        let e2 = self.check_opt(else_branch)?;
                        self.check_cond(&c2, "Condicion de IF no es booleana");
                        StmtKind::If { condition: Box::new(c2), then_branch: t2, else_branch: e2 }
                    },
                    StmtKind::While { condition, body } => {
                        let c2 = self.check_tree(*condition)?;
                        let b2 = self.check_opt(body)?;
                        self.check_cond(&c2, "Condicion de While no es booleana");
                        StmtKind::While { condition: Box::new(c2), body: b2 }
                    },
                    StmtKind::Do { body, condition } => {
                        let b2 = self.check_opt(body)?;
                        let c2 = self.check_tree(*condition)?;
                        self.check_cond(&c2, "Condicion de Do no es booleana");
                        StmtKind::Do { body: b2, condition: Box::new(c2) }
                    },
                    StmtKind::Assign { name, value } => {
                        let v2 = self.check_tree(*value)?;
                        self.check_assign(&v2, &name);
                        StmtKind::Assign { name, value: Box::new(v2) }
                    },
                    StmtKind::In { name } => StmtKind::In { name },
                    StmtKind::Out { expression } => {
                        let x2 = self.check_tree(*expression)?;
                        self.check_out(&x2);
                        StmtKind::Out { expression: Box::new(x2) }
                    },
                };
                Some(Node::Stmt { kind: kind2, id, cursor })
            },
            Node::Exp { kind, typ, id, cursor, val } => {
                match kind {
                    ExpKind::Op { op, left, right } => {
                        let l2 = self.check_tree(*left)?;
                        let r2 = self.check_opt(right)?;
                        let t3 = self.op_typing(op, &l2.node, &r2, typ, cursor)?;
                        Some(Node::Exp { kind: ExpKind::Op { op, left: Box::new(l2), right: r2 }, typ: t3, id, cursor, val })
                    },
                    ExpKind::Const { value } => Some(Node::Exp { kind: ExpKind::Const { value }, typ: ExpType::Integer, id, cursor, val }),
                    ExpKind::ConstF { value } => Some(Node::Exp { kind: ExpKind::ConstF { value }, typ: ExpType::Float, id, cursor, val }),
                    ExpKind::Id { name } => {
                        let t2 = match self.symbol_table.find(name.as_str()) {
                            Some(i) => self.symbol_table.data_at(i).typ,
                            None => typ,
                        };
                        Some(Node::Exp { kind: ExpKind::Id { name }, typ: t2, id, cursor, val })
                    },
                }
            },
            Node::Decl { kind, id, cursor } => Some(Node::Decl { kind, id, cursor }),
        }
    }
}

/// `f` computes the float operations `fl`: whatever it returns is what `fl`
/// gives on its arguments.
pub open spec fn oracle_is<F: Fn(TokenType, NodeValue, NodeValue) -> NodeValue>(f: F, fl: FloatOps) -> bool {
    forall|o: TokenType, l: NodeValue, r: NodeValue, v: NodeValue|
        #[trigger] f.ensures((o, l, r), v) ==> v@ == fl(o, l@, r@)
}

/// Any float operations at all: a clause under it holds whatever the float
/// operations are.
pub open spec fn every_ops(fl: FloatOps) -> bool {
    true
}

/// `f` can be called on any arguments.
pub open spec fn oracle_total<F: Fn(TokenType, NodeValue, NodeValue) -> NodeValue>(f: F) -> bool {
    forall|o: TokenType, l: NodeValue, r: NodeValue| #[trigger] f.requires((o, l, r))
}

/// The state of the third walk is that of `a`.
pub open spec fn ev_holds(a: Analyzer, s: EvState) -> bool {
    &&& a.symbol_table@ == s.tab
    &&& errs_view(a.errors@) == s.errs
}

pub open spec fn ev_state(a: Analyzer) -> EvState {
    EvState { tab: a.symbol_table@, errs: errs_view(a.errors@) }
}

/// What the exec step did, for an operator node.
enum StepOut {
    Crash,
    Keep,
    Becomes(Option<NodeValue>),
}

spec fn step_matches(res: StepOut, errs: Seq<SymbolErrorV>, step: EvStep) -> bool {
    match step {
        EvStep::Crash => res is Crash,
        EvStep::Keep(e) => res is Keep && errs == e,
        EvStep::Becomes(v, e) => res matches StepOut::Becomes(x) && opt_value_view(x) == v && errs == e,
    }
}

pub open spec fn tree_out(r: Option<TreeNode>, a: Analyzer, spec: Option<(TreeV, EvState)>) -> bool {
    match spec {
        None => r is None,
        Some((t2, s2)) => r matches Some(x) && x@ == t2 && ev_holds(a, s2),
    }
}

pub open spec fn opt_out(r: Option<Option<Box<TreeNode>>>, a: Analyzer, spec: Option<(Option<Box<TreeV>>, EvState)>) -> bool {
    match spec {
        None => r is None,
        Some((o2, s2)) => r matches Some(x) && opt_tree_view(x) == o2 && ev_holds(a, s2),
    }
}

pub open spec fn node_out(r: Option<Node>, a: Analyzer, spec: Option<(NodeV, EvState)>) -> bool {
    match spec {
        None => r is None,
        Some((n2, s2)) => r matches Some(x) && x@ == n2 && ev_holds(a, s2),
    }
}

fn says_true_exec<F: Fn(TokenType, NodeValue, NodeValue) -> NodeValue>(f: &F, op: TokenType, l: NodeValue, r: NodeValue) -> (b: bool)
    requires
        oracle_total(*f),
    ensures
        forall|fl: FloatOps| #[trigger] oracle_is(*f, fl) ==> b == says_true(fl, op, l@, r@),
{
    let v = f(op, l, r);
    match v {
        NodeValue::Boolean(true) => true,
        _ => false,
    }
}

fn bad_operands_msg(op: TokenType) -> (s: &'static str)
    ensures
        s@ == msg_bad_operands(op),
{
    if op == TokenType::SUM {
        "La suma solo está definida para numeros"
    } else if op == TokenType::MIN {
        "La resta solo está definida para numeros"
    } else if op == TokenType::TIMES {
        "La multiplicación solo está definida para numeros"
    } else if op == TokenType::MODULUS {
        "El módulo solo está definida para numeros"
    } else if op == TokenType::POWER {
        "La exponenciación solo está definida para numeros"
    } else if op == TokenType::DIV {
        "La división solo está definida para numeros"
    } else if op == TokenType::AND {
        "El operador AND solo está definida para booleanos"
    } else {
        "El operador OR solo está definida para booleanos"
    }
}

fn values_eq_exec<F: Fn(TokenType, NodeValue, NodeValue) -> NodeValue>(l: &NodeValue, r: &NodeValue, f: &F) -> (b: bool)
    requires
        oracle_total(*f),
    ensures
        forall|fl: FloatOps| #[trigger] oracle_is(*f, fl) ==> b == values_eq(l@, r@, fl),
        !(l is Float) && !(r is Float) ==> forall|fl: FloatOps| #[trigger] every_ops(fl) ==> b == values_eq(l@, r@, fl),
{
    match (l, r) {
        (NodeValue::Int(a), NodeValue::Int(b)) => *a == *b,
        (NodeValue::Int(a), NodeValue::Boolean(b)) => (*a == 1) == *b,
        (NodeValue::Boolean(a), NodeValue::Int(b)) => *a == (*b == 1),
        (NodeValue::Boolean(a), NodeValue::Boolean(b)) => *a == *b,
        (NodeValue::Float(_), NodeValue::Boolean(b)) => says_true_exec(f, TokenType::EQ, l.copy(), NodeValue::Int(1)) == *b,
        (NodeValue::Boolean(a), NodeValue::Float(_)) => *a == says_true_exec(f, TokenType::EQ, r.copy(), NodeValue::Int(1)),
        _ => says_true_exec(f, TokenType::EQ, l.copy(), r.copy()),
    }
}

fn values_order_exec<F: Fn(TokenType, NodeValue, NodeValue) -> NodeValue>(op: TokenType, l: &NodeValue, r: &NodeValue, f: &F) -> (b: bool)
    requires
        oracle_total(*f),
    ensures
        forall|fl: FloatOps| #[trigger] oracle_is(*f, fl) ==> b == values_order(op, l@, r@, fl),
        !(l is Float) && !(r is Float) ==> forall|fl: FloatOps| #[trigger] every_ops(fl) ==> b == values_order(op, l@, r@, fl),
{
    match (l, r) {
        (NodeValue::Int(a), NodeValue::Int(b)) => if op == TokenType::LT {
            *a < *b
        } else if op == TokenType::LE {
            *a <= *b
        } else if op == TokenType::GT {
            *a > *b
        } else {
            *a >= *b
        },
        _ => {
            let num = !matches!(l, NodeValue::Boolean(_)) && !matches!(r, NodeValue::Boolean(_));
            num && says_true_exec(f, op, l.copy(), r.copy())
        },
    }
}

impl Analyzer {
    /// The value of an expression node as an operator above it reads it.
    fn expr_value(&self, t: &TreeNode) -> (r: Option<NodeValue>)
        requires
            unique_keys(self.symbol_table@),
        ensures
            opt_value_view(r) == expr_value(t@, self.symbol_table@),
    {
        match &t.node {
            Node::Exp { kind, val, .. } => match kind {
                ExpKind::Const { value } => Some(NodeValue::Int(*value)),
                ExpKind::ConstF { value } => Some(NodeValue::Float(value.clone())),
                ExpKind::Id { name } => match self.symbol_table.find(name.as_str()) {
                    Some(i) => copy_opt(&self.symbol_table.data_at(i).value),
                    None => None,
                },
                ExpKind::Op { .. } => copy_opt(val),
            },
            _ => None,
        }
    }

    fn binop_step<F: Fn(TokenType, NodeValue, NodeValue) -> NodeValue>(
        &mut self,
        op: TokenType,
        l: &NodeValue,
        r: &NodeValue,
        cursor: Option<Cursor>,
        f: &F,
    ) -> (res: StepOut)
        requires
            oracle_total(*f),
        ensures
            final(self).symbol_table == old(self).symbol_table,
            forall|fl: FloatOps| #[trigger] oracle_is(*f, fl)
                ==> step_matches(res, errs_view(final(self).errors@), binop_step(op, l@, r@, cursor, errs_view(old(self).errors@), fl)),
            !(*l is Float) && !(*r is Float) ==> forall|fl: FloatOps| #[trigger] every_ops(fl) ==> step_matches(
                res,
                errs_view(final(self).errors@),
                binop_step(op, l@, r@, cursor, errs_view(old(self).errors@), fl),
            ),
    {
        let c = cursor_or_fake_exec(cursor);
        let zero = if op == TokenType::DIV {
            match r {
                NodeValue::Int(b) => *b == 0,
                NodeValue::Float(_) => says_true_exec(f, TokenType::EQ, r.copy(), NodeValue::Int(0)),
                NodeValue::Boolean(_) => false,
            }
        } else {
            false
        };
        if zero {
            return match cursor {
                None => StepOut::Crash,
                Some(c0) => {
                    self.push_error(String::from_str("División entre cero"), c0);
                    StepOut::Keep
                },
            };
        }
        let arith = op == TokenType::SUM || op == TokenType::MIN || op == TokenType::TIMES
            || op == TokenType::DIV || op == TokenType::MODULUS || op == TokenType::POWER;
        if arith {
            match (l, r) {
                (NodeValue::Int(a), NodeValue::Int(b)) => match int_arith_exec(op, *a, *b) {
                    Some(x) => StepOut::Becomes(Some(NodeValue::Int(x))),
                    None => StepOut::Crash,
                },
                _ => {
                    if !matches!(l, NodeValue::Boolean(_)) && !matches!(r, NodeValue::Boolean(_)) {
                        let v = f(op, l.copy(), r.copy());
                        StepOut::Becomes(Some(v))
                    } else {
                        self.push_error(String::from_str(bad_operands_msg(op)), c);
                        StepOut::Becomes(None)
                    }
                },
            }
        } else if op == TokenType::NE {
            let e = values_eq_exec(l, r, f);
            StepOut::Becomes(Some(NodeValue::Boolean(!e)))
        } else if op == TokenType::EQ {
            let e = values_eq_exec(l, r, f);
            StepOut::Becomes(Some(NodeValue::Boolean(e)))
        } else if op == TokenType::LT || op == TokenType::LE || op == TokenType::GT || op == TokenType::GE {
            let o = values_order_exec(op, l, r, f);
            StepOut::Becomes(Some(NodeValue::Boolean(o)))
        } else if op == TokenType::AND || op == TokenType::OR {
            match (l, r) {
                (NodeValue::Boolean(a), NodeValue::Boolean(b)) => {
                    let v = if op == TokenType::AND { *a && *b } else { *a || *b };
                    StepOut::Becomes(Some(NodeValue::Boolean(v)))
                },
                _ => {
                    self.push_error(String::from_str(bad_operands_msg(op)), c);
                    StepOut::Becomes(None)
                },
            }
        } else {
            StepOut::Crash
        }
    }
}

impl Analyzer {
    fn op_step<F: Fn(TokenType, NodeValue, NodeValue) -> NodeValue>(
        &mut self,
        op: TokenType,
        l: &TreeNode,
        r: &Option<Box<TreeNode>>,
        cursor: Option<Cursor>,
        f: &F,
    ) -> (res: StepOut)
        requires
            oracle_total(*f),
            unique_keys(old(self).symbol_table@),
        ensures
            final(self).symbol_table == old(self).symbol_table,
            forall|fl: FloatOps| #[trigger] oracle_is(*f, fl)
                ==> step_matches(res, errs_view(final(self).errors@), op_step(
                    op,
                    expr_value(l@, old(self).symbol_table@),
                    opt_tree_view(*r),
                    old(self).symbol_table@,
                    cursor,
                    errs_view(old(self).errors@),
                    fl,
                )),
            not_float(expr_value(l@, old(self).symbol_table@)) && (opt_tree_view(*r) matches Some(rb) ==> not_float(
                expr_value(*rb, old(self).symbol_table@),
            )) ==> forall|fl: FloatOps| #[trigger] every_ops(fl) ==> step_matches(res, errs_view(final(self).errors@), op_step(
                op,
                expr_value(l@, old(self).symbol_table@),
                opt_tree_view(*r),
                old(self).symbol_table@,
                cursor,
                errs_view(old(self).errors@),
                fl,
            )),
    {
        match self.expr_value(l) {
            None => StepOut::Becomes(None),
            Some(lv) => {
                let rv = match r {
                    Some(rb) => self.expr_value(rb),
                    None => None,
                };
                match rv {
                    Some(rv) => self.binop_step(op, &lv, &rv, cursor, f),
                    None => {
                        if op == TokenType::NEG {
                            match lv {
                                NodeValue::Boolean(b) => StepOut::Becomes(Some(NodeValue::Boolean(!b))),
                                _ => StepOut::Keep,
                            }
                        } else {
                            StepOut::Keep
                        }
                    },
                }
            },
        }
    }

    fn eval_tree<F: Fn(TokenType, NodeValue, NodeValue) -> NodeValue>(&mut self, t: TreeNode, f: &F) -> (r: Option<TreeNode>)
        requires
            oracle_total(*f),
            unique_keys(old(self).symbol_table@),
        ensures
            unique_keys(final(self).symbol_table@),
            forall|fl: FloatOps| #[trigger] oracle_is(*f, fl) ==> tree_out(r, *final(self), ev_tree(t@, ev_state(*old(self)), fl)),
            float_free(t@) && tab_float_free(old(self).symbol_table@) ==> forall|fl: FloatOps| #[trigger] every_ops(fl) ==> tree_out(
                r,
                *final(self),
                ev_tree(t@, ev_state(*old(self)), fl),
            ),
            r matches Some(t2) ==> tree_ids(t2) == tree_ids(t),
        decreases t,
    {
        let ghost ff = float_free(t@) && tab_float_free(self.symbol_table@);
        let ghost nv = node_view(t.node);
        let ghost s0 = ev_state(*self);
        let TreeNode { sibling, node } = t;
        proof {
            if ff {
                assert(node_float_free(node_view(node)));
                assert(opt_float_free(opt_tree_view(sibling)));
            }
        }
        let n2 = self.eval_node(node, f)?;
        proof {
            if ff {
                lemma_node_after(nv, s0, Some(n2), *self);
            }
        }
        let s2 = self.eval_opt(sibling, f)?;
        Some(TreeNode { sibling: s2, node: n2 })
    }

    fn eval_opt<F: Fn(TokenType, NodeValue, NodeValue) -> NodeValue>(&mut self, o: Option<Box<TreeNode>>, f: &F) -> (r: Option<Option<Box<TreeNode>>>)
        requires
            oracle_total(*f),
            unique_keys(old(self).symbol_table@),
        ensures
            unique_keys(final(self).symbol_table@),
            forall|fl: FloatOps| #[trigger] oracle_is(*f, fl) ==> opt_out(r, *final(self), ev_opt(opt_tree_view(o), ev_state(*old(self)), fl)),
            opt_float_free(opt_tree_view(o)) && tab_float_free(old(self).symbol_table@) ==> forall|fl: FloatOps| #[trigger] every_ops(fl) ==> opt_out(
                r,
                *final(self),
                ev_opt(opt_tree_view(o), ev_state(*old(self)), fl),
            ),
            r matches Some(o2) ==> opt_ids(o2) == opt_ids(o),
        decreases o,
    {
        match o {
            Some(b) => {
                proof {
                    if opt_float_free(opt_tree_view(o)) {
                        assert(float_free(tree_view(*b)));
                    }
                    assert(opt_tree_view(o) == Some(Box::new(tree_view(*b))));
                    assert forall|fl: FloatOps| #[trigger] ev_opt(opt_tree_view(o), ev_state(*self), fl) == match ev_tree(
                        tree_view(*b),
                        ev_state(*self),
                        fl,
                    ) {
                        None => None,
                        Some((t2, s1)) => Some((Some(Box::new(t2)), s1)),
                    } by {}
                }
                let t2 = self.eval_tree(*b, f)?;
                Some(Some(Box::new(t2)))
            },
            None => Some(None),
        }
    }

    fn assign_value(&mut self, name: &String, v: &TreeNode) -> (ok: bool)
        requires
            unique_keys(old(self).symbol_table@),
        ensures
            unique_keys(final(self).symbol_table@),
            final(self).errors == old(self).errors,
            match v@.node {
                NodeV::Exp { val, .. } => ok && final(self).symbol_table@ == assign_value(old(self).symbol_table@, name@, val),
                _ => !ok,
            },
    {
        match &v.node {
            Node::Exp { val, .. } => {
                match self.symbol_table.find(name.as_str()) {
                    Some(i) => {
                        let ghost before = self.symbol_table@;
                        self.symbol_table.set_value(i, copy_opt(val));
                        proof {
                            assert forall|a: int, b: int|
                                0 <= a < self.symbol_table@.len() && 0 <= b < self.symbol_table@.len() && a != b
                                implies #[trigger] self.symbol_table@[a].0 != #[trigger] self.symbol_table@[b].0 by {
                                assert(self.symbol_table@[a].0 == before[a].0);
                                assert(self.symbol_table@[b].0 == before[b].0);
                            }
                        }
                    },
                    None => {},
                }
                true
            },
            _ => false,
        }
    }

    #[verifier::spinoff_prover]
    #[verifier::rlimit(50)]
    fn eval_node<F: Fn(TokenType, NodeValue, NodeValue) -> NodeValue>(&mut self, n: Node, f: &F) -> (r: Option<Node>)
        requires
            oracle_total(*f),
            unique_keys(old(self).symbol_table@),
        ensures
            unique_keys(final(self).symbol_table@),
            forall|fl: FloatOps| #[trigger] oracle_is(*f, fl) ==> node_out(r, *final(self), ev_node(n@, ev_state(*old(self)), fl)),
            node_float_free(n@) && tab_float_free(old(self).symbol_table@) ==> forall|fl: FloatOps| #[trigger] every_ops(fl) ==> node_out(
                r,
                *final(self),
                ev_node(n@, ev_state(*old(self)), fl),
            ),
            r matches Some(n2) ==> node_ids(n2) == node_ids(n),
        decreases n,
    {
        let ghost ff = node_float_free(n@) && tab_float_free(self.symbol_table@);
        match n {
            Node::Stmt { kind, id, cursor } => {
                let kind2 = match kind {
                    StmtKind::If { condition, then_branch, else_branch } => {
                        proof {
                            if ff {
                                assert(float_free(tree_view(*condition)));
                                assert(opt_float_free(opt_tree_view(then_branch)));
                                assert(opt_float_free(opt_tree_view(else_branch)));
                            }
                        }
                        let ghost cv = tree_view(*condition);
                        let ghost tv = opt_tree_view(then_branch);
                        let ghost s0 = ev_state(*self);
                        let c2 = self.eval_tree(*condition, f)?;
                        proof {
                            if ff {
                                lemma_tree_after(cv, s0, Some(c2), *self);
                            }
                        }
                        let ghost s1 = ev_state(*self);
                        let t2 = self.eval_opt(then_branch, f)?;
                        proof {
                            if ff {
                                lemma_opt_after(tv, s1, Some(t2), *self);
                            }
                        }
                        let e2 = self.eval_opt(else_branch, f)?;
                        StmtKind::If { condition: Box::new(c2), then_branch: t2, else_branch: e2 }
                    },
                    StmtKind::While { condition, body } => {
                        proof {
                            if ff {
                                assert(float_free(tree_view(*condition)));
                                assert(opt_float_free(opt_tree_view(body)));
                            }
                        }
                        let ghost cv = tree_view(*condition);
                        let ghost s0 = ev_state(*self);
                        let c2 = self.eval_tree(*condition, f)?;
                        proof {
                            if ff {
                                lemma_tree_after(cv, s0, Some(c2), *self);
                            }
                        }
                        let b2 = self.eval_opt(body, f)?;
                        StmtKind::While { condition: Box::new(c2), body: b2 }
                    },
                    StmtKind::Do { body, condition } => {
                        proof {
                            if ff {
                                assert(float_free(tree_view(*condition)));
                                assert(opt_float_free(opt_tree_view(body)));
                            }
                        }
                        let ghost bv = opt_tree_view(body);
                        let ghost s0 = ev_state(*self);
                        let b2 = self.eval_opt(body, f)?;
                        proof {
                            if ff {
                                lemma_opt_after(bv, s0, Some(b2), *self);
                            }
                        }
                        let c2 = self.eval_tree(*condition, f)?;
                        StmtKind::Do { body: b2, condition: Box::new(c2) }
                    },
                    StmtKind::Assign { name, value } => {
                        proof {
                            if ff {
                                assert(float_free(tree_view(*value)));
                            }
                        }
                        let v2 = self.eval_tree(*value, f)?;
                        if !self.assign_value(&name, &v2) {
                            return None;
                        }
                        StmtKind::Assign { name, value: Box::new(v2) }
                    },
                    StmtKind::In { name } => StmtKind::In { name },
                    StmtKind::Out { expression } => {
                        proof {
                            if ff {
                                assert(float_free(tree_view(*expression)));
                            }
                        }
                        let x2 = self.eval_tree(*expression, f)?;
                        StmtKind::Out { expression: Box::new(x2) }
                    },
                };
                Some(Node::Stmt { kind: kind2, id, cursor })
            },
            Node::Exp { kind, typ, id, cursor, val } => {
                match kind {
                    ExpKind::Op { op, left, right } => {
                        proof {
                            if ff {
                                assert(float_free(tree_view(*left)));
                                assert(opt_float_free(opt_tree_view(right)));
                            }
                        }
                        let ghost lv = tree_view(*left);
                        let ghost rv = opt_tree_view(right);
                        let ghost s0 = ev_state(*self);
                        let l2 = self.eval_tree(*left, f)?;
                        proof {
                            if ff {
                                lemma_tree_after(lv, s0, Some(l2), *self);
                            }
                        }
                        let ghost s1 = ev_state(*self);
                        let r2 = self.eval_opt(right, f)?;
                        proof {
                            if ff {
                                lemma_opt_after(rv, s1, Some(r2), *self);
                                lemma_expr_value_no_float(l2@, self.symbol_table@);
                                if let Some(rb) = opt_tree_view(r2) {
                                    assert(float_free(*rb));
                                    lemma_expr_value_no_float(*rb, self.symbol_table@);
                                }
                            }
                        }
                        let step = self.op_step(op, &l2, &r2, cursor, f);
                        let kind2 = ExpKind::Op { op, left: Box::new(l2), right: r2 };
                        match step {
                            StepOut::Crash => None,
                            StepOut::Keep => Some(Node::Exp { kind: kind2, typ, id, cursor, val }),
                            StepOut::Becomes(v) => Some(Node::Exp { kind: kind2, typ, id, cursor, val: v }),
                        }
                    },
                    ExpKind::Const { value } => Some(Node::Exp {
                        kind: ExpKind::Const { value },
                        typ,
                        id,
                        cursor,
                        val: Some(NodeValue::Int(value)),
                    }),
                    ExpKind::ConstF { value } => {
                        let v = NodeValue::Float(value.clone());
                        Some(Node::Exp { kind: ExpKind::ConstF { value }, typ, id, cursor, val: Some(v) })
                    },
                    ExpKind::Id { name } => {
                        match self.symbol_table.find(name.as_str()) {
                            Some(i) => {
                                let v = copy_opt(&self.symbol_table.data_at(i).value);
                                Some(Node::Exp { kind: ExpKind::Id { name }, typ, id, cursor, val: v })
                            },
                            None => match cursor {
                                None => None,
                                Some(c) => {
                                    let mut m = String::from_str("No se puede evaluar el valor de una variable no declarada: ");
                                    m.append(name.as_str());
                                    self.push_error(m, c);
                                    Some(Node::Exp { kind: ExpKind::Id { name }, typ, id, cursor, val })
                                },
                            },
                        }
                    },
                }
            },
            Node::Decl { kind, id, cursor } => Some(Node::Decl { kind, id, cursor }),
        }
    }
}

/// After evaluating a list without floats, from a table without floats, the
/// table and the list got back hold no floats.
proof fn lemma_tree_after(t: TreeV, s: EvState, r: Option<TreeNode>, a: Analyzer)
    requires
        float_free(t),
        tab_float_free(s.tab),
        forall|fl: FloatOps| #[trigger] every_ops(fl) ==> tree_out(r, a, ev_tree(t, s, fl)),
    ensures
        r matches Some(x) ==> tab_float_free(a.symbol_table@) && float_free(x@),
{
    let fl0: FloatOps = |o: TokenType, x: ValueV, y: ValueV| ValueV::Int(0);
    lemma_ev_tree_no_floats(t, s, fl0, fl0);
    assert(every_ops(fl0));
    assert(tree_out(r, a, ev_tree(t, s, fl0)));
}

proof fn lemma_node_after(n: NodeV, s: EvState, r: Option<Node>, a: Analyzer)
    requires
        node_float_free(n),
        tab_float_free(s.tab),
        forall|fl: FloatOps| #[trigger] every_ops(fl) ==> node_out(r, a, ev_node(n, s, fl)),
    ensures
        r matches Some(x) ==> tab_float_free(a.symbol_table@),
{
    let fl0: FloatOps = |o: TokenType, x: ValueV, y: ValueV| ValueV::Int(0);
    lemma_ev_node_no_floats(n, s, fl0, fl0);
    assert(every_ops(fl0));
    assert(node_out(r, a, ev_node(n, s, fl0)));
}

proof fn lemma_opt_after(o: Option<Box<TreeV>>, s: EvState, r: Option<Option<Box<TreeNode>>>, a: Analyzer)
    requires
        opt_float_free(o),
        tab_float_free(s.tab),
        forall|fl: FloatOps| #[trigger] every_ops(fl) ==> opt_out(r, a, ev_opt(o, s, fl)),
    ensures
        r matches Some(x) ==> tab_float_free(a.symbol_table@) && opt_float_free(opt_tree_view(x)),
{
    let fl0: FloatOps = |o: TokenType, x: ValueV, y: ValueV| ValueV::Int(0);
    lemma_ev_opt_no_floats(o, s, fl0, fl0);
    assert(every_ops(fl0));
    assert(opt_out(r, a, ev_opt(o, s, fl0)));
}

impl Analyzer {
    /// Analyzes the program `node`: builds the symbol table, infers and
    /// checks the types, and computes the values known before run time, which
    /// it writes into the tree (`typ` and `val` of each expression) and into
    /// the table (the last value assigned to each variable). `float_ops`
    /// computes the `f32` arithmetic and comparisons where an operand is a
    /// float. Gives the errors found and the table; `None` where the
    /// analysis stops the program.
    ///
    /// The result is what `analysis` gives for every `fl` that describes
    /// `float_ops` (one that gives whatever `float_ops` returns).
    pub fn analyze<F: Fn(TokenType, NodeValue, NodeValue) -> NodeValue>(
        self,
        node: &mut TreeNode,
        float_ops: &F,
    ) -> (r: Option<(Vec<AnalyzeError>, SymbolTable)>)
        requires
            unique_keys(self.symbol_table@),
            oracle_total(*float_ops),
        ensures
            forall|fl: FloatOps| #[trigger] oracle_is(*float_ops, fl) ==> match analysis(
                old(node)@,
                errs_view(self.errors@),
                self.symbol_table@,
                fl,
            ) {
                None => r is None,
                Some((t3, e3, tab3)) => r matches Some((errs, tab)) && final(node)@ == t3 && errs_view(errs@) == e3
                    && tab@ == tab3,
            },
            float_free(old(node)@) && tab_float_free(self.symbol_table@) ==> forall|fl: FloatOps| #[trigger] every_ops(fl)
                ==> match analysis(old(node)@, errs_view(self.errors@), self.symbol_table@, fl) {
                None => r is None,
                Some((t3, e3, tab3)) => r matches Some((errs, tab)) && final(node)@ == t3 && errs_view(errs@) == e3
                    && tab@ == tab3,
            },
            r matches Some((_, tab)) ==> unique_keys(tab@),
            r is Some ==> tree_ids(*final(node)) == tree_ids(*old(node)),
    {
        let ghost ff = float_free(node@) && tab_float_free(self.symbol_table@);
        let ghost errs0 = errs_view(self.errors@);
        let ghost tab0 = self.symbol_table@;
        let mut a = self;
        let mut t = TreeNode {
            sibling: None,
            node: Node::Decl { kind: DeclKind::Var { typ: ExpType::Void, name: String::new() }, id: String::new(), cursor: None },
        };
        core::mem::swap(&mut t, node);
        let ghost t0 = t@;
        if !a.create_symbol_table(&t) {
            return None;
        }
        proof {
            if ff {
                lemma_sym_tree_float_free(t0, SymState { tab: tab0, errs: errs0, loc: 0 });
            }
        }
        let ghost tab1 = a.symbol_table@;
        let ghost errs1 = errs_view(a.errors@);
        let t2 = a.check_tree(t)?;
        proof {
            if ff {
                lemma_ty_tree_float_free(t0, tab1, errs1);
            }
        }
        let t3 = a.eval_tree(t2, float_ops)?;
        *node = t3;
        Some((a.errors, a.symbol_table))
    }
}

/// Analyzes the program `node` with a new analyzer (see
/// `Analyzer::analyze`).
pub fn analyze<F: Fn(TokenType, NodeValue, NodeValue) -> NodeValue>(node: &mut TreeNode, float_ops: &F) -> (r: Option<(Vec<AnalyzeError>, SymbolTable)>)
    requires
        oracle_total(*float_ops),
    ensures
        forall|fl: FloatOps| #[trigger] oracle_is(*float_ops, fl) ==> match analysis(old(node)@, seq![], seq![], fl) {
            None => r is None,
            Some((t3, e3, tab3)) => r matches Some((errs, tab)) && final(node)@ == t3 && errs_view(errs@) == e3 && tab@ == tab3,
        },
        float_free(old(node)@) ==> forall|fl: FloatOps| #[trigger] every_ops(fl) ==> match analysis(old(node)@, seq![], seq![], fl) {
            None => r is None,
            Some((t3, e3, tab3)) => r matches Some((errs, tab)) && final(node)@ == t3 && errs_view(errs@) == e3 && tab@ == tab3,
        },
        r matches Some((_, tab)) ==> unique_keys(tab@),
        r is Some ==> tree_ids(*final(node)) == tree_ids(*old(node)),
{
    let a = Analyzer::new();
    proof {
        assert(errs_view(a.errors@) =~= Seq::<SymbolErrorV>::empty());
    }
    a.analyze(node, float_ops)
}

/// How the result of an arithmetic operator answers its model: `None` where
/// the program stops, `Some(None)` where an operand is not a number.
pub open spec fn arith_answers(r: Option<Option<NodeValue>>, a: Arith) -> bool {
    match a {
        Arith::Panic => r is None,
        Arith::NotNumbers => r == Some(None::<NodeValue>),
        Arith::Value(v) => r matches Some(Some(x)) && x@ == v,
    }
}

impl NodeValue {
    /// The arithmetic operator `op` (`+`, `-`, `*`, `/`, `%` or `^`) on
    /// `self` and `other`: on two integers the `i32` operation, on numbers of
    /// which one is a float what `float_ops` gives, `Some(None)` where an
    /// operand is a boolean, and `None` where the `i32` operation stops the
    /// program (overflow, division or remainder by zero).
    pub fn apply<F: Fn(TokenType, NodeValue, NodeValue) -> NodeValue>(self, op: TokenType, other: NodeValue, float_ops: &F) -> (r: Option<Option<NodeValue>>)
        requires
            crate::codegen::is_arith(op),
            oracle_total(*float_ops),
        ensures
            forall|fl: FloatOps| #[trigger] oracle_is(*float_ops, fl) ==> arith_answers(r, arith(op, self@, other@, fl)),
    {
        match (&self, &other) {
            (NodeValue::Int(a), NodeValue::Int(b)) => match int_arith_exec(op, *a, *b) {
                Some(x) => Some(Some(NodeValue::Int(x))),
                None => None,
            },
            _ => {
                if !matches!(self, NodeValue::Boolean(_)) && !matches!(other, NodeValue::Boolean(_)) {
                    Some(Some(float_ops(op, self, other)))
                } else {
                    Some(None)
                }
            },
        }
    }

    /// `self == other`: integers and floats by value, booleans with an
    /// integer equal to `true` exactly when it is `1`; `float_ops` decides
    /// where a float is involved.
    pub fn equals<F: Fn(TokenType, NodeValue, NodeValue) -> NodeValue>(&self, other: &NodeValue, float_ops: &F) -> (b: bool)
        requires
            oracle_total(*float_ops),
        ensures
            forall|fl: FloatOps| #[trigger] oracle_is(*float_ops, fl) ==> b == values_eq(self@, other@, fl),
    {
        values_eq_exec(self, other, float_ops)
    }

    /// `self < other` for `op` `LT` (and `<=`, `>`, `>=` for `LE`, `GT`,
    /// `GE`): false where a boolean is involved; `float_ops` decides where a
    /// float is involved.
    pub fn order<F: Fn(TokenType, NodeValue, NodeValue) -> NodeValue>(&self, op: TokenType, other: &NodeValue, float_ops: &F) -> (b: bool)
        requires
            oracle_total(*float_ops),
        ensures
            forall|fl: FloatOps| #[trigger] oracle_is(*float_ops, fl) ==> b == values_order(op, self@, other@, fl),
    {
        values_order_exec(op, self, other, float_ops)
    }

    /// `self` to the power `other` (see `apply`).
    pub fn pow<F: Fn(TokenType, NodeValue, NodeValue) -> NodeValue>(self, other: NodeValue, float_ops: &F) -> (r: Option<Option<NodeValue>>)
        requires
            oracle_total(*float_ops),
        ensures
            forall|fl: FloatOps| #[trigger] oracle_is(*float_ops, fl) ==> arith_answers(r, arith(TokenType::POWER, self@, other@, fl)),
    {
        self.apply(TokenType::POWER, other, float_ops)
    }
}

} // verus!
