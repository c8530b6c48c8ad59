//! Code generation for the stack machine.

use vstd::prelude::*;
use crate::parse_model::append_tree;
use crate::structures::{
    DeclKind, DeclV, ExpKind, ExpType, ExpV, Node, NodeV, StmtKind, StmtV, TreeNode, TreeV, node_view,
    opt_tree_view, tree_view,
};
use crate::text::{append_int, append_nat, int_text, nat_text};
use crate::values::value_text;
use crate::token::TokenType;

verus! {

/// The name of the `n`-th label.
pub open spec fn label_text(n: nat) -> Seq<char> {
    "label"@ + nat_text(n)
}

/// The instruction that a comparison jumps with.
pub open spec fn jump_text(op: TokenType) -> Seq<char> {
    match op {
        TokenType::LT => "JMPLT"@,
        TokenType::LE => "JMPLE"@,
        TokenType::GT => "JMPGT"@,
        TokenType::GE => "JMPGE"@,
        TokenType::NE => "JMPNE"@,
        _ => "JMPEQ"@,
    }
}

pub open spec fn is_comparison(op: TokenType) -> bool {
    op == TokenType::LT || op == TokenType::LE || op == TokenType::GT || op == TokenType::GE
        || op == TokenType::NE || op == TokenType::EQ
}

/// The line break and instruction of an arithmetic operator.
pub open spec fn arith_text(op: TokenType) -> Seq<char> {
    match op {
        TokenType::SUM => "\nADD"@,
        TokenType::MIN => "\nSUB"@,
        TokenType::TIMES => "\nMUL"@,
        TokenType::DIV => "\nDIV"@,
        TokenType::MODULUS => "\nMOD"@,
        _ => "\nPOW"@,
    }
}

pub open spec fn is_arith(op: TokenType) -> bool {
    op == TokenType::SUM || op == TokenType::MIN || op == TokenType::TIMES || op == TokenType::DIV
        || op == TokenType::MODULUS || op == TokenType::POWER
}

/// The operators for which code can be generated.
pub open spec fn op_has_code(op: TokenType) -> bool {
    is_arith(op) || is_comparison(op) || op == TokenType::AND || op == TokenType::OR
        || op == TokenType::NEG
}

/// Every operator whose code is generated (one without a value known
/// before run time) is one that has code.
pub open spec fn gen_ok(t: TreeV) -> bool
    decreases t,
{
    &&& node_gen_ok(t.node)
    &&& (t.sibling matches Some(s) ==> gen_ok(*s))
}

pub open spec fn node_gen_ok(n: NodeV) -> bool
    decreases n,
{
    match n {
        NodeV::Stmt { kind, .. } => match kind {
            StmtV::If { condition, then_branch, else_branch } => {
                &&& gen_ok(*condition)
                &&& (then_branch matches Some(b) ==> gen_ok(*b))
                &&& (else_branch matches Some(b) ==> gen_ok(*b))
            },
            StmtV::While { condition, body } => {
                &&& gen_ok(*condition)
                &&& (body matches Some(b) ==> gen_ok(*b))
            },
            StmtV::Do { body, condition } => {
                &&& (body matches Some(b) ==> gen_ok(*b))
                &&& gen_ok(*condition)
            },
            StmtV::Assign { value, .. } => gen_ok(*value),
            StmtV::In { .. } => true,
            StmtV::Out { expression } => gen_ok(*expression),
        },
        NodeV::Exp { kind, val, .. } => match kind {
            ExpV::Op { op, left, right } => val is Some || {
                &&& op_has_code(op)
                &&& gen_ok(*left)
                &&& (right matches Some(r) ==> gen_ok(*r))
            },
            _ => true,
        },
        NodeV::Decl { .. } => true,
    }
}

/// The end of a comparison's code: the jump on the difference of the
/// operands, which leaves 1 when it is taken and 0 otherwise.
pub open spec fn jump_tail(jmp: Seq<char>, t: Seq<char>, e: Seq<char>) -> Seq<char> {
    jmp + " "@ + t + "\nLOAD_CONST 0\nJMP "@ + e + "\n"@ + t + ":\nLOAD_CONST 1\n"@ + e + ":"@
}

/// The code of an operator node whose operands have codes `l` and `r`, and
/// the labels `t` and `e` it may use.
pub open spec fn op_code(op: TokenType, l: Seq<char>, r: Option<Seq<char>>, t: nat, e: nat) -> Seq<char> {
    if op == TokenType::NEG {
        "LOAD_CONST 1\n"@ + l + "\nSUB"@
    } else {
        match r {
            None => Seq::empty(),
            Some(r) => if is_arith(op) {
                l + "\n"@ + r + arith_text(op)
            } else if is_comparison(op) {
                l + "\n"@ + r + "\nSUB\n"@ + jump_tail(jump_text(op), label_text(t), label_text(e))
            } else if op == TokenType::AND {
                l + "\n"@ + r + "\nMUL"@
            } else {
                l + "\n"@ + r + "\nADD\n"@ + l + "\n"@ + r + "\nMUL\nSUB"@
            },
        }
    }
}

/// The labels an `if` creates: the one its test jumps to, and, where it has
/// an `else`, the one after the `else` branch that the `then` branch jumps
/// to.
pub open spec fn if_labels(else_branch: Option<Box<TreeV>>) -> nat {
    if else_branch is Some { 2 } else { 1 }
}

/// The end of an `if`'s code after its `then` branch, `l` being its first
/// label and `ec` the code of its `else` branch: without an `else`, the
/// label the test jumps to; with one, a jump over the `else` branch, the
/// label, the `else` branch and the label after it.
pub open spec fn if_tail(l: nat, ec: Seq<char>, has_else: bool) -> Seq<char> {
    if has_else {
        "\nJMP "@ + label_text(l + 1) + "\n"@ + label_text(l) + ":\n"@ + ec + "\n"@ + label_text(l + 1) + ":"@
    } else {
        "\n"@ + label_text(l) + ":\n"@ + ec
    }
}

/// The code of an optional list of nodes (empty for none).
pub open spec fn gen_opt(t: Option<Box<TreeV>>, c: nat) -> (Seq<char>, nat)
    decreases t,
{
    match t {
        Some(b) => gen_tree(*b, c),
        None => (Seq::<char>::empty(), c),
    }
}

/// The code of a list of nodes and the label count after it, when the
/// labels created so far number `c`.
pub open spec fn gen_tree(t: TreeV, c: nat) -> (Seq<char>, nat)
    decreases t,
{
    let (own, c1) = gen_node(t.node, c);
    match t.sibling {
        Some(s) => {
            let (sc, c2) = gen_tree(*s, c1);
            (own + "\n"@ + sc, c2)
        },
        None => (own + "\n"@, c1),
    }
}

/// The code of one node, without the line break that ends it.
pub open spec fn gen_node(n: NodeV, c: nat) -> (Seq<char>, nat)
    decreases n,
{
    match n {
        NodeV::Stmt { kind, .. } => match kind {
            StmtV::If { condition, then_branch, else_branch } => {
                let l = c + 1;
                let (cc, c2) = gen_tree(*condition, c + if_labels(else_branch));
                let (tc, c3) = gen_opt(then_branch, c2);
                let (ec, c4) = gen_opt(else_branch, c3);
                (cc + "\nJMPEQ "@ + label_text(l) + "\n"@ + tc + if_tail(l, ec, else_branch is Some), c4)
            },
            StmtV::While { condition, body } => {
                let cl = c + 1;
                let el = c + 2;
                let (cc, c2) = gen_tree(*condition, el);
                let (bc, c3) = gen_opt(body, c2);
                (label_text(cl) + ":\n"@ + cc + "\nJMPEQ "@ + label_text(el) + "\n"@ + bc + "\nJMP "@
                    + label_text(cl) + "\n"@ + label_text(el) + ":"@, c3)
            },
            StmtV::Do { body, condition } => {
                let bl = c + 1;
                let (bc, c2) = gen_opt(body, bl);
                let (cc, c3) = gen_tree(*condition, c2);
                (label_text(bl) + ":\n"@ + bc + "\n"@ + cc + "\nJMPNE "@ + label_text(bl), c3)
            },
            StmtV::Assign { name, value } => {
                let (vc, c2) = gen_tree(*value, c);
                (vc + "\nSTORE_VAR "@ + name, c2)
            },
            StmtV::In { name } => ("READ\nSTORE_VAR "@ + name, c),
            StmtV::Out { expression } => {
                let (xc, c2) = gen_tree(*expression, c);
                (xc + "\nPRINT"@, c2)
            },
        },
        NodeV::Exp { kind, val, .. } => match kind {
            ExpV::Op { op, left, right } => match val {
                Some(v) => ("LOAD_CONST "@ + value_text(v), c),
                None => {
                    let (lc, c2) = gen_tree(*left, c);
                    let (rc, c3) = gen_opt(right, c2);
                    let r = if right is Some { Some(rc) } else { None };
                    if is_comparison(op) {
                        (op_code(op, lc, r, c3 + 1, c3 + 2), c3 + 2)
                    } else {
                        (op_code(op, lc, r, 0, 0), c3)
                    }
                },
            },
            ExpV::Const { value } => ("LOAD_CONST "@ + int_text(value as int), c),
            ExpV::ConstF { value } => ("LOAD_CONST "@ + value, c),
            ExpV::Id { name } => ("LOAD_VAR "@ + name, c),
        },
        NodeV::Decl { kind, .. } => match kind {
            DeclV::Var { name, .. } => ("LOAD_CONST 1\nSTORE_VAR "@ + name, c),
        },
    }
}

/// The generator never takes a label back.
pub proof fn lemma_gen_tree_counts_up(t: TreeV, c: nat)
    ensures
        gen_tree(t, c).1 >= c,
    decreases t,
{
    lemma_gen_node_counts_up(t.node, c);
    if let Some(s) = t.sibling {
        lemma_gen_tree_counts_up(*s, gen_node(t.node, c).1);
    }
}

pub proof fn lemma_gen_opt_counts_up(t: Option<Box<TreeV>>, c: nat)
    ensures
        gen_opt(t, c).1 >= c,
    decreases t,
{
    if let Some(b) = t {
        lemma_gen_tree_counts_up(*b, c);
    }
}

pub proof fn lemma_gen_node_counts_up(n: NodeV, c: nat)
    ensures
        gen_node(n, c).1 >= c,
    decreases n,
{
    match n {
        NodeV::Stmt { kind, .. } => match kind {
            StmtV::If { condition, then_branch, else_branch } => {
                lemma_gen_tree_counts_up(*condition, c + if_labels(else_branch));
                let c2 = gen_tree(*condition, c + if_labels(else_branch)).1;
                lemma_gen_opt_counts_up(then_branch, c2);
                lemma_gen_opt_counts_up(else_branch, gen_opt(then_branch, c2).1);
            },
            StmtV::While { condition, body } => {
                lemma_gen_tree_counts_up(*condition, c + 2);
                lemma_gen_opt_counts_up(body, gen_tree(*condition, c + 2).1);
            },
            StmtV::Do { body, condition } => {
                lemma_gen_opt_counts_up(body, c + 1);
                lemma_gen_tree_counts_up(*condition, gen_opt(body, c + 1).1);
            },
            StmtV::Assign { value, .. } => lemma_gen_tree_counts_up(*value, c),
            StmtV::In { .. } => {},
            StmtV::Out { expression } => lemma_gen_tree_counts_up(*expression, c),
        },
        NodeV::Exp { kind, val, .. } => match kind {
            ExpV::Op { op, left, right } => {
                if val is None {
                    lemma_gen_tree_counts_up(*left, c);
                    lemma_gen_opt_counts_up(right, gen_tree(*left, c).1);
                }
            },
            _ => {},
        },
        NodeV::Decl { .. } => {},
    }
}

/// The number of labels that the code of a list creates: one for each `if`
/// without `else` and each `do`, two for each `if` with `else`, each `while`
/// and each comparison whose value
/// is not known before run time (an operator with a known value creates
/// none, nor do its operands).
pub open spec fn labels_tree(t: TreeV) -> nat
    decreases t,
{
    labels_node(t.node) + labels_opt(t.sibling)
}

pub open spec fn labels_opt(o: Option<Box<TreeV>>) -> nat
    decreases o,
{
    match o {
        Some(b) => labels_tree(*b),
        None => 0,
    }
}

pub open spec fn labels_node(n: NodeV) -> nat
    decreases n,
{
    match n {
        NodeV::Stmt { kind, .. } => match kind {
            StmtV::If { condition, then_branch, else_branch } => if_labels(else_branch) + labels_tree(*condition)
                + labels_opt(then_branch) + labels_opt(else_branch),
            StmtV::While { condition, body } => 2 + labels_tree(*condition) + labels_opt(body),
            StmtV::Do { body, condition } => 1 + labels_opt(body) + labels_tree(*condition),
            StmtV::Assign { value, .. } => labels_tree(*value),
            StmtV::In { .. } => 0,
            StmtV::Out { expression } => labels_tree(*expression),
        },
        NodeV::Exp { kind, val, .. } => match kind {
            ExpV::Op { op, left, right } => match val {
                Some(_) => 0,
                None => labels_tree(*left) + labels_opt(right) + if is_comparison(op) { 2nat } else { 0nat },
            },
            _ => 0,
        },
        NodeV::Decl { .. } => 0,
    }
}

/// The code of a list creates exactly the labels that its statements and
/// comparisons call for: the count after it is the count before it plus
/// `labels_tree`.
pub proof fn lemma_labels_created(t: TreeV, c: nat)
    ensures
        gen_tree(t, c).1 == c + labels_tree(t),
    decreases t,
{
    lemma_labels_created_node(t.node, c);
    if let Some(s) = t.sibling {
        lemma_labels_created(*s, gen_node(t.node, c).1);
    }
}

pub proof fn lemma_labels_created_opt(o: Option<Box<TreeV>>, c: nat)
    ensures
        gen_opt(o, c).1 == c + labels_opt(o),
    decreases o,
{
    if let Some(b) = o {
        lemma_labels_created(*b, c);
    }
}

pub proof fn lemma_labels_created_node(n: NodeV, c: nat)
    ensures
        gen_node(n, c).1 == c + labels_node(n),
    decreases n,
{
    match n {
        NodeV::Stmt { kind, .. } => match kind {
            StmtV::If { condition, then_branch, else_branch } => {
                lemma_labels_created(*condition, c + if_labels(else_branch));
                let c2 = gen_tree(*condition, c + if_labels(else_branch)).1;
                lemma_labels_created_opt(then_branch, c2);
                lemma_labels_created_opt(else_branch, gen_opt(then_branch, c2).1);
            },
            StmtV::While { condition, body } => {
                lemma_labels_created(*condition, c + 2);
                lemma_labels_created_opt(body, gen_tree(*condition, c + 2).1);
            },
            StmtV::Do { body, condition } => {
                lemma_labels_created_opt(body, c + 1);
                lemma_labels_created(*condition, gen_opt(body, c + 1).1);
            },
            StmtV::Assign { value, .. } => lemma_labels_created(*value, c),
            StmtV::In { .. } => {},
            StmtV::Out { expression } => lemma_labels_created(*expression, c),
        },
        NodeV::Exp { kind, val, .. } => match kind {
            ExpV::Op { op, left, right } => {
                if val is None {
                    lemma_labels_created(*left, c);
                    lemma_labels_created_opt(right, gen_tree(*left, c).1);
                }
            },
            _ => {},
        },
        NodeV::Decl { .. } => {},
    }
}

/// The tree without its positions and its types: what the code generator
/// reads of a tree is kept (kinds, names, constants, operators and the
/// values known before run time).
pub open spec fn plain(t: TreeV) -> TreeV
    decreases t,
{
    TreeV {
        sibling: match t.sibling {
            Some(s) => Some(Box::new(plain(*s))),
            None => None,
        },
        node: match t.node {
            NodeV::Stmt { kind, .. } => NodeV::Stmt {
                kind: match kind {
                    StmtV::If { condition, then_branch, else_branch } => StmtV::If {
                        condition: Box::new(plain(*condition)),
                        then_branch: match then_branch {
                            Some(b) => Some(Box::new(plain(*b))),
                            None => None,
                        },
                        else_branch: match else_branch {
                            Some(b) => Some(Box::new(plain(*b))),
                            None => None,
                        },
                    },
                    StmtV::While { condition, body } => StmtV::While {
                        condition: Box::new(plain(*condition)),
                        body: match body {
                            Some(b) => Some(Box::new(plain(*b))),
                            None => None,
                        },
                    },
                    StmtV::Do { body, condition } => StmtV::Do {
                        body: match body {
                            Some(b) => Some(Box::new(plain(*b))),
                            None => None,
                        },
                        condition: Box::new(plain(*condition)),
                    },
                    StmtV::Assign { name, value } => StmtV::Assign { name, value: Box::new(plain(*value)) },
                    StmtV::Out { expression } => StmtV::Out { expression: Box::new(plain(*expression)) },
                    k => k,
                },
                cursor: None,
            },
            NodeV::Exp { kind, val, .. } => NodeV::Exp {
                kind: match kind {
                    ExpV::Op { op, left, right } => ExpV::Op {
                        op,
                        left: Box::new(plain(*left)),
                        right: match right {
                            Some(r) => Some(Box::new(plain(*r))),
                            None => None,
                        },
                    },
                    k => k,
                },
                typ: ExpType::Void,
                cursor: None,
                val,
            },
            NodeV::Decl { kind, .. } => NodeV::Decl { kind, cursor: None },
        },
    }
}

/// The code of a list followed by another list is the code of the first,
/// then the code of the second, the label count running on from the first
/// into the second.
pub proof fn lemma_code_of_joined_lists(a: TreeV, b: TreeV, c: nat)
    ensures
        gen_tree(append_tree(a, b), c) == (
            gen_tree(a, c).0 + gen_tree(b, gen_tree(a, c).1).0,
            gen_tree(b, gen_tree(a, c).1).1,
        ),
    decreases a,
{
    let (own, c1) = gen_node(a.node, c);
    match a.sibling {
        Some(s) => {
            lemma_code_of_joined_lists(*s, b, c1);
            let x = gen_tree(*s, c1).0;
            let y = gen_tree(b, gen_tree(*s, c1).1).0;
            assert(own + "\n"@ + (x + y) =~= (own + "\n"@ + x) + y);
        },
        None => {},
    }
}

/// The code does not depend on the positions and the types in the tree.
pub proof fn lemma_code_ignores_positions_and_types(t: TreeV, c: nat)
    ensures
        gen_tree(plain(t), c) == gen_tree(t, c),
    decreases t,
{
    lemma_node_code_ignores_positions_and_types(t.node, c);
    if let Some(s) = t.sibling {
        lemma_code_ignores_positions_and_types(*s, gen_node(t.node, c).1);
    }
}

proof fn lemma_opt_code_ignores_positions_and_types(o: Option<Box<TreeV>>, c: nat)
    ensures
        gen_opt(
            match o {
                Some(b) => Some(Box::new(plain(*b))),
                None => None,
            },
            c,
        ) == gen_opt(o, c),
    decreases o,
{
    if let Some(b) = o {
        lemma_code_ignores_positions_and_types(*b, c);
    }
}

proof fn lemma_node_code_ignores_positions_and_types(n: NodeV, c: nat)
    ensures
        gen_node(plain(TreeV { sibling: None, node: n }).node, c) == gen_node(n, c),
    decreases n,
{
    match n {
        NodeV::Stmt { kind, .. } => match kind {
            StmtV::If { condition, then_branch, else_branch } => {
                lemma_code_ignores_positions_and_types(*condition, c + if_labels(else_branch));
                let c2 = gen_tree(*condition, c + if_labels(else_branch)).1;
                lemma_opt_code_ignores_positions_and_types(then_branch, c2);
                lemma_opt_code_ignores_positions_and_types(else_branch, gen_opt(then_branch, c2).1);
            },
            StmtV::While { condition, body } => {
                lemma_code_ignores_positions_and_types(*condition, c + 2);
                lemma_opt_code_ignores_positions_and_types(body, gen_tree(*condition, c + 2).1);
            },
            StmtV::Do { body, condition } => {
                lemma_opt_code_ignores_positions_and_types(body, c + 1);
                lemma_code_ignores_positions_and_types(*condition, gen_opt(body, c + 1).1);
            },
            StmtV::Assign { value, .. } => lemma_code_ignores_positions_and_types(*value, c),
            StmtV::In { .. } => {},
            StmtV::Out { expression } => lemma_code_ignores_positions_and_types(*expression, c),
        },
        NodeV::Exp { kind, val, .. } => match kind {
            ExpV::Op { op, left, right } => {
                lemma_code_ignores_positions_and_types(*left, c);
                lemma_opt_code_ignores_positions_and_types(right, gen_tree(*left, c).1);
            },
            _ => {},
        },
        NodeV::Decl { .. } => {},
    }
}

/// Generator of stack-machine code: it numbers the labels it creates.
pub struct CodeGen {
    label_count: u32,
}

impl CodeGen {
    pub closed spec fn spec_label_count(&self) -> nat {
        self.label_count as nat
    }

    /// A generator that has created no label yet.
    pub fn new() -> (g: CodeGen)
        ensures
            g.spec_label_count() == 0,
    {
        CodeGen { label_count: 0 }
    }

    /// The code of the program `node`.
    pub fn generate(self, node: &TreeNode) -> (code: String)
        requires
            gen_ok(node@),
            gen_tree(node@, self.spec_label_count()).1 <= u32::MAX,
        ensures
            code@ == gen_tree(node@, self.spec_label_count()).0,
    {
        let mut g = self;
        g.gen_node_code(node)
    }

    /// Creates the next label.
    fn gen_label(&mut self) -> (l: String)
        requires
            old(self).label_count < u32::MAX,
        ensures
            final(self).label_count == old(self).label_count + 1,
            l@ == label_text(final(self).label_count as nat),
    {
        self.label_count = self.label_count + 1;
        let mut s = String::from_str("label");
        append_nat(&mut s, self.label_count as u64);
        s
    }

    fn gen_node_code(&mut self, node: &TreeNode) -> (code: String)
        requires
            gen_ok(node@),
            gen_tree(node@, old(self).label_count as nat).1 <= u32::MAX,
        ensures
            (code@, final(self).label_count as nat) == gen_tree(node@, old(self).label_count as nat),
        decreases node,
    {
        let ghost c0 = self.label_count as nat;
        proof {
            let nv = tree_view(*node);
            if let Some(s) = nv.sibling {
                lemma_gen_tree_counts_up(*s, gen_node(nv.node, c0).1);
            }
        }
        let mut code = self.gen_own_code(&node.node);
        code.append("\n");
        match &node.sibling {
            Some(next) => {
                let sc = self.gen_node_code(next);
                code.append(sc.as_str());
            },
            None => {},
        }
        code
    }

    fn gen_opt_code(&mut self, node: &Option<Box<TreeNode>>) -> (code: String)
        requires
            *node matches Some(b) ==> gen_ok(tree_view(*b)),
            gen_opt(opt_tree_view(*node), old(self).label_count as nat).1 <= u32::MAX,
        ensures
            (code@, final(self).label_count as nat) == gen_opt(opt_tree_view(*node), old(self).label_count as nat),
        decreases node,
    {
        match node {
            Some(n) => self.gen_node_code(n),
            None => String::new(),
        }
    }

    #[verifier::spinoff_prover]
    #[verifier::rlimit(40)]
    fn gen_own_code(&mut self, node: &Node) -> (code: String)
        requires
            node_gen_ok(node@),
            gen_node(node@, old(self).label_count as nat).1 <= u32::MAX,
        ensures
            (code@, final(self).label_count as nat) == gen_node(node@, old(self).label_count as nat),
        decreases node,
    {
        let ghost c = self.label_count as nat;
        let mut code = String::new();
        match node {
            Node::Stmt { kind, .. } => match kind {
                StmtKind::If { condition, then_branch, else_branch } => {
                    let ghost start = c + if_labels(opt_tree_view(*else_branch));
                    proof {
                        lemma_gen_tree_counts_up(tree_view(**condition), start);
                        let c2 = gen_tree(tree_view(**condition), start).1;
                        lemma_gen_opt_counts_up(opt_tree_view(*then_branch), c2);
                        lemma_gen_opt_counts_up(opt_tree_view(*else_branch), gen_opt(opt_tree_view(*then_branch), c2).1);
                    }
                    let else_label = self.gen_label();
                    let has_else = else_branch.is_some();
                    let end_label = if has_else { self.gen_label() } else { String::new() };
                    let cc = self.gen_node_code(condition);
                    let tc = self.gen_opt_code(then_branch);
                    let ec = self.gen_opt_code(else_branch);
                    code.append(cc.as_str());
                    code.append("\nJMPEQ ");
                    code.append(else_label.as_str());
                    code.append("\n");
                    code.append(tc.as_str());
                    if has_else {
                        code.append("\nJMP ");
                        code.append(end_label.as_str());
                        code.append("\n");
                        code.append(else_label.as_str());
                        code.append(":\n");
                        code.append(ec.as_str());
                        code.append("\n");
                        code.append(end_label.as_str());
                        code.append(":");
                    } else {
                        code.append("\n");
                        code.append(else_label.as_str());
                        code.append(":\n");
                        code.append(ec.as_str());
                    }
                },
                StmtKind::While { condition, body } => {
                    proof {
                        lemma_gen_tree_counts_up(tree_view(**condition), c + 2);
                        lemma_gen_opt_counts_up(opt_tree_view(*body), gen_tree(tree_view(**condition), c + 2).1);
                    }
                    let condition_label = self.gen_label();
                    let end_label = self.gen_label();
                    let cc = self.gen_node_code(condition);
                    let bc = self.gen_opt_code(body);
                    code.append(condition_label.as_str());
                    code.append(":\n");
                    code.append(cc.as_str());
                    code.append("\nJMPEQ ");
                    code.append(end_label.as_str());
                    code.append("\n");
                    code.append(bc.as_str());
                    code.append("\nJMP ");
                    code.append(condition_label.as_str());
                    code.append("\n");
                    code.append(end_label.as_str());
                    code.append(":");
                },
                StmtKind::Do { body, condition } => {
                    proof {
                        lemma_gen_opt_counts_up(opt_tree_view(*body), c + 1);
                        lemma_gen_tree_counts_up(tree_view(**condition), gen_opt(opt_tree_view(*body), c + 1).1);
                    }
                    let body_label = self.gen_label();
                    let bc = self.gen_opt_code(body);
                    let cc = self.gen_node_code(condition);
                    code.append(body_label.as_str());
                    code.append(":\n");
                    code.append(bc.as_str());
                    code.append("\n");
                    code.append(cc.as_str());
                    code.append("\nJMPNE ");
                    code.append(body_label.as_str());
                },
                StmtKind::Assign { name, value } => {
                    let vc = self.gen_node_code(value);
                    code.append(vc.as_str());
                    code.append("\nSTORE_VAR ");
                    code.append(name.as_str());
                },
                StmtKind::In { name } => {
                    code.append("READ\nSTORE_VAR ");
                    code.append(name.as_str());
                },
                StmtKind::Out { expression } => {
                    let xc = self.gen_node_code(expression);
                    code.append(xc.as_str());
                    code.append("\nPRINT");
                },
            },
            Node::Exp { kind, val, .. } => match kind {
                ExpKind::Op { op, left, right } => match val {
                    Some(v) => {
                        code.append("LOAD_CONST ");
                        let t = v.to_string();
                        code.append(t.as_str());
                    },
                    None => {
                        proof {
                            lemma_gen_tree_counts_up(tree_view(**left), c);
                            lemma_gen_opt_counts_up(opt_tree_view(*right), gen_tree(tree_view(**left), c).1);
                        }
                        let left_code = self.gen_node_code(left);
                        let has_right = right.is_some();
                        let right_code = self.gen_opt_code(right);
                        self.append_op_code(&mut code, *op, &left_code, has_right, &right_code);
                    },
                },
                ExpKind::Const { value } => {
                    code.append("LOAD_CONST ");
                    append_int(&mut code, *value);
                },
                ExpKind::ConstF { value } => {
                    code.append("LOAD_CONST ");
                    code.append(value.as_str());
                },
                ExpKind::Id { name } => {
                    code.append("LOAD_VAR ");
                    code.append(name.as_str());
                },
            },
            Node::Decl { kind, .. } => match kind {
                DeclKind::Var { name, .. } => {
                    code.append("LOAD_CONST 1\nSTORE_VAR ");
                    code.append(name.as_str());
                },
            },
        }
        code
    }

    /// Appends the code of an operator whose operands have the codes given;
    /// a comparison creates its two labels here.
    fn append_op_code(&mut self, code: &mut String, op: TokenType, l: &String, has_right: bool, r: &String)
        requires
            op_has_code(op),
            is_comparison(op) ==> old(self).label_count + 2 <= u32::MAX,
        ensures
            final(self).label_count == if is_comparison(op) { old(self).label_count + 2 } else { old(self).label_count as int },
            final(code)@ == old(code)@ + op_code(op, l@, if has_right { Some(r@) } else { None },
                old(self).label_count as nat + 1, old(self).label_count as nat + 2),
    {
        if op == TokenType::NEG {
            code.append("LOAD_CONST 1\n");
            code.append(l.as_str());
            code.append("\nSUB");
            assert(code@ =~= old(code)@ + ("LOAD_CONST 1\n"@ + l@ + "\nSUB"@));
        } else if op == TokenType::LT || op == TokenType::LE || op == TokenType::GT || op == TokenType::GE
            || op == TokenType::NE || op == TokenType::EQ {
            self.append_comparison(code, op, l, has_right, r);
        } else if has_right {
            if op == TokenType::OR {
                append_binary(code, l, r, "\nADD\n");
                code.append(l.as_str());
                code.append("\n");
                code.append(r.as_str());
                code.append("\nMUL\nSUB");
                assert(code@ =~= old(code)@ + (l@ + "\n"@ + r@ + "\nADD\n"@ + l@ + "\n"@ + r@ + "\nMUL\nSUB"@));
            } else if op == TokenType::AND {
                append_binary(code, l, r, "\nMUL");
            } else {
                append_binary(code, l, r, arith_str(op));
            }
        }
    }

    fn append_comparison(&mut self, code: &mut String, op: TokenType, l: &String, has_right: bool, r: &String)
        requires
            is_comparison(op),
            old(self).label_count + 2 <= u32::MAX,
        ensures
            final(self).label_count == old(self).label_count + 2,
            final(code)@ == old(code)@ + op_code(op, l@, if has_right { Some(r@) } else { None },
                old(self).label_count as nat + 1, old(self).label_count as nat + 2),
    {
        let jmp_ins = jump_str(op);
        let true_label = self.gen_label();
        let end_label = self.gen_label();
        if has_right {
            append_binary(code, l, r, "\nSUB\n");
            let ghost mid = code@;
            append_jump_tail(code, jmp_ins, &true_label, &end_label);
            assert(code@ =~= old(code)@ + op_code(op, l@, Some(r@), old(self).label_count as nat + 1,
                old(self).label_count as nat + 2));
        }
    }
}

fn append_jump_tail(code: &mut String, jmp: &str, t: &String, e: &String)
    ensures
        final(code)@ == old(code)@ + jump_tail(jmp@, t@, e@),
{
    code.append(jmp);
    code.append(" ");
    code.append(t.as_str());
    code.append("\nLOAD_CONST 0\nJMP ");
    code.append(e.as_str());
    code.append("\n");
    code.append(t.as_str());
    code.append(":\nLOAD_CONST 1\n");
    code.append(e.as_str());
    code.append(":");
    assert(code@ =~= old(code)@ + jump_tail(jmp@, t@, e@));
}

/// Appends `l`, a line break, `r` and `tail`.
fn append_binary(code: &mut String, l: &String, r: &String, tail: &str)
    ensures
        final(code)@ == old(code)@ + (l@ + "\n"@ + r@ + tail@),
{
    code.append(l.as_str());
    code.append("\n");
    code.append(r.as_str());
    code.append(tail);
    assert(code@ =~= old(code)@ + (l@ + "\n"@ + r@ + tail@));
}

fn arith_str(op: TokenType) -> (s: &'static str)
    ensures
        s@ == arith_text(op),
{
    match op {
        TokenType::SUM => "\nADD",
        TokenType::MIN => "\nSUB",
        TokenType::TIMES => "\nMUL",
        TokenType::DIV => "\nDIV",
        TokenType::MODULUS => "\nMOD",
        _ => "\nPOW",
    }
}

fn jump_str(op: TokenType) -> (s: &'static str)
    ensures
        s@ == jump_text(op),
{
    match op {
        TokenType::LT => "JMPLT",
        TokenType::LE => "JMPLE",
        TokenType::GT => "JMPGT",
        TokenType::GE => "JMPGE",
        TokenType::NE => "JMPNE",
        _ => "JMPEQ",
    }
}

/// The label count after the code of `t`, when the labels created so far
/// number `c`; `None` where an operator without code would be generated or
/// the count would pass `u32::MAX`.
fn count_tree(t: &TreeNode, c: u32) -> (r: Option<u32>)
    ensures
        r == (if gen_ok(t@) && gen_tree(t@, c as nat).1 <= u32::MAX { Some(gen_tree(t@, c as nat).1 as u32) } else { None }),
    decreases t,
{
    proof {
        lemma_gen_node_counts_up(t.node@, c as nat);
        if let Some(s) = tree_view(*t).sibling {
            lemma_gen_tree_counts_up(*s, gen_node(t.node@, c as nat).1);
        }
    }
    let c1 = count_node(&t.node, c)?;
    match &t.sibling {
        Some(s) => count_tree(s, c1),
        None => Some(c1),
    }
}

fn count_opt(t: &Option<Box<TreeNode>>, c: u32) -> (r: Option<u32>)
    ensures
        r == (if (opt_tree_view(*t) matches Some(b) ==> gen_ok(*b)) && gen_opt(opt_tree_view(*t), c as nat).1 <= u32::MAX {
            Some(gen_opt(opt_tree_view(*t), c as nat).1 as u32)
        } else {
            None
        }),
    decreases t,
{
    match t {
        Some(b) => count_tree(b, c),
        None => Some(c),
    }
}

fn count_node(n: &Node, c: u32) -> (r: Option<u32>)
    ensures
        r == (if node_gen_ok(n@) && gen_node(n@, c as nat).1 <= u32::MAX { Some(gen_node(n@, c as nat).1 as u32) } else { None }),
    decreases n,
{
    proof {
        lemma_gen_node_counts_up(n@, c as nat);
    }
    match n {
        Node::Stmt { kind, .. } => match kind {
            StmtKind::If { condition, then_branch, else_branch } => {
                let n: u32 = if else_branch.is_some() { 2 } else { 1 };
                proof {
                    lemma_gen_tree_counts_up(tree_view(**condition), (c + n) as nat);
                    let c2 = gen_tree(tree_view(**condition), (c + n) as nat).1;
                    lemma_gen_opt_counts_up(opt_tree_view(*then_branch), c2);
                    lemma_gen_opt_counts_up(opt_tree_view(*else_branch), gen_opt(opt_tree_view(*then_branch), c2).1);
                }
                if c > u32::MAX - n {
                    return None;
                }
                let c2 = count_tree(condition, c + n)?;
                let c3 = count_opt(then_branch, c2)?;
                count_opt(else_branch, c3)
            },
            StmtKind::While { condition, body } => {
                proof {
                    lemma_gen_tree_counts_up(tree_view(**condition), (c + 2) as nat);
                    lemma_gen_opt_counts_up(opt_tree_view(*body), gen_tree(tree_view(**condition), (c + 2) as nat).1);
                }
                if c >= u32::MAX - 1 {
                    return None;
                }
                let c2 = count_tree(condition, c + 2)?;
                count_opt(body, c2)
            },
            StmtKind::Do { body, condition } => {
                proof {
                    lemma_gen_opt_counts_up(opt_tree_view(*body), (c + 1) as nat);
                    lemma_gen_tree_counts_up(tree_view(**condition), gen_opt(opt_tree_view(*body), (c + 1) as nat).1);
                }
                if c == u32::MAX {
                    return None;
                }
                let c2 = count_opt(body, c + 1)?;
                count_tree(condition, c2)
            },
            StmtKind::Assign { value, .. } => count_tree(value, c),
            StmtKind::In { .. } => Some(c),
            StmtKind::Out { expression } => count_tree(expression, c),
        },
        Node::Exp { kind, val, .. } => match kind {
            ExpKind::Op { op, left, right } => {
                if val.is_some() {
                    return Some(c);
                }
                let op = *op;
                if !(op == TokenType::SUM || op == TokenType::MIN || op == TokenType::TIMES || op == TokenType::DIV
                    || op == TokenType::MODULUS || op == TokenType::POWER || op == TokenType::LT
                    || op == TokenType::LE || op == TokenType::GT || op == TokenType::GE || op == TokenType::NE
                    || op == TokenType::EQ || op == TokenType::AND || op == TokenType::OR || op == TokenType::NEG) {
                    return None;
                }
                proof {
                    lemma_gen_tree_counts_up(tree_view(**left), c as nat);
                    lemma_gen_opt_counts_up(opt_tree_view(*right), gen_tree(tree_view(**left), c as nat).1);
                }
                let c2 = count_tree(left, c)?;
                let c3 = count_opt(right, c2)?;
                if op == TokenType::LT || op == TokenType::LE || op == TokenType::GT || op == TokenType::GE
                    || op == TokenType::NE || op == TokenType::EQ {
                    if c3 >= u32::MAX - 1 {
                        None
                    } else {
                        Some(c3 + 2)
                    }
                } else {
                    Some(c3)
                }
            },
            _ => Some(c),
        },
        Node::Decl { .. } => Some(c),
    }
}

impl CodeGen {
    /// The code of the program `node`, or `None` where generating it would
    /// stop the program: an operator without code whose value is not known
    /// before run time, or more than `u32::MAX` labels.
    pub fn try_generate(self, node: &TreeNode) -> (r: Option<String>)
        ensures
            r is Some <==> gen_ok(node@) && gen_tree(node@, self.spec_label_count()).1 <= u32::MAX,
            r matches Some(code) ==> code@ == gen_tree(node@, self.spec_label_count()).0,
    {
        match count_tree(node, self.label_count) {
            Some(_) => Some(self.generate(node)),
            None => None,
        }
    }
}

} // verus!
