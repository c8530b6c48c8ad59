// Tree walks, and the analysis and code generation of trees built by hand.

use vanilla_parser::analyze::{analyze, Analyzer};
use vanilla_parser::codegen::CodeGen;
use vanilla_parser::parse::try_parse;
use vanilla_parser::structures::{DeclKind, ExpKind, ExpType, Node, NodeValue, StmtKind, TreeNode};
use vanilla_parser::{Cursor, Token, TokenType};

fn no_floats(_op: TokenType, _l: NodeValue, _r: NodeValue) -> NodeValue {
    NodeValue::Boolean(false)
}

fn at(col: usize) -> Option<Cursor> {
    Some(Cursor { col, lin: 3 })
}

fn leaf(node: Node) -> TreeNode {
    TreeNode::new(node)
}

fn constant(value: i32) -> TreeNode {
    leaf(Node::Exp { kind: ExpKind::Const { value }, typ: ExpType::Void, id: String::new(), cursor: at(1), val: None })
}

fn op(op: TokenType, left: TreeNode, right: Option<TreeNode>) -> TreeNode {
    leaf(Node::Exp {
        kind: ExpKind::Op { op, left: Box::new(left), right: right.map(Box::new) },
        typ: ExpType::Void,
        id: String::new(),
        cursor: at(2),
        val: None,
    })
}

fn out(expression: TreeNode) -> TreeNode {
    leaf(Node::Stmt { kind: StmtKind::Out { expression: Box::new(expression) }, id: String::new(), cursor: at(0) })
}

fn decl(name: &str) -> TreeNode {
    leaf(Node::Decl { kind: DeclKind::Var { typ: ExpType::Integer, name: name.to_string() }, id: String::new(), cursor: at(5) })
}

fn kind_name(n: &Node) -> String {
    match n {
        Node::Decl { .. } => "decl".to_string(),
        Node::Stmt { kind: StmtKind::Assign { .. }, .. } => "assign".to_string(),
        Node::Stmt { .. } => "stmt".to_string(),
        Node::Exp { kind: ExpKind::Op { .. }, .. } => "op".to_string(),
        Node::Exp { kind: ExpKind::Const { value }, .. } => format!("const {}", value),
        Node::Exp { .. } => "exp".to_string(),
    }
}

fn sample() -> TreeNode {
    let mut d = decl("x");
    d.sibling = Some(Box::new(leaf(Node::Stmt {
        kind: StmtKind::Assign { name: "x".to_string(), value: Box::new(op(TokenType::SUM, constant(1), Some(constant(2)))) },
        id: String::new(),
        cursor: at(7),
    })));
    d
}

#[test]
fn walks_in_pre_order() {
    let t = sample();
    let names: Vec<String> = t.pre_order_traversal().into_iter().map(kind_name).collect();
    assert_eq!(names, vec!["decl", "assign", "op", "const 1", "const 2"]);
}

#[test]
fn walks_in_post_order() {
    let t = sample();
    let names: Vec<String> = t.post_order_traversal().into_iter().map(kind_name).collect();
    assert_eq!(names, vec!["decl", "const 1", "const 2", "op", "assign"]);
}

#[test]
fn last_sibling_of_a_list() {
    let mut a = decl("a");
    assert!(a.last_sibling().is_none());
    let mut b = decl("b");
    b.sibling = Some(Box::new(decl("c")));
    a.sibling = Some(Box::new(b));
    match &a.last_sibling().unwrap().node {
        Node::Decl { kind: DeclKind::Var { name, .. }, .. } => assert_eq!(name, "c"),
        _ => panic!(),
    }
}

#[test]
fn operator_without_right_side() {
    let mut t = out(op(TokenType::SUM, constant(1), None));
    let (errors, _) = analyze(&mut t, &no_floats).unwrap();
    let messages: Vec<&str> = errors.iter().map(|e| e.message.as_str()).collect();
    assert_eq!(
        messages,
        vec![
            "Operacion binaria sin lado derecho",
            "La sentencia out solo está definida para expresiones Enteras y Flotantes!",
        ]
    );
    assert_eq!(errors[0].cursor, Cursor { col: 2, lin: 3 });
}

#[test]
fn unknown_binary_operator_stops_the_analysis() {
    let mut t = out(op(TokenType::ASSIGN, constant(1), Some(constant(2))));
    assert!(Analyzer::new().analyze(&mut t, &no_floats).is_none());
}

#[test]
fn operator_without_code_is_not_generated() {
    let t = out(op(TokenType::ASSIGN, constant(1), Some(constant(2))));
    assert!(CodeGen::new().try_generate(&t).is_none());
    let ok = out(op(TokenType::SUM, constant(1), Some(constant(2))));
    assert_eq!(CodeGen::new().try_generate(&ok).unwrap(), "LOAD_CONST 1\n\nLOAD_CONST 2\n\nADD\n\nPRINT\n");
}

#[test]
fn negation_is_folded_and_not_printable() {
    let items = [
        (TokenType::MAIN, "main"),
        (TokenType::LBRA, "{"),
        (TokenType::STDOUT, "cout"),
        (TokenType::NEG, "!"),
        (TokenType::LPAR, "("),
        (TokenType::INT, "1"),
        (TokenType::LT, "<"),
        (TokenType::INT, "2"),
        (TokenType::RPAR, ")"),
        (TokenType::SCOL, ";"),
        (TokenType::RBRA, "}"),
    ];
    let toks: Vec<Token> = items
        .iter()
        .enumerate()
        .map(|(i, (tt, s))| Token {
            token_type: *tt,
            lexemme: s.to_string(),
            start: Cursor { col: i, lin: 1 },
            end: Cursor { col: i + 1, lin: 1 },
        })
        .collect();
    let floats = vec![None; toks.len()];
    let (tree, errors) = try_parse(toks, floats).unwrap();
    assert!(errors.is_empty(), "{:?}", errors);
    let mut tree = tree.unwrap();
    let (errors, table) = analyze(&mut tree, &no_floats).unwrap();
    assert_eq!(table.len(), 0);
    assert_eq!(errors.len(), 1);
    assert_eq!(errors[0].message, "La sentencia out solo está definida para expresiones Enteras y Flotantes!");
    match &tree.node {
        Node::Stmt { kind: StmtKind::Out { expression }, .. } => match &expression.node {
            Node::Exp { kind: ExpKind::Op { op, .. }, typ, val, .. } => {
                assert_eq!(*op, TokenType::NEG);
                assert_eq!(*typ, ExpType::Boolean);
                assert!(matches!(val, Some(NodeValue::Boolean(false))));
            },
            other => panic!("{:?}", other),
        },
        other => panic!("{:?}", other),
    }
}

#[test]
fn table_lookup_by_name() {
    let mut t = sample();
    let (errors, table) = analyze(&mut t, &no_floats).unwrap();
    assert!(errors.is_empty());
    assert_eq!(table.find("x"), Some(0));
    assert_eq!(table.find("y"), None);
    let d = table.get("x").unwrap();
    assert!(matches!(d.value, Some(NodeValue::Int(3))));
    assert_eq!(d.declaration, Cursor { col: 5, lin: 3 });
    assert_eq!(d.usages.len(), 1);
    assert_eq!(d.usages[0].cursor, Cursor { col: 7, lin: 3 });
}

#[test]
fn appending_through_the_last_sibling() {
    let mut t = decl("a");
    t.get_last_sibling_mut().sibling = Some(Box::new(decl("b")));
    t.get_last_sibling_mut().sibling = Some(Box::new(decl("c")));
    let names: Vec<String> = t
        .pre_order_traversal()
        .into_iter()
        .map(|n| match n {
            Node::Decl { kind: DeclKind::Var { name, .. }, .. } => name.clone(),
            _ => String::new(),
        })
        .collect();
    assert_eq!(names, vec!["a", "b", "c"]);
}

#[test]
fn analysis_keeps_the_shape_of_the_tree() {
    let mut t = sample();
    let before: Vec<String> = t.pre_order_traversal().into_iter().map(kind_name).collect();
    let (errors, _) = analyze(&mut t, &no_floats).unwrap();
    assert!(errors.is_empty());
    let after: Vec<String> = t.pre_order_traversal().into_iter().map(kind_name).collect();
    assert_eq!(before, after);
    let vals: Vec<bool> = t
        .pre_order_traversal()
        .into_iter()
        .filter_map(|n| match n {
            Node::Exp { val, .. } => Some(val.is_some()),
            _ => None,
        })
        .collect();
    assert_eq!(vals, vec![true, true, true]);
}

#[test]
fn rendering_a_tree() {
    let mut t = sample();
    assert!(vanilla_parser::render::depth_fits(&t, 0));
    assert_eq!(
        vanilla_parser::render::render_tree(&t, 0),
        "Decl: Var (Type: Integer, Name: x)\nStmt: Assign (Name: x) | Value: None\n  Value:\n    Exp: Op (SUM) | Type Void\n      Left:\n        Exp: Const (Value: 1 | Type: Void)\n      Right:\n        Exp: Const (Value: 2 | Type: Void)\n"
    );
    let _ = analyze(&mut t, &no_floats).unwrap();
    assert_eq!(
        vanilla_parser::render::render_tree(&t, 2),
        "  Decl: Var (Type: Integer, Name: x)\n  Stmt: Assign (Name: x) | Value: Some(Int(3))\n    Value:\n      Exp: Op (SUM) | Type Integer Val: 3\n        Left:\n          Exp: Const (Value: 1 | Type: Integer)\n        Right:\n          Exp: Const (Value: 2 | Type: Integer)\n"
    );
    assert!(!vanilla_parser::render::depth_fits(&t, usize::MAX - 5));
}

#[test]
fn both_walks_visit_the_same_nodes() {
    let t = sample();
    let mut pre: Vec<String> = t.pre_order_traversal().into_iter().map(kind_name).collect();
    let mut post: Vec<String> = t.post_order_traversal().into_iter().map(kind_name).collect();
    assert_ne!(pre, post);
    pre.sort();
    post.sort();
    assert_eq!(pre, post);
}

fn comparison_out() -> TreeNode {
    out(op(TokenType::LT, constant(1), Some(constant(2))))
}

#[test]
fn code_of_a_list_is_the_code_of_its_members_in_turn() {
    let mut chain = comparison_out();
    chain.sibling = Some(Box::new(comparison_out()));
    let whole = CodeGen::new().generate(&chain);
    let single = CodeGen::new().generate(&comparison_out());
    let shifted = single.replace("label2", "label4").replace("label1", "label3");
    assert_ne!(single, shifted);
    assert_eq!(whole, single + &shifted);
}

#[test]
fn code_ignores_positions_types_and_ids() {
    let a = comparison_out();
    let mut b = comparison_out();
    if let Node::Stmt { kind: StmtKind::Out { expression }, id, cursor } = &mut b.node {
        *id = "another".to_string();
        *cursor = None;
        if let Node::Exp { typ, cursor, .. } = &mut expression.node {
            *typ = ExpType::Boolean;
            *cursor = at(40);
        }
    }
    assert_eq!(CodeGen::new().generate(&a), CodeGen::new().generate(&b));
}

#[test]
fn a_while_over_a_comparison_creates_four_labels() {
    let w = leaf(Node::Stmt {
        kind: StmtKind::While {
            condition: Box::new(op(TokenType::LT, constant(1), Some(constant(2)))),
            body: Some(Box::new(comparison_out())),
        },
        id: String::new(),
        cursor: at(0),
    });
    let code = CodeGen::new().generate(&w);
    for k in 1..=6 {
        assert!(code.contains(&format!("label{}:", k)), "label{} missing in {}", k, code);
    }
    assert!(!code.contains("label7"));
}

fn id(name: &str) -> TreeNode {
    leaf(Node::Exp { kind: ExpKind::Id { name: name.to_string() }, typ: ExpType::Void, id: String::new(), cursor: at(3), val: None })
}

/// Runs stack-machine code: a jump `JMPxx L` pops a value and jumps when it
/// compares with 0 as `xx` says; gives what was printed.
fn run(code: &str, vars: &[(&str, i64)]) -> Vec<i64> {
    let lines: Vec<&str> = code.lines().map(|l| l.trim()).filter(|l| !l.is_empty()).collect();
    let find = |label: &str| lines.iter().position(|l| *l == format!("{}:", label)).expect("undefined label");
    let mut env: std::collections::HashMap<String, i64> = vars.iter().map(|(k, v)| (k.to_string(), *v)).collect();
    let mut stack: Vec<i64> = Vec::new();
    let mut out = Vec::new();
    let mut pc = 0;
    let mut steps = 0;
    while pc < lines.len() {
        steps += 1;
        assert!(steps < 10_000, "runs forever");
        let line = lines[pc];
        pc += 1;
        if line.ends_with(':') {
            continue;
        }
        let mut parts = line.split_whitespace();
        let ins = parts.next().unwrap();
        let arg = parts.next();
        match ins {
            "LOAD_CONST" => stack.push(arg.unwrap().parse().unwrap()),
            "LOAD_VAR" => stack.push(env[arg.unwrap()]),
            "STORE_VAR" => {
                let v = stack.pop().unwrap();
                env.insert(arg.unwrap().to_string(), v);
            },
            "PRINT" => out.push(stack.pop().unwrap()),
            "ADD" | "SUB" | "MUL" => {
                let b = stack.pop().unwrap();
                let a = stack.pop().unwrap();
                stack.push(match ins { "ADD" => a + b, "SUB" => a - b, _ => a * b });
            },
            "JMP" => pc = find(arg.unwrap()),
            _ => {
                let v = stack.pop().unwrap();
                let taken = match ins {
                    "JMPEQ" => v == 0,
                    "JMPNE" => v != 0,
                    "JMPLT" => v < 0,
                    "JMPLE" => v <= 0,
                    "JMPGT" => v > 0,
                    "JMPGE" => v >= 0,
                    other => panic!("unknown instruction {}", other),
                };
                if taken {
                    pc = find(arg.unwrap());
                }
            },
        }
    }
    assert!(stack.is_empty(), "stack left: {:?}", stack);
    out
}

fn if_else(condition: TreeNode, then_branch: TreeNode, else_branch: TreeNode) -> TreeNode {
    leaf(Node::Stmt {
        kind: StmtKind::If {
            condition: Box::new(condition),
            then_branch: Some(Box::new(then_branch)),
            else_branch: Some(Box::new(else_branch)),
        },
        id: String::new(),
        cursor: at(0),
    })
}

#[test]
fn if_else_code_jumps_over_the_else_branch() {
    let t = if_else(id("c"), out(constant(1)), out(constant(2)));
    let code = CodeGen::new().generate(&t);
    assert_eq!(
        code,
        "LOAD_VAR c\n\nJMPEQ label1\nLOAD_CONST 1\n\nPRINT\n\nJMP label2\nlabel1:\nLOAD_CONST 2\n\nPRINT\n\nlabel2:\n"
    );
    assert_eq!(run(&code, &[("c", 1)]), vec![1]);
    assert_eq!(run(&code, &[("c", 0)]), vec![2]);
}

#[test]
fn if_without_else_runs_its_branch_only_when_the_test_holds() {
    let t = leaf(Node::Stmt {
        kind: StmtKind::If { condition: Box::new(id("c")), then_branch: Some(Box::new(out(constant(1)))), else_branch: None },
        id: String::new(),
        cursor: at(0),
    });
    let code = CodeGen::new().generate(&t);
    assert_eq!(run(&code, &[("c", 1)]), vec![1]);
    assert_eq!(run(&code, &[("c", 0)]), Vec::<i64>::new());
    assert!(!code.contains("label2"));
}

#[test]
fn do_while_repeats_while_the_test_holds() {
    let t = leaf(Node::Stmt {
        kind: StmtKind::Do { body: None, condition: Box::new(id("c")) },
        id: String::new(),
        cursor: None,
    });
    assert_eq!(CodeGen::new().generate(&t), "label1:\n\nLOAD_VAR c\n\nJMPNE label1\n");
    // do { cout x; x = x - 1; } while x;
    let mut body = out(id("x"));
    body.sibling = Some(Box::new(leaf(Node::Stmt {
        kind: StmtKind::Assign { name: "x".to_string(), value: Box::new(op(TokenType::MIN, id("x"), Some(constant(1)))) },
        id: String::new(),
        cursor: at(1),
    })));
    let t = leaf(Node::Stmt {
        kind: StmtKind::Do { body: Some(Box::new(body)), condition: Box::new(id("x")) },
        id: String::new(),
        cursor: at(0),
    });
    assert_eq!(run(&CodeGen::new().generate(&t), &[("x", 3)]), vec![3, 2, 1]);
}

#[test]
fn or_gives_one_when_either_side_is_one() {
    let t = out(op(TokenType::OR, id("a"), Some(id("b"))));
    let code = CodeGen::new().generate(&t);
    assert!(code.contains("ADD") && !code.contains("SUM"));
    for a in 0..2 {
        for b in 0..2 {
            assert_eq!(run(&code, &[("a", a), ("b", b)]), vec![if a == 1 || b == 1 { 1 } else { 0 }]);
        }
    }
    let t = out(op(TokenType::AND, id("a"), Some(id("b"))));
    let code = CodeGen::new().generate(&t);
    for a in 0..2 {
        for b in 0..2 {
            assert_eq!(run(&code, &[("a", a), ("b", b)]), vec![a * b]);
        }
    }
}

#[test]
fn comparisons_and_loops_run_as_they_read() {
    // while i < 3 { cout i; i = i + 1; }
    let mut body = out(id("i"));
    body.sibling = Some(Box::new(leaf(Node::Stmt {
        kind: StmtKind::Assign { name: "i".to_string(), value: Box::new(op(TokenType::SUM, id("i"), Some(constant(1)))) },
        id: String::new(),
        cursor: at(1),
    })));
    let t = leaf(Node::Stmt {
        kind: StmtKind::While {
            condition: Box::new(op(TokenType::LT, id("i"), Some(constant(3)))),
            body: Some(Box::new(body)),
        },
        id: String::new(),
        cursor: at(0),
    });
    assert_eq!(run(&CodeGen::new().generate(&t), &[("i", 0)]), vec![0, 1, 2]);
}

#[test]
fn every_label_is_defined_once_and_every_jump_targets_one() {
    // do { if a < b { while c { cout 1; } } else { cout a || b; } } while a == b;
    let while_loop = leaf(Node::Stmt {
        kind: StmtKind::While { condition: Box::new(id("c")), body: Some(Box::new(out(constant(1)))) },
        id: String::new(),
        cursor: at(0),
    });
    let branch = if_else(
        op(TokenType::LT, id("a"), Some(id("b"))),
        while_loop,
        out(op(TokenType::OR, id("a"), Some(id("b")))),
    );
    let t = leaf(Node::Stmt {
        kind: StmtKind::Do { body: Some(Box::new(branch)), condition: Box::new(op(TokenType::EQ, id("a"), Some(id("b")))) },
        id: String::new(),
        cursor: at(0),
    });
    let code = CodeGen::new().generate(&t);
    let lines: Vec<&str> = code.lines().map(|l| l.trim()).collect();
    // do 1, if-else 2, comparison 2, while 2, comparison 2
    let created = 9;
    for k in 1..=created {
        let def = format!("label{}:", k);
        assert_eq!(lines.iter().filter(|l| **l == def).count(), 1, "label{} in {}", k, code);
    }
    assert!(!code.contains(&format!("label{}", created + 1)));
    for l in lines.iter().filter(|l| l.starts_with("JMP")) {
        let target = l.split_whitespace().nth(1).unwrap();
        assert!(lines.contains(&format!("{}:", target).as_str()), "{} jumps nowhere", l);
    }
}
