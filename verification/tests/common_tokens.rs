// Programs given as their tokens, parsed and analyzed end to end.

use vanilla_parser::analyze::analyze;
use vanilla_parser::codegen::CodeGen;
use vanilla_parser::parse::try_parse;
use vanilla_parser::structures::{DeclKind, ExpKind, ExpType, Node, NodeValue, StmtKind, TreeNode};
use vanilla_parser::{Cursor, Token, TokenType};

fn lex(tt: TokenType) -> &'static str {
    match tt {
        TokenType::MAIN => "main",
        TokenType::INTEGER => "integer",
        TokenType::DOUBLE => "double",
        TokenType::IF => "if",
        TokenType::ELSE => "else",
        TokenType::WHILE => "while",
        TokenType::DO => "do",
        TokenType::STDIN => "cin",
        TokenType::STDOUT => "cout",
        TokenType::SUM => "+",
        TokenType::MIN => "-",
        TokenType::TIMES => "*",
        TokenType::DIV => "/",
        TokenType::MODULUS => "%",
        TokenType::POWER => "^",
        TokenType::INC => "++",
        TokenType::DEC => "--",
        TokenType::LT => "<",
        TokenType::LE => "<=",
        TokenType::GT => ">",
        TokenType::GE => ">=",
        TokenType::EQ => "==",
        TokenType::NE => "!=",
        TokenType::AND => "&&",
        TokenType::OR => "||",
        TokenType::NEG => "!",
        TokenType::ASSIGN => "=",
        TokenType::SCOL => ";",
        TokenType::COMMA => ",",
        TokenType::LPAR => "(",
        TokenType::RPAR => ")",
        TokenType::LBRA => "{",
        TokenType::RBRA => "}",
        _ => "",
    }
}

/// Tokens from (kind, text) pairs; an empty text stands for the kind's own
/// spelling. Token `i` starts at column `i` of line 1.
fn tokens(items: &[(TokenType, &str)]) -> (Vec<Token>, Vec<Option<String>>) {
    let mut toks = Vec::new();
    let mut floats = Vec::new();
    for (i, (tt, text)) in items.iter().enumerate() {
        let t = if text.is_empty() { lex(*tt) } else { *text };
        toks.push(Token {
            token_type: *tt,
            lexemme: t.to_string(),
            start: Cursor { col: i, lin: 1 },
            end: Cursor { col: i + t.len(), lin: 1 },
        });
        floats.push(if *tt == TokenType::FLOAT { t.parse::<f32>().ok().map(|f| f.to_string()) } else { None });
    }
    (toks, floats)
}

fn to_f32(v: &NodeValue) -> f32 {
    match v {
        NodeValue::Int(i) => *i as f32,
        NodeValue::Float(s) => s.parse::<f32>().unwrap(),
        NodeValue::Boolean(_) => 0.0,
    }
}

/// The `f32` operations of the language, where one operand is a float.
fn float_ops(op: TokenType, l: NodeValue, r: NodeValue) -> NodeValue {
    let (a, b) = (to_f32(&l), to_f32(&r));
    match op {
        TokenType::SUM => NodeValue::Float((a + b).to_string()),
        TokenType::MIN => NodeValue::Float((a - b).to_string()),
        TokenType::TIMES => NodeValue::Float((a * b).to_string()),
        TokenType::DIV => NodeValue::Float((a / b).to_string()),
        TokenType::MODULUS => NodeValue::Float((a % b).to_string()),
        TokenType::POWER => NodeValue::Float(a.powf(b).to_string()),
        TokenType::EQ => NodeValue::Boolean(a == b),
        TokenType::LT => NodeValue::Boolean(a < b),
        TokenType::LE => NodeValue::Boolean(a <= b),
        TokenType::GT => NodeValue::Boolean(a > b),
        TokenType::GE => NodeValue::Boolean(a >= b),
        _ => NodeValue::Boolean(false),
    }
}

fn parse_ok(items: &[(TokenType, &str)]) -> TreeNode {
    let (toks, floats) = tokens(items);
    let (tree, errors) = try_parse(toks, floats).expect("the parser stopped");
    assert!(errors.is_empty(), "unexpected syntax errors: {:?}", errors);
    tree.expect("no tree")
}

use vanilla_parser::TokenType::{
    AND, ASSIGN, COMMA, DEC, DIV, DO, DOUBLE, ELSE, EQ, FLOAT, GT, ID, IF, INC, INT, INTEGER, LBRA, LPAR, LT, MAIN, MODULUS, NE, NEG, OR, POWER,
    RBRA, RPAR, SCOL, STDIN, STDOUT, SUM, TIMES, WHILE,
};

fn decl_x_assign(value: &[(TokenType, &str)]) -> Vec<(TokenType, &'static str)> {
    let mut v: Vec<(TokenType, &'static str)> = vec![(MAIN, ""), (LBRA, ""), (INTEGER, ""), (ID, "x"), (SCOL, ""), (ID, "x"), (ASSIGN, "")];
    for (t, s) in value {
        let s: &'static str = Box::leak(s.to_string().into_boxed_str());
        v.push((*t, s));
    }
    v.push((SCOL, ""));
    v.push((RBRA, ""));
    v
}

#[test]
fn parse_declaration_then_assignment() {
    let tree = parse_ok(&decl_x_assign(&[(INT, "1"), (SUM, ""), (INT, "2")]));
    match &tree.node {
        Node::Decl { kind: DeclKind::Var { typ, name }, id, .. } => {
            assert_eq!(*typ, ExpType::Integer);
            assert_eq!(name, "x");
            assert_eq!(id.len(), 36);
        },
        other => panic!("expected a declaration, got {:?}", other),
    }
    let next = tree.sibling.as_ref().expect("no statement after the declaration");
    match &next.node {
        Node::Stmt { kind: StmtKind::Assign { name, value }, id, .. } => {
            assert_eq!(name, "x");
            assert_eq!(id.len(), 36);
            match &value.node {
                Node::Exp { kind: ExpKind::Op { op, left, right }, val, .. } => {
                    assert_eq!(*op, SUM);
                    assert!(val.is_none());
                    assert!(matches!(left.node, Node::Exp { kind: ExpKind::Const { value: 1 }, .. }));
                    assert!(matches!(right.as_ref().unwrap().node, Node::Exp { kind: ExpKind::Const { value: 2 }, .. }));
                },
                other => panic!("expected an operator, got {:?}", other),
            }
        },
        other => panic!("expected an assignment, got {:?}", other),
    }
    assert!(next.sibling.is_none());
}

fn is_uuid_v4_text(s: &str) -> bool {
    let c: Vec<char> = s.chars().collect();
    c.len() == 36
        && c.iter().enumerate().all(|(i, ch)| {
            if i == 8 || i == 13 || i == 18 || i == 23 { *ch == '-' } else { ch.is_ascii_digit() || ('a'..='f').contains(ch) }
        })
        && c[14] == '4'
        && "89ab".contains(c[19])
}

#[test]
fn node_ids_are_distinct() {
    let tree = parse_ok(&decl_x_assign(&[(INT, "7")]));
    let a = match &tree.node {
        Node::Decl { id, .. } => id.clone(),
        _ => panic!(),
    };
    let b = match &tree.sibling.as_ref().unwrap().node {
        Node::Stmt { id, .. } => id.clone(),
        _ => panic!(),
    };
    assert_ne!(a, b);
    assert!(is_uuid_v4_text(&a));
    assert!(is_uuid_v4_text(&b));
}

#[test]
fn parse_missing_closing_brace() {
    let (toks, floats) = tokens(&[(MAIN, ""), (LBRA, ""), (INTEGER, ""), (ID, "x"), (SCOL, "")]);
    let (tree, errors) = try_parse(toks, floats).unwrap();
    assert!(tree.is_some());
    let messages: Vec<&str> = errors.iter().map(|e| e.message.as_str()).collect();
    assert_eq!(
        messages,
        vec!["Se esperaba un token del tipo RBRA pero ya no hay ningún token disponible!", "Falta cerrar la llave del main!"]
    );
    assert_eq!(errors[0].expected_token_type, Some(vec![RBRA]));
    assert!(errors[1].current_token.is_none());
}

#[test]
fn parse_missing_main() {
    let (toks, floats) = tokens(&[(LBRA, ""), (RBRA, "")]);
    let (tree, errors) = try_parse(toks, floats).unwrap();
    assert!(tree.is_none());
    assert_eq!(errors.len(), 1);
    assert_eq!(errors[0].message, "Se esperaba un token del tipo MAIN");
    assert_eq!(errors[0].current_token.as_ref().unwrap().token_type, LBRA);
}

#[test]
fn parse_text_after_main() {
    let (toks, floats) = tokens(&[(MAIN, ""), (LBRA, ""), (RBRA, ""), (ID, "y")]);
    let (tree, errors) = try_parse(toks, floats).unwrap();
    assert!(tree.is_none());
    assert_eq!(errors.len(), 1);
    assert_eq!(errors[0].message, "No se puede escribir fuera del cuerpo del main!");
}

#[test]
fn analyze_folds_integer_constants() {
    let mut tree = parse_ok(&decl_x_assign(&[(INT, "2"), (TIMES, ""), (INT, "3")]));
    let (errors, table) = analyze(&mut tree, &float_ops).expect("the analysis stopped");
    assert!(errors.is_empty());
    assert_eq!(table.len(), 1);
    assert_eq!(table.name_at(0), "x");
    let d = table.data_at(0);
    assert_eq!(d.mem_location, 0);
    assert_eq!(d.typ, ExpType::Integer);
    assert!(matches!(d.value, Some(NodeValue::Int(6))));
    assert_eq!(d.usages.len(), 1);
    match &tree.sibling.as_ref().unwrap().node {
        Node::Stmt { kind: StmtKind::Assign { value, .. }, .. } => match &value.node {
            Node::Exp { typ, val, .. } => {
                assert_eq!(*typ, ExpType::Integer);
                assert!(matches!(val, Some(NodeValue::Int(6))));
            },
            _ => panic!(),
        },
        _ => panic!(),
    }
}

#[test]
fn analyze_gives_memory_locations_in_order() {
    let mut tree = parse_ok(&[
        (MAIN, ""), (LBRA, ""), (INTEGER, ""), (ID, "a"), (COMMA, ""), (ID, "b"), (SCOL, ""),
        (DOUBLE, ""), (ID, "c"), (SCOL, ""), (RBRA, ""),
    ]);
    let (errors, table) = analyze(&mut tree, &float_ops).unwrap();
    assert!(errors.is_empty());
    let names: Vec<&str> = (0..table.len()).map(|i| table.name_at(i).as_str()).collect();
    assert_eq!(names, vec!["a", "b", "c"]);
    for i in 0..table.len() {
        assert_eq!(table.data_at(i).mem_location, i as i32);
    }
    assert_eq!(table.get("c").unwrap().typ, ExpType::Float);
    assert!(table.get("z").is_none());
}

#[test]
fn analyze_reports_use_before_declaration() {
    let mut tree = parse_ok(&[(MAIN, ""), (LBRA, ""), (ID, "y"), (ASSIGN, ""), (INT, "1"), (SCOL, ""), (RBRA, "")]);
    let (errors, table) = analyze(&mut tree, &float_ops).unwrap();
    assert_eq!(table.len(), 0);
    assert_eq!(errors.len(), 1);
    assert_eq!(errors[0].message, "Uso antes de declaración");
}

#[test]
fn analyze_reports_double_declaration() {
    let mut tree = parse_ok(&[
        (MAIN, ""), (LBRA, ""), (INTEGER, ""), (ID, "x"), (SCOL, ""), (DOUBLE, ""), (ID, "x"), (SCOL, ""), (RBRA, ""),
    ]);
    let (errors, table) = analyze(&mut tree, &float_ops).unwrap();
    assert_eq!(table.len(), 1);
    assert_eq!(table.data_at(0).typ, ExpType::Integer);
    assert_eq!(errors.len(), 1);
    assert_eq!(errors[0].message, "Doble declaración");
}

#[test]
fn analyze_reports_type_mismatch() {
    let mut tree = parse_ok(&decl_x_assign(&[(FLOAT, "1.5")]));
    let (errors, table) = analyze(&mut tree, &float_ops).unwrap();
    assert_eq!(errors.len(), 1);
    assert_eq!(errors[0].message, "Se asigno un valor de tipo distinto!");
    match &table.data_at(0).value {
        Some(NodeValue::Float(s)) => assert_eq!(s, "1.5"),
        other => panic!("expected a float, got {:?}", other),
    }
}

#[test]
fn analyze_reports_boolean_assignment() {
    let mut tree = parse_ok(&decl_x_assign(&[(INT, "1"), (LT, ""), (INT, "2")]));
    let (errors, table) = analyze(&mut tree, &float_ops).unwrap();
    assert_eq!(errors.len(), 1);
    assert_eq!(errors[0].message, "No se puede asignar una expresion booleana a una variable");
    assert!(matches!(table.data_at(0).value, Some(NodeValue::Boolean(true))));
}

#[test]
fn analyze_reports_division_by_zero() {
    let mut tree = parse_ok(&decl_x_assign(&[(INT, "1"), (DIV, ""), (INT, "0")]));
    let (errors, table) = analyze(&mut tree, &float_ops).unwrap();
    assert_eq!(errors.len(), 1);
    assert_eq!(errors[0].message, "División entre cero");
    assert!(table.data_at(0).value.is_none());
}

#[test]
fn analyze_reports_float_division_by_zero() {
    let mut tree = parse_ok(&[
        (MAIN, ""), (LBRA, ""), (DOUBLE, ""), (ID, "x"), (SCOL, ""), (ID, "x"), (ASSIGN, ""), (INT, "1"), (DIV, ""),
        (FLOAT, "0.0"), (SCOL, ""), (RBRA, ""),
    ]);
    let (errors, _) = analyze(&mut tree, &float_ops).unwrap();
    assert_eq!(errors.len(), 1);
    assert_eq!(errors[0].message, "División entre cero");
}

#[test]
fn analyze_reports_non_boolean_condition() {
    let mut tree = parse_ok(&[
        (MAIN, ""), (LBRA, ""), (INTEGER, ""), (ID, "x"), (SCOL, ""), (IF, ""), (ID, "x"), (LBRA, ""), (RBRA, ""),
        (RBRA, ""),
    ]);
    let (errors, _) = analyze(&mut tree, &float_ops).unwrap();
    assert_eq!(errors.len(), 1);
    assert_eq!(errors[0].message, "Condicion de IF no es booleana");
}

#[test]
fn analyze_folds_float_constants_with_the_float_operations() {
    let mut tree = parse_ok(&[
        (MAIN, ""), (LBRA, ""), (DOUBLE, ""), (ID, "d"), (SCOL, ""), (ID, "d"), (ASSIGN, ""), (FLOAT, "1.5"), (SUM, ""),
        (INT, "2"), (SCOL, ""), (RBRA, ""),
    ]);
    let (errors, table) = analyze(&mut tree, &float_ops).unwrap();
    assert!(errors.is_empty());
    match &table.data_at(0).value {
        Some(NodeValue::Float(s)) => assert_eq!(s, "3.5"),
        other => panic!("expected a float, got {:?}", other),
    }
}

#[test]
fn analyze_stops_on_integer_overflow() {
    let mut tree = parse_ok(&decl_x_assign(&[(INT, "2147483647"), (SUM, ""), (INT, "1")]));
    assert!(analyze(&mut tree, &float_ops).is_none());
}

#[test]
fn codegen_of_folded_program() {
    let mut tree = parse_ok(&[
        (MAIN, ""), (LBRA, ""), (INTEGER, ""), (ID, "x"), (SCOL, ""), (ID, "x"), (ASSIGN, ""), (INT, "2"), (TIMES, ""),
        (INT, "3"), (SCOL, ""), (STDOUT, ""), (ID, "x"), (SCOL, ""), (RBRA, ""),
    ]);
    let (errors, _) = analyze(&mut tree, &float_ops).unwrap();
    assert!(errors.is_empty());
    let code = CodeGen::new().try_generate(&tree).unwrap();
    assert_eq!(code, "LOAD_CONST 1\nSTORE_VAR x\nLOAD_CONST 6\n\nSTORE_VAR x\nLOAD_VAR x\n\nPRINT\n");
}

#[test]
fn codegen_of_comparison_uses_two_labels() {
    let tree = parse_ok(&decl_x_assign(&[(INT, "1"), (LT, ""), (INT, "2")]));
    let code = CodeGen::new().try_generate(&tree).unwrap();
    assert_eq!(
        code,
        "LOAD_CONST 1\nSTORE_VAR x\nLOAD_CONST 1\n\nLOAD_CONST 2\n\nSUB\nJMPLT label1\nLOAD_CONST 0\nJMP label2\nlabel1:\nLOAD_CONST 1\nlabel2:\n\nSTORE_VAR x\n"
    );
}

#[test]
fn codegen_of_while_loop() {
    let mut tree = parse_ok(&[
        (MAIN, ""), (LBRA, ""), (INTEGER, ""), (ID, "i"), (SCOL, ""), (ID, "i"), (ASSIGN, ""), (INT, "0"), (SCOL, ""),
        (WHILE, ""), (ID, "i"), (LT, ""), (INT, "3"), (LBRA, ""), (ID, "i"), (ASSIGN, ""), (ID, "i"), (SUM, ""),
        (INT, "1"), (SCOL, ""), (RBRA, ""), (RBRA, ""),
    ]);
    let (errors, _) = analyze(&mut tree, &float_ops).unwrap();
    assert!(errors.is_empty());
    let code = CodeGen::new().generate(&tree);
    assert_eq!(
        code,
        "LOAD_CONST 1\nSTORE_VAR i\nLOAD_CONST 0\n\nSTORE_VAR i\nlabel1:\nLOAD_CONST 1\n\nJMPEQ label2\nLOAD_CONST 1\n\nSTORE_VAR i\n\nJMP label1\nlabel2:\n"
    );
}

#[test]
fn bad_statement_is_reported_and_skipped() {
    let (toks, floats) = tokens(&[(MAIN, ""), (LBRA, ""), (SCOL, ""), (ID, "x"), (ASSIGN, ""), (INT, "1"), (SCOL, ""), (RBRA, "")]);
    let (tree, errors) = try_parse(toks, floats).unwrap();
    assert_eq!(errors.len(), 1);
    assert_eq!(
        errors[0].message,
        "Mala sentencia, se esperaba uno de los siguientes tokens: IF, WHILE, DO, STDIN, STDOUT, ID"
    );
    assert_eq!(errors[0].current_token.as_ref().unwrap().token_type, SCOL);
    let tree = tree.unwrap();
    assert!(matches!(tree.node, Node::Stmt { kind: StmtKind::Assign { .. }, .. }));
    assert!(tree.sibling.is_none());
}

#[test]
fn labels_follow_each_other_across_loops() {
    let mut tree = parse_ok(&[
        (MAIN, ""), (LBRA, ""), (INTEGER, ""), (ID, "i"), (SCOL, ""), (STDIN, ""), (ID, "i"), (SCOL, ""),
        (WHILE, ""), (ID, "i"), (LT, ""), (INT, "3"), (LBRA, ""), (STDIN, ""), (ID, "i"), (SCOL, ""), (RBRA, ""),
        (WHILE, ""), (ID, "i"), (GT, ""), (INT, "0"), (LBRA, ""), (STDIN, ""), (ID, "i"), (SCOL, ""), (RBRA, ""),
        (RBRA, ""),
    ]);
    let (errors, _) = analyze(&mut tree, &float_ops).unwrap();
    assert!(errors.is_empty());
    let code = CodeGen::new().try_generate(&tree).unwrap();
    assert_eq!(
        code,
        "LOAD_CONST 1\nSTORE_VAR i\nREAD\nSTORE_VAR i\nlabel1:\nLOAD_VAR i\n\nLOAD_CONST 3\n\nSUB\nJMPLT label3\nLOAD_CONST 0\nJMP label4\nlabel3:\nLOAD_CONST 1\nlabel4:\n\nJMPEQ label2\nREAD\nSTORE_VAR i\n\nJMP label1\nlabel2:\nlabel5:\nLOAD_VAR i\n\nLOAD_CONST 0\n\nSUB\nJMPGT label7\nLOAD_CONST 0\nJMP label8\nlabel7:\nLOAD_CONST 1\nlabel8:\n\nJMPEQ label6\nREAD\nSTORE_VAR i\n\nJMP label5\nlabel6:\n"
    );
}

#[test]
fn every_operator_of_a_parsed_program_has_code() {
    let mut tree = parse_ok(&[
        (MAIN, ""), (LBRA, ""), (INTEGER, ""), (ID, "a"), (SCOL, ""), (STDIN, ""), (ID, "a"), (SCOL, ""),
        (STDOUT, ""), (ID, "a"), (SUM, ""), (ID, "a"), (TIMES, ""), (ID, "a"), (DIV, ""), (ID, "a"), (MODULUS, ""),
        (ID, "a"), (POWER, ""), (ID, "a"), (SCOL, ""),
        (IF, ""), (NEG, ""), (LPAR, ""), (ID, "a"), (EQ, ""), (ID, "a"), (RPAR, ""), (AND, ""), (ID, "a"), (NE, ""),
        (INT, "1"), (OR, ""), (ID, "a"), (GT, ""), (INT, "2"), (LBRA, ""), (RBRA, ""),
        (RBRA, ""),
    ]);
    assert!(CodeGen::new().try_generate(&tree).is_some());
    let _ = analyze(&mut tree, &float_ops).unwrap();
    assert!(CodeGen::new().try_generate(&tree).is_some());
}

#[test]
fn power_parses_as_an_operator() {
    let tree = parse_ok(&decl_x_assign(&[(INT, "2"), (POWER, ""), (INT, "3")]));
    match &tree.sibling.as_ref().unwrap().node {
        Node::Stmt { kind: StmtKind::Assign { value, .. }, .. } => match &value.node {
            Node::Exp { kind: ExpKind::Op { op, left, right }, .. } => {
                assert_eq!(*op, POWER);
                assert!(matches!(left.node, Node::Exp { kind: ExpKind::Const { value: 2 }, .. }));
                assert!(matches!(right.as_ref().unwrap().node, Node::Exp { kind: ExpKind::Const { value: 3 }, .. }));
            },
            other => panic!("{:?}", other),
        },
        other => panic!("{:?}", other),
    }
}

fn assigned_value(tree: &TreeNode) -> &TreeNode {
    match &tree.sibling.as_ref().unwrap().node {
        Node::Stmt { kind: StmtKind::Assign { value, .. }, .. } => value,
        other => panic!("{:?}", other),
    }
}

fn op_parts(t: &TreeNode) -> (TokenType, &TreeNode, Option<&TreeNode>) {
    match &t.node {
        Node::Exp { kind: ExpKind::Op { op, left, right }, .. } => (*op, left, right.as_deref()),
        other => panic!("{:?}", other),
    }
}

fn id_name(t: &TreeNode) -> &str {
    match &t.node {
        Node::Exp { kind: ExpKind::Id { name }, .. } => name,
        other => panic!("{:?}", other),
    }
}

#[test]
fn binary_operators_associate_to_the_left() {
    let tree = parse_ok(&decl_x_assign(&[(ID, "a"), (DIV, ""), (ID, "b"), (TIMES, ""), (ID, "c")]));
    let (op, left, right) = op_parts(assigned_value(&tree));
    assert_eq!(op, TIMES);
    assert_eq!(id_name(right.unwrap()), "c");
    let (op2, l2, r2) = op_parts(left);
    assert_eq!(op2, DIV);
    assert_eq!(id_name(l2), "a");
    assert_eq!(id_name(r2.unwrap()), "b");
}

#[test]
fn parentheses_and_precedence_follow_the_grammar() {
    // !(a + b) * c < d && e || f
    let tree = parse_ok(&decl_x_assign(&[
        (NEG, ""), (LPAR, ""), (ID, "a"), (SUM, ""), (ID, "b"), (RPAR, ""), (TIMES, ""), (ID, "c"),
        (LT, ""), (ID, "d"), (AND, ""), (ID, "e"), (OR, ""), (ID, "f"),
    ]));
    let (or, conj, f) = op_parts(assigned_value(&tree));
    assert_eq!(or, OR);
    assert_eq!(id_name(f.unwrap()), "f");
    let (and, neg, e) = op_parts(conj);
    assert_eq!(and, AND);
    assert_eq!(id_name(e.unwrap()), "e");
    let (not, rel, none) = op_parts(neg);
    assert_eq!(not, NEG);
    assert!(none.is_none());
    let (lt, prod, d) = op_parts(rel);
    assert_eq!(lt, LT);
    assert_eq!(id_name(d.unwrap()), "d");
    let (times, sum, c) = op_parts(prod);
    assert_eq!(times, TIMES);
    assert_eq!(id_name(c.unwrap()), "c");
    let (plus, a, b) = op_parts(sum);
    assert_eq!(plus, SUM);
    assert_eq!(id_name(a), "a");
    assert_eq!(id_name(b.unwrap()), "b");
}

fn chain(tree: &TreeNode) -> Vec<&Node> {
    let mut out = vec![&tree.node];
    let mut cur = tree;
    while let Some(s) = &cur.sibling {
        out.push(&s.node);
        cur = s;
    }
    out
}

#[test]
fn every_statement_form_of_the_grammar_parses_in_order() {
    // main { integer a, b; if a < b { cin a; } else { cout a; } while a { a++; }
    //        do { b--; } while b; double c; b = a; }
    let tree = parse_ok(&[
        (MAIN, ""), (LBRA, ""),
        (INTEGER, ""), (ID, "a"), (COMMA, ""), (ID, "b"), (SCOL, ""),
        (IF, ""), (ID, "a"), (LT, ""), (ID, "b"), (LBRA, ""), (STDIN, ""), (ID, "a"), (SCOL, ""), (RBRA, ""),
        (ELSE, ""), (LBRA, ""), (STDOUT, ""), (ID, "a"), (SCOL, ""), (RBRA, ""),
        (WHILE, ""), (ID, "a"), (LBRA, ""), (ID, "a"), (INC, ""), (SCOL, ""), (RBRA, ""),
        (DO, ""), (LBRA, ""), (ID, "b"), (DEC, ""), (SCOL, ""), (RBRA, ""), (WHILE, ""), (ID, "b"), (SCOL, ""),
        (DOUBLE, ""), (ID, "c"), (SCOL, ""),
        (ID, "b"), (ASSIGN, ""), (ID, "a"), (SCOL, ""),
        (RBRA, ""),
    ]);
    let items = chain(&tree);
    assert_eq!(items.len(), 7);
    assert!(matches!(items[0], Node::Decl { kind: DeclKind::Var { typ: ExpType::Integer, name }, .. } if name == "a"));
    assert!(matches!(items[1], Node::Decl { kind: DeclKind::Var { typ: ExpType::Integer, name }, .. } if name == "b"));
    match items[2] {
        Node::Stmt { kind: StmtKind::If { then_branch: Some(t), else_branch: Some(e), .. }, .. } => {
            assert!(matches!(&t.node, Node::Stmt { kind: StmtKind::In { name }, .. } if name == "a"));
            assert!(matches!(&e.node, Node::Stmt { kind: StmtKind::Out { .. }, .. }));
        },
        other => panic!("{:?}", other),
    }
    match items[3] {
        Node::Stmt { kind: StmtKind::While { body: Some(b), .. }, .. } => {
            assert!(matches!(&b.node, Node::Stmt { kind: StmtKind::Assign { name, .. }, .. } if name == "a"));
        },
        other => panic!("{:?}", other),
    }
    assert!(matches!(items[4], Node::Stmt { kind: StmtKind::Do { body: Some(_), .. }, .. }));
    assert!(matches!(items[5], Node::Decl { kind: DeclKind::Var { typ: ExpType::Float, name }, .. } if name == "c"));
    assert!(matches!(items[6], Node::Stmt { kind: StmtKind::Assign { name, .. }, .. } if name == "b"));
}

fn exp_type(t: &TreeNode) -> ExpType {
    match &t.node {
        Node::Exp { typ, .. } => *typ,
        other => panic!("{:?}", other),
    }
}

#[test]
fn analysis_types_each_expression_by_its_kind() {
    // x = (2.5 + 1) < 3 ; with x an integer: the sum is a float, the comparison a boolean
    let mut tree = parse_ok(&decl_x_assign(&[
        (LPAR, ""), (FLOAT, "2.5"), (SUM, ""), (INT, "1"), (RPAR, ""), (LT, ""), (INT, "3"),
    ]));
    analyze(&mut tree, &float_ops).expect("the analysis stopped");
    let value = assigned_value(&tree);
    assert_eq!(exp_type(value), ExpType::Boolean);
    let (lt, sum, three) = op_parts(value);
    assert_eq!(lt, LT);
    assert_eq!(exp_type(three.unwrap()), ExpType::Integer);
    assert_eq!(exp_type(sum), ExpType::Float);
    let (_, f, one) = op_parts(sum);
    assert_eq!(exp_type(f), ExpType::Float);
    assert_eq!(exp_type(one.unwrap()), ExpType::Integer);
}

fn node_id(n: &Node) -> String {
    match n {
        Node::Stmt { id, .. } | Node::Exp { id, .. } | Node::Decl { id, .. } => id.clone(),
    }
}

#[test]
fn analysis_keeps_every_node_id() {
    let mut tree = parse_ok(&decl_x_assign(&[(INT, "2"), (TIMES, ""), (ID, "x"), (SUM, ""), (INT, "1")]));
    let before: Vec<String> = tree.pre_order_traversal().into_iter().map(node_id).collect();
    analyze(&mut tree, &float_ops).expect("the analysis stopped");
    let after: Vec<String> = tree.pre_order_traversal().into_iter().map(node_id).collect();
    assert_eq!(before.len(), 7);
    assert_eq!(before, after);
}

#[test]
fn malformed_programs_ending_in_a_brace_never_stop_the_parser() {
    let cases: Vec<Vec<(TokenType, &str)>> = vec![
        vec![(RBRA, "")],
        vec![(ID, "x"), (RBRA, "")],
        vec![(MAIN, ""), (LBRA, ""), (ID, "x"), (ASSIGN, ""), (LPAR, ""), (RBRA, "")],
        vec![(MAIN, ""), (LBRA, ""), (IF, ""), (ID, "a"), (SUM, ""), (RBRA, "")],
        vec![(MAIN, ""), (LBRA, ""), (ID, "x"), (INC, ""), (RBRA, "")],
        vec![(MAIN, ""), (LBRA, ""), (DO, ""), (LBRA, ""), (RBRA, ""), (WHILE, ""), (RBRA, "")],
        vec![(MAIN, ""), (LBRA, ""), (INTEGER, ""), (RBRA, "")],
        vec![(SCOL, ""), (STDOUT, ""), (NEG, ""), (LPAR, ""), (INT, "1"), (POWER, ""), (RBRA, "")],
        vec![(MAIN, ""), (LBRA, ""), (ID, "x"), (ASSIGN, ""), (ID, "y"), (RBRA, ""), (RBRA, "")],
    ];
    for case in cases {
        let (toks, floats) = tokens(&case);
        let r = try_parse(toks, floats);
        assert!(r.is_some(), "the parser stopped on {:?}", case);
        let (_, errors) = r.unwrap();
        assert!(!errors.is_empty(), "no error reported on {:?}", case);
    }
}

fn never_called(_op: TokenType, _l: NodeValue, _r: NodeValue) -> NodeValue {
    panic!("no float operation is needed here")
}

#[test]
fn integer_programs_never_call_the_float_operations() {
    let mut tree = parse_ok(&[
        (MAIN, ""), (LBRA, ""), (INTEGER, ""), (ID, "x"), (SCOL, ""), (ID, "x"), (ASSIGN, ""), (INT, "7"), (DIV, ""),
        (INT, "2"), (SCOL, ""), (WHILE, ""), (ID, "x"), (LT, ""), (INT, "10"), (LBRA, ""), (ID, "x"), (ASSIGN, ""),
        (ID, "x"), (SUM, ""), (INT, "1"), (SCOL, ""), (RBRA, ""), (RBRA, ""),
    ]);
    let (errors, table) = analyze(&mut tree, &never_called).expect("the analysis stopped");
    assert!(errors.is_empty());
    assert!(matches!(table.data_at(0).value, Some(NodeValue::Int(_))));
}

#[test]
fn each_variable_keeps_the_value_of_its_last_assignment() {
    let mut tree = parse_ok(&[
        (MAIN, ""), (LBRA, ""), (INTEGER, ""), (ID, "x"), (COMMA, ""), (ID, "y"), (COMMA, ""), (ID, "z"), (SCOL, ""),
        (ID, "x"), (ASSIGN, ""), (INT, "1"), (SCOL, ""),
        (IF, ""), (ID, "x"), (GT, ""), (INT, "0"), (LBRA, ""), (ID, "x"), (ASSIGN, ""), (INT, "2"), (SCOL, ""), (RBRA, ""),
        (ELSE, ""), (LBRA, ""), (ID, "x"), (ASSIGN, ""), (INT, "3"), (SCOL, ""), (RBRA, ""),
        (WHILE, ""), (ID, "x"), (LT, ""), (INT, "0"), (LBRA, ""), (ID, "y"), (ASSIGN, ""), (INT, "5"), (SCOL, ""), (RBRA, ""),
        (ID, "x"), (ASSIGN, ""), (ID, "x"), (SUM, ""), (INT, "4"), (SCOL, ""),
        (RBRA, ""),
    ]);
    let (errors, table) = analyze(&mut tree, &float_ops).expect("the analysis stopped");
    assert!(errors.is_empty(), "unexpected errors: {:?}", errors);
    // The walk visits both branches of the `if` in order, so `x` holds 3
    // when `x + 4` is read, and the body of the `while` is walked once.
    assert!(matches!(table.get("x").unwrap().value, Some(NodeValue::Int(7))));
    assert!(matches!(table.get("y").unwrap().value, Some(NodeValue::Int(5))));
    assert!(table.get("z").unwrap().value.is_none());
}
