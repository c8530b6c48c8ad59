//! What the operators mean, both where their value is known before run time
//! (the analyzer folds them) and where it is not (the generator emits code
//! that computes them on the stack machine).

use vstd::prelude::*;
use crate::analyze_model::{binop_step, msg_div_zero, sym_err, values_order, EvStep, FloatOps};
use crate::codegen::{arith_text, gen_node, gen_tree, is_comparison, jump_text, label_text};
use crate::structures::{ExpType, ExpV, NodeV, SymbolErrorV, TreeV, ValueV};
use crate::token::{Cursor, TokenType};

verus! {

/// What the comparison operator `op` says of the integers `a` and `b`.
pub open spec fn int_compare(op: TokenType, a: int, b: int) -> bool {
    match op {
        TokenType::LT => a < b,
        TokenType::LE => a <= b,
        TokenType::GT => a > b,
        TokenType::GE => a >= b,
        TokenType::EQ => a == b,
        TokenType::NE => a != b,
        _ => false,
    }
}

/// Whether the stack machine takes the conditional jump `instr` when the
/// difference it pops from the stack is `d`.
pub open spec fn jump_taken(instr: Seq<char>, d: int) -> bool {
    if instr == "JMPLT"@ {
        d < 0
    } else if instr == "JMPLE"@ {
        d <= 0
    } else if instr == "JMPGT"@ {
        d > 0
    } else if instr == "JMPGE"@ {
        d >= 0
    } else if instr == "JMPNE"@ {
        d != 0
    } else if instr == "JMPEQ"@ {
        d == 0
    } else {
        false
    }
}

/// The jump a comparison is compiled to is taken on the difference `a - b`
/// of its operands exactly when the comparison holds of `a` and `b`.
pub proof fn lemma_jump_meaning(op: TokenType, a: int, b: int)
    requires
        is_comparison(op),
    ensures
        jump_taken(jump_text(op), a - b) == int_compare(op, a, b),
{
    reveal_strlit("JMPLT");
    reveal_strlit("JMPLE");
    reveal_strlit("JMPGT");
    reveal_strlit("JMPGE");
    reveal_strlit("JMPNE");
    reveal_strlit("JMPEQ");
    let lt = "JMPLT"@;
    let le = "JMPLE"@;
    let gt = "JMPGT"@;
    let ge = "JMPGE"@;
    let ne = "JMPNE"@;
    assert(le != lt) by { assert(le[4] != lt[4]); }
    assert(gt != lt && gt != le) by { assert(gt[3] != lt[3] && gt[3] != le[3]); }
    assert(ge != lt && ge != le && ge != gt) by { assert(ge[3] != lt[3] && ge[3] != le[3] && ge[4] != gt[4]); }
    assert(ne != lt && ne != le && ne != gt && ne != ge) by { assert(ne[3] != lt[3] && ne[3] != le[3] && ne[3] != gt[3] && ne[3] != ge[3]); }
    let eq = "JMPEQ"@;
    assert(eq != lt && eq != le && eq != gt && eq != ge && eq != ne) by {
        assert(eq[3] != lt[3] && eq[3] != le[3] && eq[3] != gt[3] && eq[3] != ge[3] && eq[3] != ne[3]);
    }
}

/// The code of a comparison whose value is not known before run time
/// pushes both operands, subtracts them, and then pushes 1 where the jump
/// on the difference is taken, which is exactly where the comparison holds,
/// and 0 otherwise.
pub proof fn lemma_comparison_code(
    op: TokenType,
    left: Box<TreeV>,
    right: Box<TreeV>,
    typ: ExpType,
    cursor: Option<Cursor>,
    c: nat,
)
    requires
        is_comparison(op),
    ensures
        ({
            let n = NodeV::Exp { kind: ExpV::Op { op, left, right: Some(right) }, typ, cursor, val: None };
            let (lc, c2) = gen_tree(*left, c);
            let (rc, c3) = gen_tree(*right, c2);
            let t = label_text(c3 + 1);
            let e = label_text(c3 + 2);
            &&& gen_node(n, c).0 == lc + "\n"@ + rc + "\nSUB\n"@ + jump_text(op) + " "@ + t + "\nLOAD_CONST 0\nJMP "@ + e
                + "\n"@ + t + ":\nLOAD_CONST 1\n"@ + e + ":"@
            &&& forall|a: int, b: int| #[trigger] int_compare(op, a, b) == jump_taken(jump_text(op), a - b)
        }),
{
    let j = jump_text(op);
    let n = NodeV::Exp { kind: ExpV::Op { op, left, right: Some(right) }, typ, cursor, val: None };
    let (lc, c2) = gen_tree(*left, c);
    let (rc, c3) = gen_tree(*right, c2);
    let t = label_text(c3 + 1);
    let e = label_text(c3 + 2);
    assert(gen_node(n, c).0 =~= lc + "\n"@ + rc + "\nSUB\n"@ + j + " "@ + t + "\nLOAD_CONST 0\nJMP "@ + e + "\n"@ + t
        + ":\nLOAD_CONST 1\n"@ + e + ":"@);
    assert forall|a: int, b: int| #[trigger] int_compare(op, a, b) == jump_taken(j, a - b) by {
        lemma_jump_meaning(op, a, b);
    }
}

/// Folding a comparison of two integers gives the boolean that the
/// comparison says of them, and records no error.
pub proof fn lemma_fold_comparison(
    op: TokenType,
    a: i32,
    b: i32,
    cursor: Option<Cursor>,
    errs: Seq<SymbolErrorV>,
    fl: FloatOps,
)
    requires
        is_comparison(op),
    ensures
        binop_step(op, ValueV::Int(a), ValueV::Int(b), cursor, errs, fl) == EvStep::Becomes(
            Some(ValueV::Boolean(int_compare(op, a as int, b as int))),
            errs,
        ),
{
}

/// The order of two integer values is the order of the integers.
pub proof fn lemma_values_order_ints(op: TokenType, a: i32, b: i32, fl: FloatOps)
    requires
        op == TokenType::LT || op == TokenType::LE || op == TokenType::GT || op == TokenType::GE,
    ensures
        values_order(op, ValueV::Int(a), ValueV::Int(b), fl) == int_compare(op, a as int, b as int),
{
}

/// A comparison folded before run time gives the value that its code
/// would leave on the stack machine: true exactly where the jump of its
/// code is taken on the difference of the operands.
pub proof fn lemma_fold_agrees_with_code(
    op: TokenType,
    a: i32,
    b: i32,
    cursor: Option<Cursor>,
    errs: Seq<SymbolErrorV>,
    fl: FloatOps,
)
    requires
        is_comparison(op),
    ensures
        binop_step(op, ValueV::Int(a), ValueV::Int(b), cursor, errs, fl) == EvStep::Becomes(
            Some(ValueV::Boolean(jump_taken(jump_text(op), a - b))),
            errs,
        ),
{
    lemma_fold_comparison(op, a, b, cursor, errs, fl);
    lemma_jump_meaning(op, a as int, b as int);
}

/// Folding `+`, `-` and `*` on two integers gives their sum, difference and
/// product where it fits in an `i32`, and stops the program where it does
/// not.
pub proof fn lemma_fold_int_arith(
    op: TokenType,
    a: i32,
    b: i32,
    cursor: Option<Cursor>,
    errs: Seq<SymbolErrorV>,
    fl: FloatOps,
)
    requires
        op == TokenType::SUM || op == TokenType::MIN || op == TokenType::TIMES,
    ensures
        ({
            let r: int = if op == TokenType::SUM {
                a + b
            } else if op == TokenType::MIN {
                a - b
            } else {
                a * b
            };
            binop_step(op, ValueV::Int(a), ValueV::Int(b), cursor, errs, fl) == if i32::MIN <= r <= i32::MAX {
                EvStep::Becomes(Some(ValueV::Int(r as i32)), errs)
            } else {
                EvStep::Crash
            }
        }),
{
}

/// A division by the integer zero is not folded: the node keeps its value
/// and the error "División entre cero" is recorded at the operator.
pub proof fn lemma_fold_div_by_zero(l: ValueV, c: Cursor, errs: Seq<SymbolErrorV>, fl: FloatOps)
    ensures
        binop_step(TokenType::DIV, l, ValueV::Int(0), Some(c), errs, fl) == EvStep::Keep(
            errs.push(sym_err(msg_div_zero(), c)),
        ),
{
}

/// Folding `&&` and `||` on two booleans gives their conjunction and
/// disjunction.
pub proof fn lemma_fold_logic(
    a: bool,
    b: bool,
    cursor: Option<Cursor>,
    errs: Seq<SymbolErrorV>,
    fl: FloatOps,
)
    ensures
        binop_step(TokenType::AND, ValueV::Boolean(a), ValueV::Boolean(b), cursor, errs, fl) == EvStep::Becomes(
            Some(ValueV::Boolean(a && b)),
            errs,
        ),
        binop_step(TokenType::OR, ValueV::Boolean(a), ValueV::Boolean(b), cursor, errs, fl) == EvStep::Becomes(
            Some(ValueV::Boolean(a || b)),
            errs,
        ),
{
}

/// What the stack machine's instruction `instr` computes from the two
/// values it pops, `a` having been pushed first, for the instructions that
/// add, subtract and multiply.
pub open spec fn machine_arith(instr: Seq<char>, a: int, b: int) -> Option<int> {
    if instr == "ADD"@ {
        Some(a + b)
    } else if instr == "SUB"@ {
        Some(a - b)
    } else if instr == "MUL"@ {
        Some(a * b)
    } else {
        None
    }
}

/// `+`, `-` and `*` are compiled to a line whose instruction computes the
/// sum, difference and product of the operands.
pub proof fn lemma_arith_instruction(op: TokenType, a: int, b: int)
    requires
        op == TokenType::SUM || op == TokenType::MIN || op == TokenType::TIMES,
    ensures
        arith_text(op).len() > 1,
        arith_text(op)[0] == '\n',
        machine_arith(arith_text(op).drop_first(), a, b) == Some(
            if op == TokenType::SUM {
                a + b
            } else if op == TokenType::MIN {
                a - b
            } else {
                a * b
            },
        ),
{
    reveal_strlit("\nADD");
    reveal_strlit("\nSUB");
    reveal_strlit("\nMUL");
    reveal_strlit("ADD");
    reveal_strlit("SUB");
    reveal_strlit("MUL");
    assert("\nADD"@.drop_first() =~= "ADD"@);
    assert("\nSUB"@.drop_first() =~= "SUB"@);
    assert("\nMUL"@.drop_first() =~= "MUL"@);
    assert("SUB"@ != "ADD"@) by { assert("SUB"@[0] != "ADD"@[0]); }
    assert("MUL"@ != "ADD"@ && "MUL"@ != "SUB"@) by { assert("MUL"@[0] != "ADD"@[0] && "MUL"@[0] != "SUB"@[0]); }
}

} // verus!
