//! Values known before run time and the operations on them.

use vstd::prelude::*;
use crate::structures::{opt_value_view, NodeValue, ValueV};
use crate::text::{append_int, int_text};
use crate::token::TokenType;

verus! {

/// The text of a value as the generated code writes it: integers in
/// decimal, floats as they are held, `true` as `1` and `false` as `0`.
pub open spec fn value_text(v: ValueV) -> Seq<char> {
    match v {
        ValueV::Int(i) => int_text(i as int),
        ValueV::Float(s) => s,
        ValueV::Boolean(b) => if b { seq!['1'] } else { seq!['0'] },
    }
}

impl NodeValue {
    /// A copy of the value.
    pub fn copy(&self) -> (v: NodeValue)
        ensures
            v@ == self@,
    {
        match self {
            NodeValue::Int(i) => NodeValue::Int(*i),
            NodeValue::Float(f) => NodeValue::Float(f.clone()),
            NodeValue::Boolean(b) => NodeValue::Boolean(*b),
        }
    }

    /// The text of the value as the generated code writes it.
    pub fn to_string(&self) -> (s: String)
        ensures
            s@ == value_text(self@),
    {
        match self {
            NodeValue::Int(i) => {
                let mut s = String::new();
                append_int(&mut s, *i);
                s
            },
            NodeValue::Float(f) => f.clone(),
            NodeValue::Boolean(b) => {
                proof {
                    reveal_strlit("1");
                    reveal_strlit("0");
                }
                if *b {
                    String::from_str("1")
                } else {
                    String::from_str("0")
                }
            },
        }
    }
}


pub open spec fn abs(x: int) -> int {
    if x < 0 { -x } else { x }
}

/// Division rounding toward zero, as Rust's `/` on integers.
pub open spec fn trunc_div(a: int, b: int) -> int {
    if (a < 0) == (b < 0) { abs(a) / abs(b) } else { -(abs(a) / abs(b)) }
}

/// The remainder of `trunc_div`, as Rust's `%` on integers: it has the sign
/// of `a`.
pub open spec fn trunc_rem(a: int, b: int) -> int {
    if a < 0 { -(abs(a) % abs(b)) } else { abs(a) % abs(b) }
}

/// `a` to the power `e`.
pub open spec fn ipow(a: int, e: nat) -> int
    decreases e,
{
    if e == 0 { 1 } else { a * ipow(a, (e - 1) as nat) }
}

pub open spec fn fits_i32(x: int) -> bool {
    i32::MIN <= x && x <= i32::MAX
}

/// The exponent that `right as u32` gives.
pub open spec fn as_u32(x: i32) -> nat {
    if x >= 0 { x as nat } else { (x + 0x1_0000_0000) as nat }
}

/// An arithmetic operator on two `i32`, as Rust computes it with overflow
/// checks: `None` where it stops the program (overflow, or a remainder by
/// zero).
pub open spec fn int_arith(op: TokenType, a: i32, b: i32) -> Option<i32> {
    let r: int = if op == TokenType::SUM {
        a + b
    } else if op == TokenType::MIN {
        a - b
    } else if op == TokenType::TIMES {
        a * b
    } else if op == TokenType::DIV {
        if b == 0 { i32::MAX as int + 1 } else { trunc_div(a as int, b as int) }
    } else if op == TokenType::MODULUS {
        if b == 0 || (a == i32::MIN && b == -1) { i32::MAX as int + 1 } else { trunc_rem(a as int, b as int) }
    } else {
        ipow(a as int, as_u32(b))
    };
    if fits_i32(r) { Some(r as i32) } else { None }
}

proof fn lemma_ipow_grows(a: int, i: nat, j: nat)
    requires
        abs(a) >= 1,
        i <= j,
    ensures
        abs(ipow(a, j)) >= abs(ipow(a, i)),
    decreases j - i,
{
    if i < j {
        lemma_ipow_grows(a, i, (j - 1) as nat);
        let p = ipow(a, (j - 1) as nat);
        assert(abs(a * p) == abs(a) * abs(p)) by (nonlinear_arith);
        assert(abs(a) * abs(p) >= abs(p)) by (nonlinear_arith)
            requires abs(a) >= 1;
    }
}

proof fn lemma_ipow_unit(a: int, e: nat)
    requires
        a == 1 || a == -1 || a == 0,
    ensures
        ipow(a, e) == (if a == 0 { if e == 0 { 1int } else { 0int } } else if a == 1 || e % 2 == 0 { 1int } else { -1int }),
    decreases e,
{
    if e > 0 {
        lemma_ipow_unit(a, (e - 1) as nat);
    }
}

/// `a` to the power `e`, with the overflow check of `i32::pow`.
fn checked_ipow(a: i32, e: u32) -> (r: Option<i32>)
    ensures
        r == (if fits_i32(ipow(a as int, e as nat)) { Some(ipow(a as int, e as nat) as i32) } else { None }),
{
    if a == 0 || a == 1 || a == -1 {
        proof {
            lemma_ipow_unit(a as int, e as nat);
        }
        if a == 0 {
            return if e == 0 { Some(1) } else { Some(0) };
        } else if a == 1 || e % 2 == 0 {
            return Some(1);
        } else {
            return Some(-1);
        }
    }
    let mut acc: i64 = 1;
    let mut i: u32 = 0;
    while i < e
        invariant
            i <= e,
            acc == ipow(a as int, i as nat),
            fits_i32(acc as int),
            abs(a as int) >= 2,
        decreases e - i,
    {
        assert(ipow(a as int, (i + 1) as nat) == a * ipow(a as int, i as nat));
        let ghost ai: int = a as int;
        let ghost ac: int = acc as int;
        assert(-0x4000_0000_0000_0000 <= ac * ai <= 0x4000_0000_0000_0000) by (nonlinear_arith)
            requires
                -0x8000_0000 <= ac <= 0x8000_0000,
                -0x8000_0000 <= ai <= 0x8000_0000,
        ;
        let next = acc * (a as i64);
        assert(next == ai * ac) by (nonlinear_arith)
            requires next == ac * ai;
        assert(next == ipow(ai, (i + 1) as nat));
        if next < i32::MIN as i64 || next > i32::MAX as i64 {
            proof {
                let n1: nat = (i + 1) as nat;
                if e as nat > n1 {
                    let n2: nat = (i + 2) as nat;
                    assert(ipow(ai, n2) == ai * ipow(ai, n1));
                    assert(abs(ai * ipow(ai, n1)) >= 2 * abs(ipow(ai, n1))) by (nonlinear_arith)
                        requires abs(ai) >= 2;
                    lemma_ipow_grows(ai, n2, e as nat);
                }
            }
            return None;
        }
        acc = next;
        i = i + 1;
    }
    Some(acc as i32)
}

/// An arithmetic operator on two `i32` (see `int_arith`).
pub fn int_arith_exec(op: TokenType, a: i32, b: i32) -> (r: Option<i32>)
    requires
        op == TokenType::SUM || op == TokenType::MIN || op == TokenType::TIMES || op == TokenType::DIV
            || op == TokenType::MODULUS || op == TokenType::POWER,
    ensures
        r == int_arith(op, a, b),
{
    let x = a as i64;
    let y = b as i64;
    let r: i64 = if op == TokenType::SUM {
        x + y
    } else if op == TokenType::MIN {
        x - y
    } else if op == TokenType::TIMES {
        assert(-2147483648 * 2147483648 <= x * y <= 2147483648 * 2147483648) by (nonlinear_arith)
            requires -2147483648 <= x <= 2147483647, -2147483648 <= y <= 2147483647;
        x * y
    } else if op == TokenType::DIV || op == TokenType::MODULUS {
        if b == 0 || (op == TokenType::MODULUS && a == i32::MIN && b == -1) {
            i32::MAX as i64 + 1
        } else {
            let ua: u64 = if x < 0 { (0 - x) as u64 } else { x as u64 };
            let ub: u64 = if y < 0 { (0 - y) as u64 } else { y as u64 };
            if op == TokenType::DIV {
                let q = (ua / ub) as i64;
                if (x < 0) == (y < 0) { q } else { 0 - q }
            } else {
                let m = (ua % ub) as i64;
                if x < 0 { 0 - m } else { m }
            }
        }
    } else {
        let e: u32 = if b >= 0 { b as u32 } else { (y + 0x1_0000_0000) as u32 };
        match checked_ipow(a, e) {
            Some(v) => v as i64,
            None => {
                return None;
            },
        }
    };
    if r < i32::MIN as i64 || r > i32::MAX as i64 {
        None
    } else {
        Some(r as i32)
    }
}
/// A copy of an optional value.
pub fn copy_opt(v: &Option<NodeValue>) -> (r: Option<NodeValue>)
    ensures
        opt_value_view(r) == opt_value_view(*v),
{
    match v {
        Some(x) => Some(x.copy()),
        None => None,
    }
}

} // verus!
