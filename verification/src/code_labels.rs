//! The labels of the generated code: the code of a list defines each label
//! it creates exactly once, and jumps only to labels it defines.
//!
//! `label_defs` lists the labels whose definitions (`labelk:`) the code
//! holds, in the order they are created, and `label_jumps` the labels its
//! jumps (`JMP`, `JMPEQ`, `JMPNE`, `JMPLT`, ...) go to, in the order they
//! stand in it; both follow the numbering of `gen_node`.

use vstd::prelude::*;
use crate::codegen::{
    gen_node, gen_opt, gen_tree, if_labels, is_comparison, labels_node, labels_opt, labels_tree, lemma_labels_created,
    lemma_labels_created_node, lemma_labels_created_opt,
};
use crate::structures::{ExpV, NodeV, StmtV, TreeV};

verus! {

pub open spec fn label_defs(t: TreeV, c: nat) -> Seq<nat>
    decreases t,
{
    node_label_defs(t.node, c) + match t.sibling {
        Some(s) => label_defs(*s, gen_node(t.node, c).1),
        None => seq![],
    }
}

pub open spec fn opt_label_defs(o: Option<Box<TreeV>>, c: nat) -> Seq<nat>
    decreases o,
{
    match o {
        Some(b) => label_defs(*b, c),
        None => seq![],
    }
}

pub open spec fn node_label_defs(n: NodeV, c: nat) -> Seq<nat>
    decreases n,
{
    match n {
        NodeV::Stmt { kind, .. } => match kind {
            StmtV::If { condition, then_branch, else_branch } => {
                let c2 = gen_tree(*condition, c + if_labels(else_branch)).1;
                let c3 = gen_opt(then_branch, c2).1;
                if_label_seq(c, else_branch) + label_defs(*condition, c + if_labels(else_branch)) + opt_label_defs(
                    then_branch,
                    c2,
                ) + opt_label_defs(else_branch, c3)
            },
            StmtV::While { condition, body } => {
                let c2 = gen_tree(*condition, c + 2).1;
                seq![c + 1, c + 2] + label_defs(*condition, c + 2) + opt_label_defs(body, c2)
            },
            StmtV::Do { body, condition } => {
                let c2 = gen_opt(body, c + 1).1;
                seq![c + 1] + opt_label_defs(body, c + 1) + label_defs(*condition, c2)
            },
            StmtV::Assign { value, .. } => label_defs(*value, c),
            StmtV::In { .. } => seq![],
            StmtV::Out { expression } => label_defs(*expression, c),
        },
        NodeV::Exp { kind, val, .. } => match kind {
            ExpV::Op { op, left, right } => match val {
                Some(_) => seq![],
                None => {
                    let c2 = gen_tree(*left, c).1;
                    let c3 = gen_opt(right, c2).1;
                    label_defs(*left, c) + opt_label_defs(right, c2) + if is_comparison(op) {
                        seq![c3 + 1, c3 + 2]
                    } else {
                        seq![]
                    }
                },
            },
            _ => seq![],
        },
        NodeV::Decl { .. } => seq![],
    }
}

/// The labels an `if` creates itself: the one its test jumps to and, with
/// an `else`, the one after it.
pub open spec fn if_label_seq(c: nat, else_branch: Option<Box<TreeV>>) -> Seq<nat> {
    if else_branch is Some { seq![c + 1, c + 2] } else { seq![c + 1] }
}

pub open spec fn label_jumps(t: TreeV, c: nat) -> Seq<nat>
    decreases t,
{
    node_label_jumps(t.node, c) + match t.sibling {
        Some(s) => label_jumps(*s, gen_node(t.node, c).1),
        None => seq![],
    }
}

pub open spec fn opt_label_jumps(o: Option<Box<TreeV>>, c: nat) -> Seq<nat>
    decreases o,
{
    match o {
        Some(b) => label_jumps(*b, c),
        None => seq![],
    }
}

pub open spec fn node_label_jumps(n: NodeV, c: nat) -> Seq<nat>
    decreases n,
{
    match n {
        NodeV::Stmt { kind, .. } => match kind {
            StmtV::If { condition, then_branch, else_branch } => {
                let c2 = gen_tree(*condition, c + if_labels(else_branch)).1;
                let c3 = gen_opt(then_branch, c2).1;
                label_jumps(*condition, c + if_labels(else_branch)) + seq![c + 1] + opt_label_jumps(then_branch, c2)
                    + match else_branch {
                    Some(_) => seq![c + 2] + opt_label_jumps(else_branch, c3),
                    None => seq![],
                }
            },
            StmtV::While { condition, body } => {
                let c2 = gen_tree(*condition, c + 2).1;
                label_jumps(*condition, c + 2) + seq![c + 2] + opt_label_jumps(body, c2) + seq![c + 1]
            },
            StmtV::Do { body, condition } => {
                let c2 = gen_opt(body, c + 1).1;
                opt_label_jumps(body, c + 1) + label_jumps(*condition, c2) + seq![c + 1]
            },
            StmtV::Assign { value, .. } => label_jumps(*value, c),
            StmtV::In { .. } => seq![],
            StmtV::Out { expression } => label_jumps(*expression, c),
        },
        NodeV::Exp { kind, val, .. } => match kind {
            ExpV::Op { op, left, right } => match val {
                Some(_) => seq![],
                None => {
                    let c2 = gen_tree(*left, c).1;
                    let c3 = gen_opt(right, c2).1;
                    label_jumps(*left, c) + opt_label_jumps(right, c2) + if is_comparison(op) {
                        seq![c3 + 1, c3 + 2]
                    } else {
                        seq![]
                    }
                },
            },
            _ => seq![],
        },
        NodeV::Decl { .. } => seq![],
    }
}

/// Every member of `s` lies in `lo + 1 ..= hi`.
pub open spec fn in_range(s: Seq<nat>, lo: nat, hi: nat) -> bool {
    forall|i: int| 0 <= i < s.len() ==> lo < #[trigger] s[i] && s[i] <= hi
}

/// The labels a list's code defines are exactly those it creates, each once,
/// and its jumps go only to them: the definitions are `labels_tree(t)`
/// distinct labels, all of them after `c` and at most `c + labels_tree(t)`
/// (so each of `c + 1 ..= c + labels_tree(t)` once), and every jump goes to
/// one of those.
pub open spec fn labels_sound(defs: Seq<nat>, jumps: Seq<nat>, c: nat, n: nat) -> bool {
    &&& defs.len() == n
    &&& defs.no_duplicates()
    &&& in_range(defs, c, c + n)
    &&& in_range(jumps, c, c + n)
}

proof fn lemma_join(a: Seq<nat>, b: Seq<nat>, lo1: nat, hi1: nat, lo2: nat, hi2: nat, lo: nat, hi: nat)
    requires
        a.no_duplicates(),
        b.no_duplicates(),
        in_range(a, lo1, hi1),
        in_range(b, lo2, hi2),
        hi1 <= lo2 || hi2 <= lo1,
        lo <= lo1,
        hi1 <= hi,
        lo <= lo2,
        hi2 <= hi,
    ensures
        (a + b).no_duplicates(),
        in_range(a + b, lo, hi),
{
    assert forall|i: int, j: int| 0 <= i < (a + b).len() && 0 <= j < (a + b).len() && i != j implies (a + b)[i] != (a
        + b)[j] by {
        if i < a.len() && j >= a.len() {
            assert(a[i] == (a + b)[i] && b[j - a.len()] == (a + b)[j]);
        } else if j < a.len() && i >= a.len() {
            assert(a[j] == (a + b)[j] && b[i - a.len()] == (a + b)[i]);
        } else if i < a.len() {
            assert((a + b)[i] == a[i] && (a + b)[j] == a[j]);
        } else {
            assert((a + b)[i] == b[i - a.len()] && (a + b)[j] == b[j - a.len()]);
        }
    }
    assert forall|i: int| 0 <= i < (a + b).len() implies lo < #[trigger] (a + b)[i] && (a + b)[i] <= hi by {
        if i < a.len() {
            assert((a + b)[i] == a[i]);
        } else {
            assert((a + b)[i] == b[i - a.len()]);
        }
    }
}

proof fn lemma_join_range(a: Seq<nat>, b: Seq<nat>, lo1: nat, hi1: nat, lo2: nat, hi2: nat, lo: nat, hi: nat)
    requires
        in_range(a, lo1, hi1),
        in_range(b, lo2, hi2),
        lo <= lo1,
        hi1 <= hi,
        lo <= lo2,
        hi2 <= hi,
    ensures
        in_range(a + b, lo, hi),
{
    assert forall|i: int| 0 <= i < (a + b).len() implies lo < #[trigger] (a + b)[i] && (a + b)[i] <= hi by {
        if i < a.len() {
            assert((a + b)[i] == a[i]);
        } else {
            assert((a + b)[i] == b[i - a.len()]);
        }
    }
}

proof fn lemma_one(x: nat, lo: nat, hi: nat)
    requires
        lo < x <= hi,
    ensures
        seq![x].no_duplicates(),
        in_range(seq![x], lo, hi),
{
}

/// The code of a list defines each label it creates exactly once, and
/// jumps only to labels it defines.
pub proof fn lemma_labels_sound(t: TreeV, c: nat)
    ensures
        labels_sound(label_defs(t, c), label_jumps(t, c), c, labels_tree(t)),
    decreases t,
{
    lemma_node_labels_sound(t.node, c);
    lemma_labels_created_node(t.node, c);
    lemma_labels_created(t, c);
    let c1 = gen_node(t.node, c).1;
    match t.sibling {
        Some(s) => {
            lemma_labels_sound(*s, c1);
            lemma_join(node_label_defs(t.node, c), label_defs(*s, c1), c, c1, c1, c1 + labels_tree(*s), c, c + labels_tree(t));
            lemma_join_range(node_label_jumps(t.node, c), label_jumps(*s, c1), c, c1, c1, c1 + labels_tree(*s), c, c + labels_tree(t));
        },
        None => {
            assert(node_label_defs(t.node, c) + seq![] =~= node_label_defs(t.node, c));
            assert(node_label_jumps(t.node, c) + seq![] =~= node_label_jumps(t.node, c));
        },
    }
}

proof fn lemma_opt_labels_sound(o: Option<Box<TreeV>>, c: nat)
    ensures
        labels_sound(opt_label_defs(o, c), opt_label_jumps(o, c), c, labels_opt(o)),
    decreases o,
{
    match o {
        Some(b) => lemma_labels_sound(*b, c),
        None => {},
    }
}

proof fn lemma_node_labels_sound(n: NodeV, c: nat)
    ensures
        labels_sound(node_label_defs(n, c), node_label_jumps(n, c), c, labels_node(n)),
    decreases n,
{
    lemma_labels_created_node(n, c);
    let hi = c + labels_node(n);
    match n {
        NodeV::Stmt { kind, .. } => match kind {
            StmtV::If { condition, then_branch, else_branch } => {
                let c1 = c + if_labels(else_branch);
                lemma_labels_sound(*condition, c1);
                lemma_labels_created(*condition, c1);
                let c2 = gen_tree(*condition, c1).1;
                lemma_opt_labels_sound(then_branch, c2);
                lemma_labels_created_opt(then_branch, c2);
                let c3 = gen_opt(then_branch, c2).1;
                lemma_opt_labels_sound(else_branch, c3);
                lemma_labels_created_opt(else_branch, c3);
                let c4 = gen_opt(else_branch, c3).1;
                let fl = if_label_seq(c, else_branch);
                let dc = label_defs(*condition, c1);
                let dt = opt_label_defs(then_branch, c2);
                let de = opt_label_defs(else_branch, c3);
                assert(fl.no_duplicates() && in_range(fl, c, c1));
                lemma_join(fl, dc, c, c1, c1, c2, c, c2);
                lemma_join(fl + dc, dt, c, c2, c2, c3, c, c3);
                lemma_join(fl + dc + dt, de, c, c3, c3, c4, c, hi);
                let jc = label_jumps(*condition, c1);
                let jt = opt_label_jumps(then_branch, c2);
                let je = opt_label_jumps(else_branch, c3);
                lemma_join_range(jc, seq![c + 1], c1, c2, c, c + 1, c, hi);
                lemma_join_range(jc + seq![c + 1], jt, c, hi, c2, c3, c, hi);
                match else_branch {
                    Some(_) => {
                        lemma_join_range(seq![c + 2], je, c + 1, c + 2, c3, c4, c, hi);
                        lemma_join_range(jc + seq![c + 1] + jt, seq![c + 2] + je, c, hi, c, hi, c, hi);
                    },
                    None => {
                        assert(jc + seq![c + 1] + jt + seq![] =~= jc + seq![c + 1] + jt);
                    },
                }
            },
            StmtV::While { condition, body } => {
                lemma_labels_sound(*condition, c + 2);
                lemma_labels_created(*condition, c + 2);
                let c2 = gen_tree(*condition, c + 2).1;
                lemma_opt_labels_sound(body, c2);
                lemma_labels_created_opt(body, c2);
                let c3 = gen_opt(body, c2).1;
                let dc = label_defs(*condition, c + 2);
                let db = opt_label_defs(body, c2);
                assert(seq![c + 1, c + 2].no_duplicates() && in_range(seq![c + 1, c + 2], c, c + 2));
                lemma_join(seq![c + 1, c + 2], dc, c, c + 2, c + 2, c2, c, c2);
                lemma_join(seq![c + 1, c + 2] + dc, db, c, c2, c2, c3, c, hi);
                let jc = label_jumps(*condition, c + 2);
                let jb = opt_label_jumps(body, c2);
                lemma_join_range(jc, seq![c + 2], c + 2, c2, c + 1, c + 2, c, hi);
                lemma_join_range(jc + seq![c + 2], jb, c, hi, c2, c3, c, hi);
                lemma_join_range(jc + seq![c + 2] + jb, seq![c + 1], c, hi, c, c + 1, c, hi);
            },
            StmtV::Do { body, condition } => {
                lemma_opt_labels_sound(body, c + 1);
                lemma_labels_created_opt(body, c + 1);
                let c2 = gen_opt(body, c + 1).1;
                lemma_labels_sound(*condition, c2);
                lemma_labels_created(*condition, c2);
                let c3 = gen_tree(*condition, c2).1;
                let db = opt_label_defs(body, c + 1);
                let dc = label_defs(*condition, c2);
                assert(seq![c + 1].no_duplicates() && in_range(seq![c + 1], c, c + 1));
                lemma_join(seq![c + 1], db, c, c + 1, c + 1, c2, c, c2);
                lemma_join(seq![c + 1] + db, dc, c, c2, c2, c3, c, hi);
                let jb = opt_label_jumps(body, c + 1);
                let jc = label_jumps(*condition, c2);
                lemma_join_range(jb, jc, c + 1, c2, c2, c3, c, hi);
                lemma_join_range(jb + jc, seq![c + 1], c, hi, c, c + 1, c, hi);
            },
            StmtV::Assign { value, .. } => lemma_labels_sound(*value, c),
            StmtV::In { .. } => {},
            StmtV::Out { expression } => lemma_labels_sound(*expression, c),
        },
        NodeV::Exp { kind, val, .. } => match kind {
            ExpV::Op { op, left, right } => {
                if val is None {
                    lemma_labels_sound(*left, c);
                    lemma_labels_created(*left, c);
                    let c2 = gen_tree(*left, c).1;
                    lemma_opt_labels_sound(right, c2);
                    lemma_labels_created_opt(right, c2);
                    let c3 = gen_opt(right, c2).1;
                    let dl = label_defs(*left, c);
                    let dr = opt_label_defs(right, c2);
                    let jl = label_jumps(*left, c);
                    let jr = opt_label_jumps(right, c2);
                    lemma_join(dl, dr, c, c2, c2, c3, c, c3);
                    lemma_join_range(jl, jr, c, c2, c2, c3, c, c3);
                    if is_comparison(op) {
                        let two = seq![c3 + 1, c3 + 2];
                        assert(two.no_duplicates() && in_range(two, c3, c3 + 2));
                        lemma_join(dl + dr, two, c, c3, c3, c3 + 2, c, hi);
                        lemma_join_range(jl + jr, two, c, c3, c3, c3 + 2, c, hi);
                    } else {
                        assert(dl + dr + seq![] =~= dl + dr);
                        assert(jl + jr + seq![] =~= jl + jr);
                    }
                }
            },
            _ => {},
        },
        NodeV::Decl { .. } => {},
    }
}

} // verus!
