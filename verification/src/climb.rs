//! Operator precedence: which operator of a chain of operands and infix
//! operators is applied last, and the tree that follows from that.

use crate::expr::{views, Builtin, Expr, ExprView, OpRef};
use vstd::prelude::*;

verus! {

/// How tightly an infix operator binds, from 1 for the loosest. 0 for an
/// operator that is not infix.
pub open spec fn level(op: Builtin) -> nat {
    match op {
        Builtin::Or => 1,
        Builtin::And => 2,
        Builtin::Gt | Builtin::Lt | Builtin::Ge | Builtin::Le => 3,
        Builtin::Mod => 4,
        Builtin::Eq | Builtin::Neq => 5,
        Builtin::Add | Builtin::Sub | Builtin::Concat => 6,
        Builtin::Mul | Builtin::Div => 7,
        Builtin::Pow => 8,
        Builtin::Minus | Builtin::Negate | Builtin::List => 0,
    }
}

/// Whether the operators of a level group from the right. Only the power
/// operator does.
pub open spec fn groups_right(level: nat) -> bool {
    level == 8
}

/// Whether the operator at `e`, standing left of the one at `k`, is
/// applied before it: it binds tighter, or as tightly on a level that groups
/// from the left.
pub open spec fn yields_left(ops: Seq<Builtin>, e: int, k: int) -> bool {
    level(ops[e]) > level(ops[k]) || (level(ops[e]) == level(ops[k]) && !groups_right(
        level(ops[k]),
    ))
}

/// Whether the operator at `e`, standing right of the one at `k`, is
/// applied before it: it binds tighter, or as tightly on a level that groups
/// from the right.
pub open spec fn yields_right(ops: Seq<Builtin>, k: int, e: int) -> bool {
    level(ops[e]) > level(ops[k]) || (level(ops[e]) == level(ops[k]) && groups_right(
        level(ops[k]),
    ))
}

/// Whether the operator at `k` is the one applied last among those from
/// `lo` up to, not including, `hi`: every other one is applied before it.
pub open spec fn applied_last(ops: Seq<Builtin>, lo: int, hi: int, k: int) -> bool {
    &&& lo <= k < hi
    &&& forall|e: int| lo <= e < k ==> #[trigger] yields_left(ops, e, k)
    &&& forall|e: int| k < e < hi ==> #[trigger] yields_right(ops, k, e)
}

/// The index of the operator that is applied last among those from `lo` up
/// to, not including, `hi`. [`lemma_root_applied_last`] and
/// [`lemma_applied_last_is_root`] show that it is the one operator that
/// [`applied_last`] describes.
pub open spec fn root(ops: Seq<Builtin>, lo: int, hi: int) -> int
    decreases hi - lo,
{
    if hi - lo <= 1 {
        lo
    } else {
        let before = root(ops, lo, hi - 1);
        if yields_left(ops, before, hi - 1) {
            hi - 1
        } else {
            before
        }
    }
}

/// The application of an infix operator to two operands. It covers the
/// source from the start of the left operand to the end of the right one.
pub open spec fn infix_view(left: ExprView, op: Builtin, right: ExprView) -> ExprView {
    ExprView::Apply {
        op: OpRef::Builtin(op),
        args: seq![left, right],
        span: left.span().cover(right.span()),
    }
}

/// The tree of the operands `lo` to `hi` with the operators between them:
/// the operator applied last is at its top, with the tree of what stands
/// left of it and the tree of what stands right of it as its operands.
pub open spec fn tree(leaves: Seq<ExprView>, ops: Seq<Builtin>, lo: int, hi: int) -> ExprView
    decreases hi - lo,
{
    if hi <= lo {
        leaves[lo]
    } else {
        let k = root(ops, lo, hi);
        if lo <= k < hi {
            infix_view(tree(leaves, ops, lo, k), ops[k], tree(leaves, ops, k + 1, hi))
        } else {
            leaves[lo]
        }
    }
}

/// The tree of a whole chain.
pub open spec fn tree_of(leaves: Seq<ExprView>, ops: Seq<Builtin>) -> ExprView {
    tree(leaves, ops, 0, ops.len() as int)
}

/// The root of a range that is not empty lies in it, and every other
/// operator of the range is applied before it.
pub proof fn lemma_root_applied_last(ops: Seq<Builtin>, lo: int, hi: int)
    requires
        lo < hi,
    ensures
        applied_last(ops, lo, hi, root(ops, lo, hi)),
    decreases hi - lo,
{
    if hi - lo > 1 {
        lemma_root_applied_last(ops, lo, hi - 1);
        let before = root(ops, lo, hi - 1);
        if yields_left(ops, before, hi - 1) {
            assert forall|e: int| lo <= e < hi - 1 implies #[trigger] yields_left(
                ops,
                e,
                hi - 1,
            ) by {
                if e < before {
                    assert(yields_left(ops, e, before));
                } else if e > before {
                    assert(yields_right(ops, before, e));
                }
            }
        } else {
            assert forall|e: int| before < e < hi implies #[trigger] yields_right(
                ops,
                before,
                e,
            ) by {
                if e < hi - 1 {
                    assert(yields_right(ops, before, e));
                }
            }
        }
    }
}

/// An operator before which every other one of a range is applied is the
/// root of the range.
pub proof fn lemma_applied_last_is_root(ops: Seq<Builtin>, lo: int, hi: int, k: int)
    requires
        applied_last(ops, lo, hi, k),
    ensures
        root(ops, lo, hi) == k,
    decreases hi - lo,
{
    if hi - lo > 1 {
        if k == hi - 1 {
            lemma_root_applied_last(ops, lo, hi - 1);
            let before = root(ops, lo, hi - 1);
            assert(yields_left(ops, before, k));
        } else {
            assert forall|e: int| k < e < hi - 1 implies #[trigger] yields_right(ops, k, e) by {
                assert(yields_right(ops, k, e));
            }
            lemma_applied_last_is_root(ops, lo, hi - 1, k);
            assert(yields_right(ops, k, hi - 1));
        }
    }
}

impl Builtin {
    /// Computes [`level`].
    pub fn precedence(self) -> (r: u8)
        ensures
            r == level(self),
    {
        match self {
            Builtin::Or => 1,
            Builtin::And => 2,
            Builtin::Gt | Builtin::Lt | Builtin::Ge | Builtin::Le => 3,
            Builtin::Mod => 4,
            Builtin::Eq | Builtin::Neq => 5,
            Builtin::Add | Builtin::Sub | Builtin::Concat => 6,
            Builtin::Mul | Builtin::Div => 7,
            Builtin::Pow => 8,
            Builtin::Minus | Builtin::Negate | Builtin::List => 0,
        }
    }
}

/// Whether `op`, standing right of an operator of level `p`, is applied
/// before that operator.
fn binds_tighter(op: Builtin, p: u8) -> (r: bool)
    ensures
        r == (level(op) > p || (level(op) == p && groups_right(p as nat))),
{
    let q: u8 = op.precedence();
    q > p || (q == p && p == 8)
}

/// Applies an infix operator to two operands.
pub fn infix(left: Expr, op: Builtin, right: Expr) -> (r: Expr)
    ensures
        r@ == infix_view(left@, op, right@),
{
    let span = left.span().covering(right.span());
    let mut args: Vec<Expr> = Vec::new();
    args.push(left);
    args.push(right);
    assert(views(args@) =~= seq![left@, right@]);
    Expr::apply(OpRef::Builtin(op), args, span)
}

/// Whether `rest` holds the operands after the one at `pos`, the last of
/// them first.
pub open spec fn holds_rest(rest: Seq<Expr>, leaves: Seq<ExprView>, pos: int) -> bool {
    &&& rest.len() == leaves.len() - 1 - pos
    &&& forall|i: int| 0 <= i < rest.len() ==> (#[trigger] rest[i])@ == leaves[leaves.len() - 1 - i]
}

/// Extends the tree `lhs`, which holds the operands `start` to `pos`, by
/// the operators from `pos` on, up to the first that binds less tightly than
/// `min_level`.
fn climb_from(
    lhs: Expr,
    min_level: u8,
    pos: usize,
    rest: &mut Vec<Expr>,
    ops: &Vec<Builtin>,
    Ghost(leaves): Ghost<Seq<ExprView>>,
    Ghost(start): Ghost<int>,
) -> (r: (Expr, usize))
    requires
        leaves.len() == ops@.len() + 1,
        0 <= start <= pos <= ops@.len(),
        holds_rest(old(rest)@, leaves, pos as int),
        lhs@ == tree(leaves, ops@, start, pos as int),
        pos < ops@.len() && level(ops@[pos as int]) >= min_level ==> forall|e: int|
            start <= e < pos ==> #[trigger] yields_left(ops@, e, pos as int),
    ensures
        pos <= r.1 <= ops@.len(),
        r.0@ == tree(leaves, ops@, start, r.1 as int),
        holds_rest(final(rest)@, leaves, r.1 as int),
        forall|e: int| pos <= e < r.1 ==> level(#[trigger] ops@[e]) >= min_level,
        r.1 < ops@.len() ==> level(ops@[r.1 as int]) < min_level,
    decreases ops@.len() - pos,
{
    let mut lhs = lhs;
    let mut at: usize = pos;
    while at < ops.len() && ops[at].precedence() >= min_level
        invariant
            leaves.len() == ops@.len() + 1,
            0 <= start <= pos <= at <= ops@.len(),
            holds_rest(rest@, leaves, at as int),
            lhs@ == tree(leaves, ops@, start, at as int),
            at < ops@.len() && level(ops@[at as int]) >= min_level ==> forall|e: int|
                start <= e < at ==> #[trigger] yields_left(ops@, e, at as int),
            forall|e: int| pos <= e < at ==> level(#[trigger] ops@[e]) >= min_level,
        decreases ops@.len() - at,
    {
        let ghost k: int = at as int;
        let op: Builtin = ops[at];
        let p: u8 = op.precedence();
        let mut rhs = rest.pop().unwrap();
        at += 1;
        while at < ops.len() && binds_tighter(ops[at], p)
            invariant
                leaves.len() == ops@.len() + 1,
                0 <= start <= pos <= k < at <= ops@.len(),
                op == ops@[k],
                p == level(op),
                holds_rest(rest@, leaves, at as int),
                rhs@ == tree(leaves, ops@, k + 1, at as int),
                forall|e: int| k < e < at ==> #[trigger] yields_right(ops@, k, e),
                at < ops@.len() ==> forall|e: int|
                    k < e < at ==> level(#[trigger] ops@[e]) > level(ops@[at as int]),
            decreases ops@.len() - at,
        {
            let inner_level: u8 = ops[at].precedence();
            let ghost from: int = at as int;
            assert forall|e: int| k + 1 <= e < at implies #[trigger] yields_left(
                ops@,
                e,
                at as int,
            ) by {
                assert(level(ops@[e]) > level(ops@[at as int]));
            }
            let (sub, next) = climb_from(
                rhs,
                inner_level,
                at,
                rest,
                ops,
                Ghost(leaves),
                Ghost(k + 1),
            );
            rhs = sub;
            at = next;
            assert forall|e: int| k < e < at implies #[trigger] yields_right(ops@, k, e) by {
                if e >= from {
                    assert(level(ops@[e]) >= inner_level);
                }
            }
            assert(at < ops@.len() ==> forall|e: int|
                k < e < at ==> level(#[trigger] ops@[e]) > level(ops@[at as int])) by {
                if at < ops@.len() {
                    assert forall|e: int| k < e < at implies level(#[trigger] ops@[e]) > level(
                        ops@[at as int],
                    ) by {
                        if e >= from {
                            assert(level(ops@[e]) >= inner_level);
                        } else {
                            assert(level(ops@[e]) > level(ops@[from]));
                        }
                    }
                }
            }
        }
        proof {
            assert forall|e: int| start <= e < k implies #[trigger] yields_left(ops@, e, k) by {}
            assert(applied_last(ops@, start, at as int, k));
            assert forall|e: int| pos <= e < at implies level(#[trigger] ops@[e]) >= min_level by {
                if e > k {
                    assert(yields_right(ops@, k, e));
                }
            }
            lemma_applied_last_is_root(ops@, start, at as int, k);
            if at < ops@.len() && level(ops@[at as int]) >= min_level {
                assert forall|e: int| start <= e < at implies #[trigger] yields_left(
                    ops@,
                    e,
                    at as int,
                ) by {
                    if e < k {
                        assert(yields_left(ops@, e, k));
                    } else if e > k {
                        assert(yields_right(ops@, k, e));
                    }
                }
            }
        }
        lhs = infix(lhs, op, rhs);
    }
    (lhs, at)
}

/// Folds a chain of operands and infix operators into one tree. `ops[i]`
/// stands between `leaves[i]` and `leaves[i + 1]`.
pub fn climb(leaves: Vec<Expr>, ops: &Vec<Builtin>) -> (r: Expr)
    requires
        leaves@.len() == ops@.len() + 1,
    ensures
        r@ == tree_of(views(leaves@), ops@),
{
    let ghost all = views(leaves@);
    let mut leaves = leaves;
    let mut rest: Vec<Expr> = Vec::new();
    while leaves.len() > 1
        invariant
            all.len() == ops@.len() + 1,
            1 <= leaves@.len() <= all.len(),
            rest@.len() == all.len() - leaves@.len(),
            forall|i: int| 0 <= i < leaves@.len() ==> (#[trigger] leaves@[i])@ == all[i],
            forall|i: int|
                0 <= i < rest@.len() ==> (#[trigger] rest@[i])@ == all[all.len() - 1 - i],
        decreases leaves@.len(),
    {
        let last = leaves.pop().unwrap();
        rest.push(last);
    }
    let first = leaves.pop().unwrap();
    let (r, _) = climb_from(first, 0, 0, &mut rest, ops, Ghost(all), Ghost(0));
    r
}

/// Whether each operand ends within the address space and before the next
/// one starts.
pub open spec fn in_source_order(leaves: Seq<ExprView>) -> bool {
    &&& forall|i: int| 0 <= i < leaves.len() ==> (#[trigger] leaves[i]).span().end() <= usize::MAX
    &&& forall|i: int, j: int|
        0 <= i < j < leaves.len() ==> (#[trigger] leaves[i]).span().end() <= (
        #[trigger] leaves[j]).span().0
}

/// The tree of operands that stand in source order covers the source from
/// the start of its first operand to the end of its last, whatever the
/// operators are.
pub proof fn lemma_tree_covers_operands(leaves: Seq<ExprView>, ops: Seq<Builtin>, lo: int, hi: int)
    requires
        0 <= lo <= hi < leaves.len(),
        in_source_order(leaves),
    ensures
        tree(leaves, ops, lo, hi).span().0 == leaves[lo].span().0,
        tree(leaves, ops, lo, hi).span().end() == leaves[hi].span().end(),
    decreases hi - lo,
{
    if lo < hi {
        lemma_root_applied_last(ops, lo, hi);
        let k = root(ops, lo, hi);
        lemma_tree_covers_operands(leaves, ops, lo, k);
        lemma_tree_covers_operands(leaves, ops, k + 1, hi);
        assert(leaves[lo].span().end() <= leaves[hi].span().0);
    }
}

} // verus!
