//! Infix operators share one precedence level and fold to the left: the
//! outermost operation of a parsed expression takes the last atom as its
//! right operand.
use vstd::prelude::*;
use crate::span::FileId;
use crate::token::Token;
use crate::error::ErrorContext;
use crate::ast::Expression;
use crate::grammar::{atom_at, infix_at, expr_at, infix_op_of};
use crate::spans::lemma_atom;

verus! {

/// `e` is an infix operation whose operator is the token at some `q` in
/// `[lo, p)` and whose right operand is the atom from `q + 1` to `p`.
pub open spec fn ends_with_atom(
    toks: Seq<Token>,
    file: FileId,
    e: Expression,
    lo: int,
    p: int,
    pec: ErrorContext,
) -> bool {
    match e {
        Expression::InfixOp { op, lhs: _, rhs } => exists|q: int|
            lo <= q < p && toks[q].fc == op.0 && infix_op_of(toks[q].kind) == Some(op.1)
                && #[trigger] atom_at(toks, file, q + 1, pec) == Ok::<
                (Expression, int),
                crate::error::Error,
            >((*rhs, p)),
        _ => false,
    }
}

proof fn lemma_infix_last(
    toks: Seq<Token>,
    file: FileId,
    lhs: Expression,
    pos: int,
    pec: ErrorContext,
)
    requires
        0 <= pos <= toks.len(),
    ensures
        infix_at(toks, file, lhs, pos, pec) matches Ok((e, p)) ==> (e == lhs && p == pos)
            || ends_with_atom(toks, file, e, pos, p, pec),
    decreases toks.len() - pos,
{
    if 0 <= pos < toks.len() && infix_op_of(toks[pos].kind) is Some {
        let op = (toks[pos].fc, infix_op_of(toks[pos].kind)->0);
        lemma_atom(toks, file, pos + 1, pec);
        if let Ok((rhs, q)) = atom_at(toks, file, pos + 1, pec) {
            let e = Expression::InfixOp { op, lhs: Box::new(lhs), rhs: Box::new(rhs) };
            assert(ends_with_atom(toks, file, e, pos, q, pec));
            lemma_infix_last(toks, file, e, q, pec);
            if let Ok((e2, p2)) = infix_at(toks, file, e, q, pec) {
                if ends_with_atom(toks, file, e2, q, p2, pec) {
                    if let Expression::InfixOp { op: op2, lhs: _, rhs: rhs2 } = e2 {
                        let w = choose|w: int|
                            q <= w < p2 && toks[w].fc == op2.0 && infix_op_of(toks[w].kind) == Some(
                                op2.1,
                            ) && #[trigger] atom_at(toks, file, w + 1, pec) == Ok::<
                                (Expression, int),
                                crate::error::Error,
                            >((*rhs2, p2));
                        assert(pos <= w < p2);
                    }
                }
            }
        }
    }
}

/// A parsed expression is its first atom, or an infix operation whose
/// operator follows the tokens of its left operand and whose right operand
/// is the last atom: operators share one level and fold to the left, so
/// `a + b * c` is `(a + b) * c`.
pub proof fn infix_operators_fold_left(toks: Seq<Token>, file: FileId, pos: int, pec: ErrorContext)
    requires
        0 <= pos,
    ensures
        expr_at(toks, file, pos, pec) matches Ok((e, p)) ==> (atom_at(toks, file, pos, pec) == Ok::<
            (Expression, int),
            crate::error::Error,
        >((e, p))) || ends_with_atom(toks, file, e, pos, p, pec),
{
    lemma_atom(toks, file, pos, pec);
    if let Ok((a, p1)) = atom_at(toks, file, pos, pec) {
        lemma_infix_last(toks, file, a, p1, pec);
        if let Ok((e, p)) = infix_at(toks, file, a, p1, pec) {
            if ends_with_atom(toks, file, e, p1, p, pec) {
                if let Expression::InfixOp { op, lhs: _, rhs } = e {
                    let w = choose|w: int|
                        p1 <= w < p && toks[w].fc == op.0 && infix_op_of(toks[w].kind) == Some(op.1)
                            && #[trigger] atom_at(toks, file, w + 1, pec) == Ok::<
                            (Expression, int),
                            crate::error::Error,
                        >((*rhs, p));
                    assert(pos <= w < p);
                }
            }
        }
    }
}

/// The left fold of `first` with the first `k` operators and right
/// operands: `((first op0 r0) op1 r1) ...`.
pub open spec fn fold_left(
    first: Expression,
    ops: Seq<(crate::span::FC, crate::ast::InfixOperator)>,
    rhs: Seq<Expression>,
    k: int,
) -> Expression
    decreases k,
{
    if k <= 0 {
        first
    } else {
        Expression::InfixOp {
            op: ops[k - 1],
            lhs: Box::new(fold_left(first, ops, rhs, k - 1)),
            rhs: Box::new(rhs[k - 1]),
        }
    }
}

/// The tokens from `ends[0]` on are `o0 A1 o1 A2 ... A(m)` followed by a
/// token that is no infix operator, or by nothing: the token at `ends[i]`
/// is the operator `ops[i]`, and the atom after it is `rhs[i]`, ending at
/// `ends[i + 1]`.
pub open spec fn operator_chain(
    toks: Seq<Token>,
    file: FileId,
    pec: ErrorContext,
    ops: Seq<(crate::span::FC, crate::ast::InfixOperator)>,
    rhs: Seq<Expression>,
    ends: Seq<int>,
) -> bool {
    let m = ops.len() as int;
    &&& rhs.len() == m && ends.len() == m + 1
    &&& 0 <= ends[0]
    &&& forall|i: int|
        0 <= i < m ==> ends[i] < toks.len() && toks[ends[i]].fc == ops[i].0 && infix_op_of(
            toks[ends[i]].kind,
        ) == Some(ops[i].1) && #[trigger] atom_at(toks, file, ends[i] + 1, pec) == Ok::<
            (Expression, int),
            crate::error::Error,
        >((rhs[i], ends[i + 1]))
    &&& !(ends[m] < toks.len() && infix_op_of(toks[ends[m]].kind) is Some)
}

proof fn lemma_fold(
    toks: Seq<Token>,
    file: FileId,
    pec: ErrorContext,
    first: Expression,
    ops: Seq<(crate::span::FC, crate::ast::InfixOperator)>,
    rhs: Seq<Expression>,
    ends: Seq<int>,
    k: int,
)
    requires
        operator_chain(toks, file, pec, ops, rhs, ends),
        0 <= k <= ops.len(),
        0 <= ends[k] <= toks.len(),
    ensures
        infix_at(toks, file, fold_left(first, ops, rhs, k), ends[k], pec) == Ok::<
            (Expression, int),
            crate::error::Error,
        >((fold_left(first, ops, rhs, ops.len() as int), ends[ops.len() as int])),
    decreases ops.len() - k,
{
    if k < ops.len() {
        assert(atom_at(toks, file, ends[k] + 1, pec) == Ok::<(Expression, int), crate::error::Error>(
            (rhs[k], ends[k + 1]),
        ));
        lemma_atom(toks, file, ends[k] + 1, pec);
        assert(fold_left(first, ops, rhs, k + 1) == Expression::InfixOp {
            op: ops[k],
            lhs: Box::new(fold_left(first, ops, rhs, k)),
            rhs: Box::new(rhs[k]),
        });
        lemma_fold(toks, file, pec, first, ops, rhs, ends, k + 1);
    }
}

/// An expression made of atoms joined by infix operators is their left
/// fold, whatever the operators: `A0 o0 A1 o1 ... A(m)` parses as
/// `((A0 o0 A1) o1 ...) A(m)`, and ends where the last atom ends.
pub proof fn expression_is_left_fold(
    toks: Seq<Token>,
    file: FileId,
    pos: int,
    pec: ErrorContext,
    first: Expression,
    ops: Seq<(crate::span::FC, crate::ast::InfixOperator)>,
    rhs: Seq<Expression>,
    ends: Seq<int>,
)
    requires
        0 <= pos,
        atom_at(toks, file, pos, pec) == Ok::<(Expression, int), crate::error::Error>(
            (first, ends[0]),
        ),
        operator_chain(toks, file, pec, ops, rhs, ends),
    ensures
        expr_at(toks, file, pos, pec) == Ok::<(Expression, int), crate::error::Error>(
            (fold_left(first, ops, rhs, ops.len() as int), ends[ops.len() as int]),
        ),
{
    lemma_atom(toks, file, pos, pec);
    lemma_fold(toks, file, pec, first, ops, rhs, ends, 0);
}

} // verus!
