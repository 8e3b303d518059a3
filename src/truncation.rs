//! Parsing tokens that stop short: a bracketed list or a block whose tokens
//! end before its closing token fails with `UnexpectedEnd`.
use vstd::prelude::*;
use crate::span::{FC, FileId};
use crate::token::{Token, TokenKind, Punct, is_punct};
use crate::error::{Error, ErrorContext, ctx_empty, ctx_start, ctx_while, ctx_expected};
use crate::ast::{Expression, Identifier, Literal, PrefixOperator, ProductV, GeneStatementV};
use crate::grammar::{
    Parsed, ParsedList, punct_at, at_punct, ident_at, binding_at, postfix_at, atom_at, infix_at,
    infix_op_of, expr_at, list_rest, list_at, product_at, named_fields, statement_at, block_rest,
    block_at,
};
use crate::parser::{ElementParser, NamedExpr, TypedPair, BindingElement};
use crate::spans::{
    advances, lemma_list_rest, lemma_atom, lemma_expr, lemma_list, lemma_binding_advances,
    lemma_named_advances, lemma_typed_advances,
};

verus! {

/// What a production gives on the tokens cut at `k`, against what it gives
/// on all of them: where the node ends by `k`, the same; otherwise the end
/// of the tokens, or a node that stops exactly at `k`.
pub open spec fn cut_agrees<T>(cut: Parsed<T>, full: Parsed<T>, k: int) -> bool {
    match full {
        Ok((_, p)) => if p <= k {
            cut == full
        } else {
            (cut matches Err(Error::UnexpectedEnd(_, _))) || (cut matches Ok((_, q)) && q == k)
        },
        Err(_) => true,
    }
}

/// An element parser that fails with `UnexpectedEnd` at the end of the
/// tokens cut at `k`, and agrees with itself on them as above.
pub open spec fn cut_stable<E: ElementParser>(toks: Seq<Token>, file: FileId, el: E, k: int) -> bool {
    &&& el.element_at(toks.take(k), file, k) matches Err(Error::UnexpectedEnd(_, _))
    &&& forall|q: int|
        0 <= q <= k ==> cut_agrees(
            el.element_at(toks.take(k), file, q),
            #[trigger] el.element_at(toks, file, q),
            k,
        )
}

proof fn lemma_cut_ident(toks: Seq<Token>, file: FileId, q: int, ctx: ErrorContext, k: int)
    requires
        0 <= q <= k <= toks.len(),
    ensures
        cut_agrees(ident_at(toks.take(k), file, q, ctx), ident_at(toks, file, q, ctx), k),
{
    if q < k {
        assert(toks.take(k)[q] == toks[q]);
    }
}

proof fn lemma_cut_punct(toks: Seq<Token>, file: FileId, q: int, pu: Punct, ctx: ErrorContext, k: int)
    requires
        0 <= q <= k <= toks.len(),
    ensures
        cut_agrees(punct_at(toks.take(k), file, q, pu, ctx), punct_at(toks, file, q, pu, ctx), k),
{
    if q < k {
        assert(toks.take(k)[q] == toks[q]);
    }
}

proof fn lemma_postfix_moves(toks: Seq<Token>, file: FileId, e: Expression, pos: int, pec: ErrorContext)
    requires
        0 <= pos <= toks.len(),
    ensures
        postfix_at(toks, file, e, pos, pec) matches Ok((_, p)) ==> pos <= p <= toks.len(),
    decreases toks.len() - pos,
{
    if 0 <= pos < toks.len() && toks[pos].kind is Dot {
        if let Ok((name, p)) = ident_at(toks, file, pos + 1, ctx_while(pec, "a filed access expression")) {
            lemma_postfix_moves(
                toks,
                file,
                Expression::FieldAccess { base: Box::new(e), field_name: name },
                p,
                pec,
            );
        }
    }
}

proof fn lemma_infix_moves(toks: Seq<Token>, file: FileId, e: Expression, pos: int, pec: ErrorContext)
    requires
        0 <= pos <= toks.len(),
    ensures
        infix_at(toks, file, e, pos, pec) matches Ok((_, p)) ==> pos <= p <= toks.len(),
    decreases toks.len() - pos,
{
    if 0 <= pos < toks.len() && infix_op_of(toks[pos].kind) is Some {
        let op = (toks[pos].fc, infix_op_of(toks[pos].kind)->0);
        lemma_atom(toks, file, pos + 1, pec);
        if let Ok((rhs, q)) = atom_at(toks, file, pos + 1, pec) {
            if pos < q <= toks.len() {
                lemma_infix_moves(
                    toks,
                    file,
                    Expression::InfixOp { op, lhs: Box::new(e), rhs: Box::new(rhs) },
                    q,
                    pec,
                );
            }
        }
    }
}

proof fn lemma_cut_postfix(
    toks: Seq<Token>,
    file: FileId,
    e: Expression,
    pos: int,
    pec: ErrorContext,
    k: int,
)
    requires
        0 <= pos <= k <= toks.len(),
    ensures
        cut_agrees(postfix_at(toks.take(k), file, e, pos, pec), postfix_at(toks, file, e, pos, pec), k),
    decreases toks.len() - pos,
{
    let c = toks.take(k);
    assert(c.len() == k);
    let fa = ctx_while(pec, "a filed access expression");
    lemma_postfix_moves(toks, file, e, pos, pec);
    if pos < toks.len() && toks[pos].kind is Dot {
        if let Ok((name, p)) = ident_at(toks, file, pos + 1, fa) {
            let e2 = Expression::FieldAccess { base: Box::new(e), field_name: name };
            lemma_postfix_moves(toks, file, e2, p, pec);
        }
    }
    if pos < k {
        assert(c[pos] == toks[pos]);
        if toks[pos].kind is Dot {
            lemma_cut_ident(toks, file, pos + 1, fa, k);
            if let Ok((name, p)) = ident_at(toks, file, pos + 1, fa) {
                let e2 = Expression::FieldAccess { base: Box::new(e), field_name: name };
                if p <= k {
                    lemma_cut_postfix(toks, file, e2, p, pec, k);
                }
            }
        }
    }
}

proof fn lemma_cut_atom(toks: Seq<Token>, file: FileId, pos: int, pec: ErrorContext, k: int)
    requires
        0 <= pos <= k <= toks.len(),
    ensures
        cut_agrees(atom_at(toks.take(k), file, pos, pec), atom_at(toks, file, pos, pec), k),
    decreases toks.len() - pos, 0int,
{
    let c = toks.take(k);
    assert(c.len() == k);
    lemma_atom(toks, file, pos, pec);
    lemma_atom(c, file, pos, pec);
    if pos < k {
        let t = toks[pos];
        assert(c[pos] == t);
        match t.kind {
            TokenKind::Identifier(n) => {
                lemma_cut_postfix(toks, file, Expression::Variable(Identifier(t.fc, n)), pos + 1, pec, k);
            },
            TokenKind::IntegerLiteral(i) => {
                lemma_cut_postfix(
                    toks,
                    file,
                    Expression::Literal(Literal::Integer(t.fc, i)),
                    pos + 1,
                    pec,
                    k,
                );
            },
            TokenKind::StringLiteral(s) => {
                lemma_cut_postfix(
                    toks,
                    file,
                    Expression::Literal(Literal::String(t.fc, s)),
                    pos + 1,
                    pec,
                    k,
                );
            },
            TokenKind::BracketOpen => {
                let ic = ctx_while(pec, "a type inside a concentration expression");
                let bc = ctx_expected(ctx_while(pec, "a concentration expression"), "`]`");
                lemma_cut_ident(toks, file, pos + 1, ic, k);
                if let Ok((name, p)) = ident_at(toks, file, pos + 1, ic) {
                    if let Ok((_, p2)) = punct_at(toks, file, p, Punct::BracketClose, bc) {
                        lemma_postfix_moves(toks, file, Expression::Concentration(name), p2, pec);
                    }
                    if p <= k {
                        lemma_cut_punct(toks, file, p, Punct::BracketClose, bc, k);
                        if let Ok((_, p2)) = punct_at(toks, file, p, Punct::BracketClose, bc) {
                            lemma_postfix_moves(toks, file, Expression::Concentration(name), p2, pec);
                            if p2 <= k {
                                lemma_cut_postfix(toks, file, Expression::Concentration(name), p2, pec, k);
                            }
                        }
                    }
                }
            },
            TokenKind::ParenOpen => {
                let nc = ctx_expected(ctx_while(pec, "a nested expression"), "`)`");
                lemma_cut_expr(toks, file, pos + 1, pec, k);
                lemma_expr(toks, file, pos + 1, pec);
                lemma_expr(c, file, pos + 1, pec);
                if let Ok((v, q)) = expr_at(toks, file, pos + 1, pec) {
                    if let Ok((_, p2)) = punct_at(toks, file, q, Punct::ParenClose, nc) {
                        lemma_postfix_moves(toks, file, v, p2, pec);
                    }
                    if q <= k {
                        lemma_cut_punct(toks, file, q, Punct::ParenClose, nc, k);
                        if let Ok((_, p2)) = punct_at(toks, file, q, Punct::ParenClose, nc) {
                            lemma_postfix_moves(toks, file, v, p2, pec);
                            if p2 <= k {
                                lemma_cut_postfix(toks, file, v, p2, pec, k);
                            }
                        }
                    }
                }
            },
            TokenKind::OpMinus => {
                lemma_cut_atom(toks, file, pos + 1, pec, k);
                lemma_atom(toks, file, pos + 1, pec);
                lemma_atom(c, file, pos + 1, pec);
                if let Ok((rhs, q)) = atom_at(toks, file, pos + 1, pec) {
                    let e = Expression::PrefixOp {
                        op: (t.fc, PrefixOperator::Neg),
                        expr: Box::new(rhs),
                    };
                    lemma_postfix_moves(toks, file, e, q, pec);
                    if q <= k {
                        lemma_cut_postfix(toks, file, e, q, pec, k);
                    } else if let Ok((rhs2, q2)) = atom_at(c, file, pos + 1, pec) {
                        let e2 = Expression::PrefixOp {
                            op: (t.fc, PrefixOperator::Neg),
                            expr: Box::new(rhs2),
                        };
                        assert(postfix_at(c, file, e2, q2, pec) == Ok::<(Expression, int), Error>((e2, k)));
                    }
                }
            },
            _ => {},
        }
    }
}

proof fn lemma_cut_infix(
    toks: Seq<Token>,
    file: FileId,
    lhs: Expression,
    pos: int,
    pec: ErrorContext,
    k: int,
)
    requires
        0 <= pos <= k <= toks.len(),
    ensures
        cut_agrees(infix_at(toks.take(k), file, lhs, pos, pec), infix_at(toks, file, lhs, pos, pec), k),
    decreases toks.len() - pos, 2int,
{
    let c = toks.take(k);
    assert(c.len() == k);
    lemma_infix_moves(toks, file, lhs, pos, pec);
    if pos < toks.len() && infix_op_of(toks[pos].kind) is Some {
        let op = (toks[pos].fc, infix_op_of(toks[pos].kind)->0);
        lemma_atom(toks, file, pos + 1, pec);
        if let Ok((rhs, q)) = atom_at(toks, file, pos + 1, pec) {
            let e = Expression::InfixOp { op, lhs: Box::new(lhs), rhs: Box::new(rhs) };
            lemma_infix_moves(toks, file, e, q, pec);
        }
    }
    if pos < k {
        assert(c[pos] == toks[pos]);
        if infix_op_of(toks[pos].kind) is Some {
            let op = (toks[pos].fc, infix_op_of(toks[pos].kind)->0);
            lemma_cut_atom(toks, file, pos + 1, pec, k);
            lemma_atom(c, file, pos + 1, pec);
            if let Ok((rhs, q)) = atom_at(toks, file, pos + 1, pec) {
                let e = Expression::InfixOp { op, lhs: Box::new(lhs), rhs: Box::new(rhs) };
                if q <= k {
                    lemma_cut_infix(toks, file, e, q, pec, k);
                } else if let Ok((rhs2, q2)) = atom_at(c, file, pos + 1, pec) {
                    let e2 = Expression::InfixOp { op, lhs: Box::new(lhs), rhs: Box::new(rhs2) };
                    assert(infix_at(c, file, e2, q2, pec) == Ok::<(Expression, int), Error>((e2, k)));
                }
            }
        }
    }
}

proof fn lemma_cut_expr(toks: Seq<Token>, file: FileId, pos: int, pec: ErrorContext, k: int)
    requires
        0 <= pos <= k <= toks.len(),
    ensures
        cut_agrees(expr_at(toks.take(k), file, pos, pec), expr_at(toks, file, pos, pec), k),
    decreases toks.len() - pos, 1int,
{
    let c = toks.take(k);
    assert(c.len() == k);
    lemma_cut_atom(toks, file, pos, pec, k);
    lemma_atom(toks, file, pos, pec);
    lemma_atom(c, file, pos, pec);
    if let Ok((e, p)) = atom_at(toks, file, pos, pec) {
        lemma_infix_moves(toks, file, e, p, pec);
        if p <= k {
            lemma_cut_infix(toks, file, e, p, pec, k);
        }
    }
}

proof fn lemma_cut_binding(toks: Seq<Token>, file: FileId, pos: int, pec: ErrorContext, k: int)
    requires
        0 <= pos <= k <= toks.len(),
    ensures
        cut_agrees(binding_at(toks.take(k), file, pos, pec), binding_at(toks, file, pos, pec), k),
{
    let c = toks.take(k);
    assert(c.len() == k);
    if pos < k {
        assert(c[pos] == toks[pos]);
        if pos + 1 < k {
            assert(c[pos + 1] == toks[pos + 1]);
        }
        if pos + 2 < k {
            assert(c[pos + 2] == toks[pos + 2]);
        }
    }
}

proof fn lemma_typed_cut_stable(toks: Seq<Token>, file: FileId, el: TypedPair, k: int)
    requires
        0 <= k <= toks.len(),
    ensures
        cut_stable(toks, file, el, k),
{
    let c = toks.take(k);
    assert(c.len() == k);
    assert forall|q: int| 0 <= q <= k implies cut_agrees(
        el.element_at(c, file, q),
        #[trigger] el.element_at(toks, file, q),
        k,
    ) by {
        if q < k {
            assert(c[q] == toks[q]);
        }
        if q + 1 < k {
            assert(c[q + 1] == toks[q + 1]);
        }
        if q + 2 < k {
            assert(c[q + 2] == toks[q + 2]);
        }
    }
}

proof fn lemma_binding_cut_stable(toks: Seq<Token>, file: FileId, el: BindingElement, k: int)
    requires
        0 <= k <= toks.len(),
    ensures
        cut_stable(toks, file, el, k),
{
    assert(toks.take(k).len() == k);
    assert forall|q: int| 0 <= q <= k implies cut_agrees(
        el.element_at(toks.take(k), file, q),
        #[trigger] el.element_at(toks, file, q),
        k,
    ) by {
        lemma_cut_binding(toks, file, q, el.ctx, k);
    }
}

proof fn lemma_named_cut_stable(toks: Seq<Token>, file: FileId, el: NamedExpr, k: int)
    requires
        0 <= k <= toks.len(),
    ensures
        cut_stable(toks, file, el, k),
{
    let c = toks.take(k);
    assert(c.len() == k);
    assert forall|q: int| 0 <= q <= k implies cut_agrees(
        el.element_at(c, file, q),
        #[trigger] el.element_at(toks, file, q),
        k,
    ) by {
        lemma_cut_ident(toks, file, q, el.ident_ctx, k);
        if let Ok((id, p)) = ident_at(toks, file, q, el.ident_ctx) {
            if let Ok((colon_fc, p2)) = punct_at(toks, file, p, Punct::Colon, el.colon_ctx) {
                let ec = ctx_while(ctx_start(ctx_empty(), colon_fc, "beginning of expression"), "an expression");
                lemma_expr(toks, file, p2, ec);
                if p2 <= k {
                    lemma_cut_expr(toks, file, p2, ec, k);
                }
            }
            if p <= k {
                lemma_cut_punct(toks, file, p, Punct::Colon, el.colon_ctx, k);
            }
        }
        assert(cut_agrees(el.element_at(c, file, q), el.element_at(toks, file, q), k));
    }
}

proof fn lemma_cut_list_rest<E: ElementParser>(
    toks: Seq<Token>,
    file: FileId,
    start: FC,
    acc: Seq<E::Out>,
    pos: int,
    close: Punct,
    sep: Punct,
    sep_ctx: ErrorContext,
    el: E,
    k: int,
)
    requires
        0 <= pos <= k <= toks.len(),
        cut_stable(toks, file, el, k),
        list_rest(toks, file, start, acc, pos, close, sep, sep_ctx, el) matches Ok((_, _, p)) && k
            < p,
    ensures
        list_rest(toks.take(k), file, start, acc, pos, close, sep, sep_ctx, el) matches Err(
            Error::UnexpectedEnd(_, _),
        ),
    decreases toks.len() - pos,
{
    let c = toks.take(k);
    assert(c.len() == k);
    if pos < k {
        assert(c[pos] == toks[pos]);
        let r = el.element_at(toks, file, pos);
        assert(cut_agrees(el.element_at(c, file, pos), r, k));
        if let Ok((v, q)) = r {
            if q < k {
                assert(c[q] == toks[q]);
                if !is_punct(toks[q].kind, close) && is_punct(toks[q].kind, sep) && pos <= q {
                    lemma_cut_list_rest(toks, file, start, acc.push(v), q + 1, close, sep, sep_ctx, el, k);
                }
            }
        }
    }
}

proof fn lemma_cut_list<E: ElementParser>(
    toks: Seq<Token>,
    file: FileId,
    pos: int,
    open: Punct,
    close: Punct,
    sep: Punct,
    open_ctx: ErrorContext,
    sep_ctx: ErrorContext,
    el: E,
    k: int,
)
    requires
        0 <= pos < k <= toks.len(),
        cut_stable(toks, file, el, k),
        list_at(toks, file, pos, open, close, sep, open_ctx, sep_ctx, el) matches Ok((_, _, p)) && k
            < p,
    ensures
        list_at(toks.take(k), file, pos, open, close, sep, open_ctx, sep_ctx, el) matches Err(
            Error::UnexpectedEnd(_, _),
        ),
{
    let c = toks.take(k);
    assert(c[pos] == toks[pos]);
    if let Ok((start, p)) = punct_at(toks, file, pos, open, open_ctx) {
        lemma_cut_list_rest(toks, file, start, Seq::empty(), p, close, sep, sep_ctx, el, k);
    }
}

/// A list of `name: Type` pairs whose tokens stop after its opening token
/// and before its closing one fails with `UnexpectedEnd`.
pub proof fn unterminated_typed_list_ends_unexpectedly(
    toks: Seq<Token>,
    file: FileId,
    pos: int,
    open: Punct,
    close: Punct,
    sep: Punct,
    open_ctx: ErrorContext,
    sep_ctx: ErrorContext,
    el: TypedPair,
    k: int,
)
    requires
        0 <= pos < k,
        list_at(toks, file, pos, open, close, sep, open_ctx, sep_ctx, el) matches Ok((_, _, p)) && k
            < p,
    ensures
        list_at(toks.take(k), file, pos, open, close, sep, open_ctx, sep_ctx, el) matches Err(
            Error::UnexpectedEnd(_, _),
        ),
{
    lemma_typed_advances(toks, file, el);
    lemma_list(toks, file, pos, open, close, sep, open_ctx, sep_ctx, el);
    lemma_typed_cut_stable(toks, file, el, k);
    lemma_cut_list(toks, file, pos, open, close, sep, open_ctx, sep_ctx, el, k);
}

/// A list of `name: expression` pairs whose tokens stop after its opening
/// token and before its closing one fails with `UnexpectedEnd`.
pub proof fn unterminated_named_list_ends_unexpectedly(
    toks: Seq<Token>,
    file: FileId,
    pos: int,
    open: Punct,
    close: Punct,
    sep: Punct,
    open_ctx: ErrorContext,
    sep_ctx: ErrorContext,
    el: NamedExpr,
    k: int,
)
    requires
        0 <= pos < k,
        list_at(toks, file, pos, open, close, sep, open_ctx, sep_ctx, el) matches Ok((_, _, p)) && k
            < p,
    ensures
        list_at(toks.take(k), file, pos, open, close, sep, open_ctx, sep_ctx, el) matches Err(
            Error::UnexpectedEnd(_, _),
        ),
{
    lemma_named_advances(toks, file, el);
    lemma_list(toks, file, pos, open, close, sep, open_ctx, sep_ctx, el);
    lemma_named_cut_stable(toks, file, el, k);
    lemma_cut_list(toks, file, pos, open, close, sep, open_ctx, sep_ctx, el, k);
}

/// A list of bindings whose tokens stop after its opening token and before
/// its closing one fails with `UnexpectedEnd`.
pub proof fn unterminated_binding_list_ends_unexpectedly(
    toks: Seq<Token>,
    file: FileId,
    pos: int,
    open: Punct,
    close: Punct,
    sep: Punct,
    open_ctx: ErrorContext,
    sep_ctx: ErrorContext,
    el: BindingElement,
    k: int,
)
    requires
        0 <= pos < k,
        list_at(toks, file, pos, open, close, sep, open_ctx, sep_ctx, el) matches Ok((_, _, p)) && k
            < p,
    ensures
        list_at(toks.take(k), file, pos, open, close, sep, open_ctx, sep_ctx, el) matches Err(
            Error::UnexpectedEnd(_, _),
        ),
{
    lemma_binding_advances(toks, file, el);
    lemma_list(toks, file, pos, open, close, sep, open_ctx, sep_ctx, el);
    lemma_binding_cut_stable(toks, file, el, k);
    lemma_cut_list(toks, file, pos, open, close, sep, open_ctx, sep_ctx, el, k);
}

/// As `cut_agrees`, for lists.
pub open spec fn cut_agrees_list<T>(cut: ParsedList<T>, full: ParsedList<T>, k: int) -> bool {
    match full {
        Ok((_, _, p)) => if p <= k {
            cut == full
        } else {
            (cut matches Err(Error::UnexpectedEnd(_, _))) || (cut matches Ok((_, _, q)) && q == k)
        },
        Err(_) => true,
    }
}

proof fn lemma_cut_list_rest_within<E: ElementParser>(
    toks: Seq<Token>,
    file: FileId,
    start: FC,
    acc: Seq<E::Out>,
    pos: int,
    close: Punct,
    sep: Punct,
    sep_ctx: ErrorContext,
    el: E,
    k: int,
)
    requires
        0 <= pos <= k <= toks.len(),
        advances(toks, file, el),
        cut_stable(toks, file, el, k),
        list_rest(toks, file, start, acc, pos, close, sep, sep_ctx, el) matches Ok((_, _, p)) && p
            <= k,
    ensures
        list_rest(toks.take(k), file, start, acc, pos, close, sep, sep_ctx, el) == list_rest(
            toks,
            file,
            start,
            acc,
            pos,
            close,
            sep,
            sep_ctx,
            el,
        ),
    decreases toks.len() - pos,
{
    let c = toks.take(k);
    assert(c.len() == k);
    lemma_list_rest(toks, file, start, acc, pos, close, sep, sep_ctx, el);
    if pos < k {
        assert(c[pos] == toks[pos]);
    }
    if pos < k && !at_punct(toks, pos, close) {
        let r = el.element_at(toks, file, pos);
        assert(cut_agrees(el.element_at(c, file, pos), r, k));
        if let Ok((v, q)) = r {
            if 0 <= q < toks.len() && !is_punct(toks[q].kind, close) && is_punct(toks[q].kind, sep)
                && pos <= q {
                lemma_list_rest(toks, file, start, acc.push(v), q + 1, close, sep, sep_ctx, el);
            }
            if q < k {
                assert(c[q] == toks[q]);
                if !is_punct(toks[q].kind, close) && is_punct(toks[q].kind, sep) && pos <= q {
                    lemma_cut_list_rest_within(
                        toks,
                        file,
                        start,
                        acc.push(v),
                        q + 1,
                        close,
                        sep,
                        sep_ctx,
                        el,
                        k,
                    );
                }
            }
        }
    }
}

proof fn lemma_cut_named_list(
    toks: Seq<Token>,
    file: FileId,
    pos: int,
    open_ctx: ErrorContext,
    sep_ctx: ErrorContext,
    el: NamedExpr,
    k: int,
)
    requires
        0 <= pos <= k <= toks.len(),
    ensures
        cut_agrees_list(
            list_at(toks.take(k), file, pos, Punct::ParenOpen, Punct::ParenClose, Punct::Comma, open_ctx, sep_ctx, el),
            list_at(toks, file, pos, Punct::ParenOpen, Punct::ParenClose, Punct::Comma, open_ctx, sep_ctx, el),
            k,
        ),
{
    let c = toks.take(k);
    assert(c.len() == k);
    lemma_named_advances(toks, file, el);
    lemma_named_cut_stable(toks, file, el, k);
    lemma_list(toks, file, pos, Punct::ParenOpen, Punct::ParenClose, Punct::Comma, open_ctx, sep_ctx, el);
    if pos < k {
        assert(c[pos] == toks[pos]);
        if let Ok((start, p)) = punct_at(toks, file, pos, Punct::ParenOpen, open_ctx) {
            if let Ok((_, _, q)) = list_at(toks, file, pos, Punct::ParenOpen, Punct::ParenClose, Punct::Comma, open_ctx, sep_ctx, el) {
                if q <= k {
                    lemma_cut_list_rest_within(toks, file, start, Seq::empty(), p, Punct::ParenClose, Punct::Comma, sep_ctx, el, k);
                } else {
                    lemma_cut_list(toks, file, pos, Punct::ParenOpen, Punct::ParenClose, Punct::Comma, open_ctx, sep_ctx, el, k);
                }
            }
        }
    }
}

proof fn lemma_cut_product(toks: Seq<Token>, file: FileId, pos: int, pec: ErrorContext, k: int)
    requires
        0 <= pos <= k <= toks.len(),
    ensures
        cut_agrees(product_at(toks.take(k), file, pos, pec), product_at(toks, file, pos, pec), k),
{
    let c = toks.take(k);
    assert(c.len() == k);
    if pos < k {
        assert(c[pos] == toks[pos]);
    }
    let quantity: Option<(FC, u64)> = if 0 <= pos < toks.len() {
        match toks[pos].kind {
            TokenKind::IntegerLiteral(l) => Some((toks[pos].fc, l)),
            _ => None,
        }
    } else {
        None
    };
    let after_quantity = if quantity is Some { pos + 1 } else { pos };
    let ic = ctx_while(pec, "a product");
    if after_quantity <= k {
        lemma_cut_ident(toks, file, after_quantity, ic, k);
    }
    if let Ok((name, p)) = ident_at(toks, file, after_quantity, ic) {
        let start = match quantity {
            Some((fc, _)) => fc,
            None => name.0,
        };
        let ec = ctx_while(ctx_start(ctx_empty(), start, "product"), "a product");
        let oc = ctx_expected(ctx_while(ec, "the start of product fields"), "`(`");
        let sc = ctx_expected(ctx_while(ec, "a product field list"), "`,` or `)`");
        if p < k {
            assert(c[p] == toks[p]);
        }
        if p <= k {
            lemma_cut_named_list(toks, file, p, oc, sc, named_fields(ec, "a product field"), k);
        }
        lemma_named_advances(toks, file, named_fields(ec, "a product field"));
        lemma_list(toks, file, p, Punct::ParenOpen, Punct::ParenClose, Punct::Comma, oc, sc, named_fields(ec, "a product field"));
    }
}

proof fn lemma_cut_statement(toks: Seq<Token>, file: FileId, pos: int, pec: ErrorContext, k: int)
    requires
        0 <= pos <= k <= toks.len(),
    ensures
        cut_agrees(statement_at(toks.take(k), file, pos, pec), statement_at(toks, file, pos, pec), k),
{
    let c = toks.take(k);
    assert(c.len() == k);
    crate::spans::lemma_statement_moves(toks, file, pos, pec);
    if pos < k {
        let t = toks[pos];
        assert(c[pos] == t);
        match t.kind {
            TokenKind::Call => {
                let ec = ctx_start(ctx_empty(), t.fc, "call statement");
                let ic = ctx_while(ec, "a call statement");
                lemma_cut_ident(toks, file, pos + 1, ic, k);
                if let Ok((name, p)) = ident_at(toks, file, pos + 1, ic) {
                    let oc = ctx_expected(ctx_while(ec, "a call statement parameter list"), "`(`");
                    let sc = ctx_expected(ctx_while(ec, "a call statement parameter list"), "`,` or `)`");
                    lemma_named_advances(toks, file, named_fields(ec, "a named argument"));
                    lemma_list(
                        toks,
                        file,
                        p,
                        Punct::ParenOpen,
                        Punct::ParenClose,
                        Punct::Comma,
                        oc,
                        sc,
                        named_fields(ec, "a named argument"),
                    );
                    if p <= k {
                        lemma_cut_named_list(toks, file, p, oc, sc, named_fields(ec, "a named argument"), k);
                    }
                }
            },
            TokenKind::Express => {
                let pc = ctx_while(ctx_start(ctx_empty(), t.fc, "express statement"), "an express statement");
                lemma_cut_product(toks, file, pos + 1, pc, k);
            },
            _ => {},
        }
    }
}

proof fn lemma_cut_block_rest(
    toks: Seq<Token>,
    file: FileId,
    start: FC,
    acc: Seq<GeneStatementV>,
    pos: int,
    pec: ErrorContext,
    k: int,
)
    requires
        0 <= pos <= k <= toks.len(),
        block_rest(toks, file, start, acc, pos, pec) matches Ok((_, _, p)) && k < p,
    ensures
        block_rest(toks.take(k), file, start, acc, pos, pec) matches Err(Error::UnexpectedEnd(_, _)),
    decreases toks.len() - pos,
{
    let c = toks.take(k);
    assert(c.len() == k);
    lemma_cut_statement(toks, file, pos, pec, k);
    crate::spans::lemma_statement_moves(toks, file, pos, pec);
    if pos < k {
        assert(c[pos] == toks[pos]);
        if let Ok((st, q)) = statement_at(toks, file, pos, pec) {
            if q <= k {
                lemma_cut_block_rest(toks, file, start, acc.push(st), q, pec, k);
            } else if let Ok((st2, q2)) = statement_at(c, file, pos, pec) {
                assert(block_rest(c, file, start, acc.push(st2), q2, pec) matches Err(
                    Error::UnexpectedEnd(_, _),
                ));
            }
        }
    }
}

/// A brace-delimited block of statements whose tokens stop after its `{`
/// and before its `}` fails with `UnexpectedEnd`.
pub proof fn unterminated_block_ends_unexpectedly(
    toks: Seq<Token>,
    file: FileId,
    pos: int,
    open_ctx: ErrorContext,
    pec: ErrorContext,
    k: int,
)
    requires
        0 <= pos < k,
        block_at(toks, file, pos, open_ctx, pec) matches Ok((_, _, p)) && k < p,
    ensures
        block_at(toks.take(k), file, pos, open_ctx, pec) matches Err(Error::UnexpectedEnd(_, _)),
{
    let c = toks.take(k);
    crate::spans::lemma_block_moves(toks, file, pos, open_ctx, pec);
    assert(c[pos] == toks[pos]);
    if let Ok((start, p)) = punct_at(toks, file, pos, Punct::BraceOpen, open_ctx) {
        lemma_cut_block_rest(toks, file, start, seq![], p, pec, k);
    }
}

} // verus!
