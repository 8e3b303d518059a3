//! Spans of parsed nodes: on tokens that come in source order, every node
//! that a production builds spans exactly the tokens it consumed.
use vstd::prelude::*;
use crate::span::{FC, FileId, merge_fc};
use crate::token::{Token, TokenKind, Punct, is_punct};
use crate::error::{ErrorContext, ctx_empty, ctx_start, ctx_while, ctx_expected};
use crate::ast::{
    Expression, Identifier, Literal, PrefixOperator, ProductV, GeneStatementV, RecordV, ExternV, GeneV,
    RuleV, FileV, expr_fc,
};
use crate::grammar::{
    ident_at, binding_at, postfix_at, atom_at, infix_at, expr_at, list_rest, list_at, product_at,
    products_rest, product_list_at, statement_at, block_rest, block_at, record_at, extern_at,
    gene_at, rule_at, items_from, file_of, punct_at, at_punct, named_fields, typed_fields,
    infix_op_of, empty_file,
};
use crate::parser::{ElementParser, NamedExpr, TypedPair, BindingElement};

verus! {

/// Tokens as a lexer hands them over: each span runs forwards, and each
/// token ends before the next one starts.
pub open spec fn ordered(toks: Seq<Token>) -> bool {
    &&& forall|i: int| 0 <= i < toks.len() ==> #[trigger] toks[i].fc.start <= toks[i].fc.end
    &&& forall|i: int, j: int|
        0 <= i < j < toks.len() ==> #[trigger] toks[i].fc.end <= #[trigger] toks[j].fc.start
}

/// The merge of the spans of the tokens in `[lo, hi)`, one after another.
pub open spec fn span_of(toks: Seq<Token>, lo: int, hi: int) -> FC
    decreases hi - lo,
{
    if hi <= lo + 1 {
        toks[lo].fc
    } else {
        merge_fc(span_of(toks, lo, hi - 1), toks[hi - 1].fc)
    }
}

/// No `(` or `[` among the tokens in `[lo, hi)`. Parentheses and the
/// brackets of a concentration give no node of their own, so an expression
/// that holds them does not span them.
pub open spec fn no_group(toks: Seq<Token>, lo: int, hi: int) -> bool {
    forall|i: int|
        lo <= i < hi ==> !(#[trigger] toks[i].kind is ParenOpen || toks[i].kind is BracketOpen)
}

/// The span from the token at `lo` to the token before `hi`.
pub open spec fn ends(toks: Seq<Token>, lo: int, hi: int) -> FC {
    merge_fc(toks[lo].fc, toks[hi - 1].fc)
}

proof fn lemma_merge_join(toks: Seq<Token>, a: int, b: int, c: int, d: int)
    requires
        ordered(toks),
        0 <= a <= b <= c <= d < toks.len(),
    ensures
        merge_fc(merge_fc(toks[a].fc, toks[b].fc), merge_fc(toks[c].fc, toks[d].fc)) == merge_fc(
            toks[a].fc,
            toks[d].fc,
        ),
        merge_fc(toks[a].fc, merge_fc(toks[c].fc, toks[d].fc)) == merge_fc(toks[a].fc, toks[d].fc),
        merge_fc(toks[a].fc, toks[a].fc) == toks[a].fc,
{
    let (ta, tb, tc, td) = (toks[a].fc, toks[b].fc, toks[c].fc, toks[d].fc);
    assert(ta.start <= ta.end && tb.start <= tb.end && tc.start <= tc.end && td.start <= td.end);
    if a < b {
        assert(ta.end <= tb.start);
    }
    if b < c {
        assert(tb.end <= tc.start);
    }
    if c < d {
        assert(tc.end <= td.start);
    }
    if a < c {
        assert(ta.end <= tc.start);
    }
    if a < d {
        assert(ta.end <= td.start);
    }
    if b < d {
        assert(tb.end <= td.start);
    }
}

proof fn lemma_span_of(toks: Seq<Token>, lo: int, hi: int)
    requires
        ordered(toks),
        0 <= lo < hi <= toks.len(),
    ensures
        span_of(toks, lo, hi) == ends(toks, lo, hi),
    decreases hi - lo,
{
    lemma_merge_join(toks, lo, lo, lo, lo);
    if hi > lo + 1 {
        lemma_span_of(toks, lo, hi - 1);
        lemma_merge_join(toks, lo, hi - 2, hi - 1, hi - 1);
    }
}

proof fn lemma_postfix(
    toks: Seq<Token>,
    file: FileId,
    e: Expression,
    pos: int,
    pec: ErrorContext,
    lo: int,
)
    requires
        0 <= lo < pos <= toks.len(),
        ordered(toks) && no_group(toks, lo, pos) ==> expr_fc(e) == ends(toks, lo, pos),
    ensures
        postfix_at(toks, file, e, pos, pec) matches Ok((e2, p)) ==> pos <= p <= toks.len() && (
        ordered(toks) && no_group(toks, lo, p) ==> expr_fc(e2) == ends(toks, lo, p)),
    decreases toks.len() - pos,
{
    if 0 <= pos < toks.len() && toks[pos].kind is Dot {
        if let Ok((name, p)) = ident_at(toks, file, pos + 1, ctx_fa(pec)) {
            let e2 = Expression::FieldAccess { base: Box::new(e), field_name: name };
            if ordered(toks) && no_group(toks, lo, p) {
                assert(no_group(toks, lo, pos));
                lemma_merge_join(toks, lo, pos - 1, pos + 1, pos + 1);
                lemma_merge_join(toks, pos + 1, pos + 1, pos + 1, pos + 1);
            }
            lemma_postfix(toks, file, e2, p, pec, lo);
        }
    }
}

spec fn ctx_fa(pec: ErrorContext) -> ErrorContext {
    ctx_while(pec, "a filed access expression")
}

pub(crate) proof fn lemma_atom(toks: Seq<Token>, file: FileId, pos: int, pec: ErrorContext)
    requires
        0 <= pos,
    ensures
        atom_at(toks, file, pos, pec) matches Ok((e, p)) ==> pos < p <= toks.len() && (ordered(toks) && no_group(
            toks,
            pos,
            p,
        ) ==> expr_fc(e) == ends(toks, pos, p)),
    decreases toks.len() - pos, 0int,
{
    if 0 <= pos < toks.len() {
        let t = toks[pos];
        if ordered(toks) {
            lemma_merge_join(toks, pos, pos, pos, pos);
        }
        match t.kind {
            TokenKind::Identifier(n) => {
                lemma_postfix(toks, file, Expression::Variable(Identifier(t.fc, n)), pos + 1, pec, pos);
            },
            TokenKind::IntegerLiteral(i) => {
                lemma_postfix(
                    toks,
                    file,
                    Expression::Literal(Literal::Integer(t.fc, i)),
                    pos + 1,
                    pec,
                    pos,
                );
            },
            TokenKind::StringLiteral(s) => {
                lemma_postfix(
                    toks,
                    file,
                    Expression::Literal(Literal::String(t.fc, s)),
                    pos + 1,
                    pec,
                    pos,
                );
            },
            TokenKind::BracketOpen => {
                assert(!no_group(toks, pos, pos + 1));
                if let Ok((name, p)) = ident_at(
                    toks,
                    file,
                    pos + 1,
                    ctx_while(pec, "a type inside a concentration expression"),
                ) {
                    if p < toks.len() {
                        lemma_postfix(toks, file, Expression::Concentration(name), p + 1, pec, pos);
                    }
                }
            },
            TokenKind::ParenOpen => {
                lemma_expr(toks, file, pos + 1, pec);
                if let Ok((v, p)) = expr_at(toks, file, pos + 1, pec) {
                    if p < toks.len() {
                        lemma_postfix(toks, file, v, p + 1, pec, pos);
                    }
                }
            },
            TokenKind::OpMinus => {
                lemma_atom(toks, file, pos + 1, pec);
                if let Ok((rhs, p)) = atom_at(toks, file, pos + 1, pec) {
                    let e = Expression::PrefixOp {
                        op: (t.fc, PrefixOperator::Neg),
                        expr: Box::new(rhs),
                    };
                    if ordered(toks) && no_group(toks, pos, p) {
                        assert(no_group(toks, pos + 1, p));
                        lemma_merge_join(toks, pos, pos, pos + 1, p - 1);
                    }
                    lemma_postfix(toks, file, e, p, pec, pos);
                }
            },
            _ => {},
        }
    }
}

proof fn lemma_infix(
    toks: Seq<Token>,
    file: FileId,
    lhs: Expression,
    pos: int,
    pec: ErrorContext,
    lo: int,
)
    requires
        0 <= lo < pos <= toks.len(),
        ordered(toks) && no_group(toks, lo, pos) ==> expr_fc(lhs) == ends(toks, lo, pos),
    ensures
        infix_at(toks, file, lhs, pos, pec) matches Ok((e, p)) ==> pos <= p <= toks.len() && (
        ordered(toks) && no_group(toks, lo, p) ==> expr_fc(e) == ends(toks, lo, p)),
    decreases toks.len() - pos, 2int,
{
    if 0 <= pos < toks.len() && infix_op_of(toks[pos].kind) is Some {
        let op = (toks[pos].fc, infix_op_of(toks[pos].kind)->0);
        lemma_atom(toks, file, pos + 1, pec);
        if let Ok((rhs, q)) = atom_at(toks, file, pos + 1, pec) {
            let e = Expression::InfixOp { op, lhs: Box::new(lhs), rhs: Box::new(rhs) };
            if ordered(toks) && no_group(toks, lo, q) {
                assert(no_group(toks, lo, pos));
                assert(no_group(toks, pos + 1, q));
                lemma_merge_join(toks, lo, pos - 1, pos + 1, q - 1);
            }
            lemma_infix(toks, file, e, q, pec, lo);
        }
    }
}

pub(crate) proof fn lemma_expr(toks: Seq<Token>, file: FileId, pos: int, pec: ErrorContext)
    requires
        0 <= pos,
    ensures
        expr_at(toks, file, pos, pec) matches Ok((e, p)) ==> pos < p <= toks.len() && (ordered(toks) && no_group(
            toks,
            pos,
            p,
        ) ==> expr_fc(e) == ends(toks, pos, p)),
    decreases toks.len() - pos, 1int,
{
    lemma_atom(toks, file, pos, pec);
    if let Ok((e, p)) = atom_at(toks, file, pos, pec) {
        lemma_infix(toks, file, e, p, pec, pos);
    }
}

pub(crate) proof fn lemma_binding(toks: Seq<Token>, file: FileId, pos: int, pec: ErrorContext)
    requires
        0 <= pos,
    ensures
        binding_at(toks, file, pos, pec) matches Ok((b, p)) ==> pos < p <= toks.len() && (ordered(
            toks,
        ) ==> b.fc == ends(toks, pos, p)),
{
    if 0 <= pos < toks.len() && ordered(toks) {
        lemma_merge_join(toks, pos, pos, pos, pos);
    }
}

/// Every element that `el` parses consumes at least one token.
pub open spec fn advances<E: ElementParser>(toks: Seq<Token>, file: FileId, el: E) -> bool {
    forall|q: int|
        0 <= q ==> (#[trigger] el.element_at(toks, file, q) matches Ok((_, p)) ==> q < p
            <= toks.len())
}

pub(crate) proof fn lemma_typed_advances(toks: Seq<Token>, file: FileId, el: TypedPair)
    ensures
        advances(toks, file, el),
{
}

pub(crate) proof fn lemma_binding_advances(toks: Seq<Token>, file: FileId, el: BindingElement)
    ensures
        advances(toks, file, el),
{
    assert forall|q: int| 0 <= q implies (#[trigger] el.element_at(toks, file, q) matches Ok((_, p))
        ==> q < p <= toks.len()) by {
        lemma_binding(toks, file, q, el.ctx);
    }
}

pub(crate) proof fn lemma_named_advances(toks: Seq<Token>, file: FileId, el: NamedExpr)
    ensures
        advances(toks, file, el),
{
    assert forall|q: int| 0 <= q implies (#[trigger] el.element_at(toks, file, q) matches Ok((_, p))
        ==> q < p <= toks.len()) by {
        if let Ok((id, p)) = ident_at(toks, file, q, el.ident_ctx) {
            if let Ok((colon_fc, p2)) = punct_at(toks, file, p, Punct::Colon, el.colon_ctx) {
                lemma_expr(
                    toks,
                    file,
                    p2,
                    ctx_while(
                        ctx_start(ctx_empty(), colon_fc, "beginning of expression"),
                        "an expression",
                    ),
                );
            }
        }
    }
}

pub(crate) proof fn lemma_list_rest<E: ElementParser>(
    toks: Seq<Token>,
    file: FileId,
    start: FC,
    acc: Seq<E::Out>,
    pos: int,
    close: Punct,
    sep: Punct,
    sep_ctx: ErrorContext,
    el: E,
)
    requires
        0 <= pos,
        advances(toks, file, el),
    ensures
        list_rest(toks, file, start, acc, pos, close, sep, sep_ctx, el) matches Ok((fc, _, p))
            ==> pos < p <= toks.len() && fc == merge_fc(start, toks[p - 1].fc),
    decreases toks.len() - pos,
{
    if !at_punct(toks, pos, close) {
        if let Ok((v, p)) = el.element_at(toks, file, pos) {
            if 0 <= p < toks.len() && !is_punct(toks[p].kind, close)
                && is_punct(toks[p].kind, sep) && pos <= p {
                lemma_list_rest(toks, file, start, acc.push(v), p + 1, close, sep, sep_ctx, el);
            }
        }
    }
}

pub(crate) proof fn lemma_list<E: ElementParser>(
    toks: Seq<Token>,
    file: FileId,
    pos: int,
    open: Punct,
    close: Punct,
    sep: Punct,
    open_ctx: ErrorContext,
    sep_ctx: ErrorContext,
    el: E,
)
    requires
        0 <= pos,
        advances(toks, file, el),
    ensures
        list_at(toks, file, pos, open, close, sep, open_ctx, sep_ctx, el) matches Ok((fc, _, p))
            ==> pos < p <= toks.len() && fc == ends(toks, pos, p),
{
    if let Ok((start, p)) = punct_at(toks, file, pos, open, open_ctx) {
        lemma_list_rest(toks, file, start, Seq::empty(), p, close, sep, sep_ctx, el);
    }
}

proof fn lemma_product(toks: Seq<Token>, file: FileId, pos: int, pec: ErrorContext)
    requires
        ordered(toks),
        0 <= pos,
    ensures
        product_at(toks, file, pos, pec) matches Ok((v, p)) ==> pos < p <= toks.len() && v.fc
            == ends(toks, pos, p),
{
    let quantity: Option<(FC, u64)> = if 0 <= pos < toks.len() {
        match toks[pos].kind {
            TokenKind::IntegerLiteral(l) => Some((toks[pos].fc, l)),
            _ => None,
        }
    } else {
        None
    };
    let after_quantity = if quantity is Some { pos + 1 } else { pos };
    if let Ok((name, p)) = ident_at(toks, file, after_quantity, ctx_while(pec, "a product")) {
        let start = match quantity {
            Some((fc, _)) => fc,
            None => name.0,
        };
        let ec = ctx_while(ctx_start(ctx_empty(), start, "product"), "a product");
        let el = named_fields(ec, "a product field");
        lemma_named_advances(toks, file, el);
        lemma_list(
            toks,
            file,
            p,
            Punct::ParenOpen,
            Punct::ParenClose,
            Punct::Comma,
            ctx_expected(ctx_while(ec, "the start of product fields"), "`(`"),
            ctx_expected(ctx_while(ec, "a product field list"), "`,` or `)`"),
            el,
        );
        if let Ok((fc, fields, p2)) = list_at(
            toks,
            file,
            p,
            Punct::ParenOpen,
            Punct::ParenClose,
            Punct::Comma,
            ctx_expected(ctx_while(ec, "the start of product fields"), "`(`"),
            ctx_expected(ctx_while(ec, "a product field list"), "`,` or `)`"),
            el,
        ) {
            lemma_merge_join(toks, pos, pos, p, p2 - 1);
        }
        lemma_merge_join(toks, pos, pos, p - 1, p - 1);
    }
}

/// `acc` holds products; the first spans `[s, f)` and the last `[a, pos)`.
proof fn lemma_products_rest(
    toks: Seq<Token>,
    file: FileId,
    s: int,
    f: int,
    acc: Seq<ProductV>,
    a: int,
    pos: int,
    ctx: ErrorContext,
)
    requires
        ordered(toks),
        0 <= s <= a < pos <= toks.len(),
        s < f <= pos,
        acc.len() > 0,
        acc[0].fc == ends(toks, s, f),
        acc.last().fc == ends(toks, a, pos),
        acc.len() == 1 ==> a == s && f == pos,
        acc.len() > 1 ==> f <= a,
    ensures
        products_rest(toks, file, acc, pos, ctx) matches Ok((fc, _, p)) ==> pos <= p <= toks.len()
            && fc == ends(toks, s, p),
    decreases toks.len() - pos,
{
    if at_punct(toks, pos, Punct::Plus) {
        lemma_product(toks, file, pos + 1, ctx);
        if let Ok((v, p)) = product_at(toks, file, pos + 1, ctx) {
            assert(acc.push(v)[0] == acc[0]);
            lemma_products_rest(toks, file, s, f, acc.push(v), pos + 1, p, ctx);
        }
    } else if acc.len() > 1 {
        lemma_merge_join(toks, s, f - 1, a, pos - 1);
    }
}

proof fn lemma_product_list(toks: Seq<Token>, file: FileId, pos: int, pec: ErrorContext)
    requires
        ordered(toks),
        0 <= pos,
    ensures
        product_list_at(toks, file, pos, pec) matches Ok((fc, _, p)) ==> pos < p <= toks.len()
            && fc == ends(toks, pos, p),
{
    if 0 <= pos < toks.len() {
        lemma_merge_join(toks, pos, pos, pos, pos);
        if !(toks[pos].kind is Nothing) {
            let ctx = ctx_while(
                ctx_start(ctx_empty(), toks[pos].fc, "product list"),
                "a product list",
            );
            lemma_product(toks, file, pos, ctx);
            if let Ok((v, p)) = product_at(toks, file, pos, ctx) {
                lemma_products_rest(toks, file, pos, p, seq![v], pos, p, ctx);
            }
        }
    }
}

proof fn lemma_statement(toks: Seq<Token>, file: FileId, pos: int, pec: ErrorContext)
    requires
        ordered(toks),
        0 <= pos,
    ensures
        statement_at(toks, file, pos, pec) matches Ok((st, p)) ==> pos < p <= toks.len() && match st {
            GeneStatementV::Call { fc, .. } => fc == ends(toks, pos, p),
            GeneStatementV::Express(fc, _) => fc == ends(toks, pos, p),
        },
{
    if 0 <= pos < toks.len() {
        let t = toks[pos];
        match t.kind {
            TokenKind::Call => {
                let ec = ctx_start(ctx_empty(), t.fc, "call statement");
                if let Ok((name, p)) = ident_at(toks, file, pos + 1, ctx_while(ec, "a call statement")) {
                    let el = named_fields(ec, "a named argument");
                    let oc = ctx_expected(ctx_while(ec, "a call statement parameter list"), "`(`");
                    let sc = ctx_expected(ctx_while(ec, "a call statement parameter list"), "`,` or `)`");
                    lemma_named_advances(toks, file, el);
                    lemma_list(
                        toks,
                        file,
                        p,
                        Punct::ParenOpen,
                        Punct::ParenClose,
                        Punct::Comma,
                        oc,
                        sc,
                        el,
                    );
                    if let Ok((end, arguments, p2)) = list_at(
                        toks,
                        file,
                        p,
                        Punct::ParenOpen,
                        Punct::ParenClose,
                        Punct::Comma,
                        oc,
                        sc,
                        el,
                    ) {
                        lemma_merge_join(toks, pos, pos, p, p2 - 1);
                    }
                }
            },
            TokenKind::Express => {
                let c = ctx_while(
                    ctx_start(ctx_empty(), t.fc, "express statement"),
                    "an express statement",
                );
                lemma_product(toks, file, pos + 1, c);
                if let Ok((prod, p)) = product_at(toks, file, pos + 1, c) {
                    lemma_merge_join(toks, pos, pos, pos + 1, p - 1);
                }
            },
            _ => {},
        }
    }
}

proof fn lemma_block_rest(
    toks: Seq<Token>,
    file: FileId,
    start: FC,
    acc: Seq<GeneStatementV>,
    pos: int,
    pec: ErrorContext,
)
    requires
        ordered(toks),
        0 <= pos,
    ensures
        block_rest(toks, file, start, acc, pos, pec) matches Ok((fc, _, p)) ==> pos < p
            <= toks.len() && fc == merge_fc(start, toks[p - 1].fc),
    decreases toks.len() - pos,
{
    if !at_punct(toks, pos, Punct::BraceClose) {
        lemma_statement(toks, file, pos, pec);
        if let Ok((st, p)) = statement_at(toks, file, pos, pec) {
            lemma_block_rest(toks, file, start, acc.push(st), p, pec);
        }
    }
}

proof fn lemma_block(
    toks: Seq<Token>,
    file: FileId,
    pos: int,
    open_ctx: ErrorContext,
    pec: ErrorContext,
)
    requires
        ordered(toks),
        0 <= pos,
    ensures
        block_at(toks, file, pos, open_ctx, pec) matches Ok((fc, _, p)) ==> pos < p <= toks.len()
            && fc == ends(toks, pos, p),
{
    if let Ok((start, p)) = punct_at(toks, file, pos, Punct::BraceOpen, open_ctx) {
        lemma_block_rest(toks, file, start, seq![], p, pec);
    }
}

pub(crate) proof fn lemma_statement_moves(toks: Seq<Token>, file: FileId, pos: int, pec: ErrorContext)
    requires
        0 <= pos,
    ensures
        statement_at(toks, file, pos, pec) matches Ok((_, p)) ==> pos < p <= toks.len(),
{
    if 0 <= pos < toks.len() {
        let t = toks[pos];
        match t.kind {
            TokenKind::Call => {
                let ec = ctx_start(ctx_empty(), t.fc, "call statement");
                if let Ok((name, p)) = ident_at(toks, file, pos + 1, ctx_while(ec, "a call statement")) {
                    let el = named_fields(ec, "a named argument");
                    lemma_named_advances(toks, file, el);
                    lemma_list(
                        toks,
                        file,
                        p,
                        Punct::ParenOpen,
                        Punct::ParenClose,
                        Punct::Comma,
                        ctx_expected(ctx_while(ec, "a call statement parameter list"), "`(`"),
                        ctx_expected(ctx_while(ec, "a call statement parameter list"), "`,` or `)`"),
                        el,
                    );
                }
            },
            TokenKind::Express => {
                lemma_product_moves(
                    toks,
                    file,
                    pos + 1,
                    ctx_while(ctx_start(ctx_empty(), t.fc, "express statement"), "an express statement"),
                );
            },
            _ => {},
        }
    }
}

pub(crate) proof fn lemma_product_moves(toks: Seq<Token>, file: FileId, pos: int, pec: ErrorContext)
    requires
        0 <= pos,
    ensures
        product_at(toks, file, pos, pec) matches Ok((_, p)) ==> pos < p <= toks.len(),
{
    let quantity: Option<(FC, u64)> = if 0 <= pos < toks.len() {
        match toks[pos].kind {
            TokenKind::IntegerLiteral(l) => Some((toks[pos].fc, l)),
            _ => None,
        }
    } else {
        None
    };
    let after_quantity = if quantity is Some { pos + 1 } else { pos };
    if let Ok((name, p)) = ident_at(toks, file, after_quantity, ctx_while(pec, "a product")) {
        let start = match quantity {
            Some((fc, _)) => fc,
            None => name.0,
        };
        let ec = ctx_while(ctx_start(ctx_empty(), start, "product"), "a product");
        let el = named_fields(ec, "a product field");
        lemma_named_advances(toks, file, el);
        lemma_list(
            toks,
            file,
            p,
            Punct::ParenOpen,
            Punct::ParenClose,
            Punct::Comma,
            ctx_expected(ctx_while(ec, "the start of product fields"), "`(`"),
            ctx_expected(ctx_while(ec, "a product field list"), "`,` or `)`"),
            el,
        );
    }
}

pub(crate) proof fn lemma_block_moves(
    toks: Seq<Token>,
    file: FileId,
    pos: int,
    open_ctx: ErrorContext,
    pec: ErrorContext,
)
    requires
        0 <= pos,
    ensures
        block_at(toks, file, pos, open_ctx, pec) matches Ok((_, _, p)) ==> pos < p <= toks.len(),
{
    if let Ok((start, p)) = punct_at(toks, file, pos, Punct::BraceOpen, open_ctx) {
        lemma_block_rest_moves(toks, file, start, seq![], p, pec);
    }
}

proof fn lemma_block_rest_moves(
    toks: Seq<Token>,
    file: FileId,
    start: FC,
    acc: Seq<GeneStatementV>,
    pos: int,
    pec: ErrorContext,
)
    requires
        0 <= pos,
    ensures
        block_rest(toks, file, start, acc, pos, pec) matches Ok((_, _, p)) ==> pos < p
            <= toks.len(),
    decreases toks.len() - pos,
{
    if !at_punct(toks, pos, Punct::BraceClose) {
        lemma_statement_moves(toks, file, pos, pec);
        if let Ok((st, p)) = statement_at(toks, file, pos, pec) {
            lemma_block_rest_moves(toks, file, start, acc.push(st), p, pec);
        }
    }
}

/// A binding spans exactly the tokens it was parsed from.
pub proof fn binding_spans_its_tokens(toks: Seq<Token>, file: FileId, pos: int, pec: ErrorContext)
    requires
        ordered(toks),
        0 <= pos,
    ensures
        binding_at(toks, file, pos, pec) matches Ok((b, p)) ==> b.fc == span_of(toks, pos, p),
{
    lemma_binding(toks, file, pos, pec);
    if let Ok((b, p)) = binding_at(toks, file, pos, pec) {
        lemma_span_of(toks, pos, p);
    }
}

/// An expression spans exactly the tokens it was parsed from, when none of
/// them is a `(` or a `[`: the grouping tokens give no node of their own.
pub proof fn expression_spans_its_tokens(
    toks: Seq<Token>,
    file: FileId,
    pos: int,
    pec: ErrorContext,
)
    requires
        ordered(toks),
        0 <= pos,
    ensures
        expr_at(toks, file, pos, pec) matches Ok((e, p)) ==> (no_group(toks, pos, p) ==> expr_fc(e)
            == span_of(toks, pos, p)),
{
    lemma_expr(toks, file, pos, pec);
    if let Ok((e, p)) = expr_at(toks, file, pos, pec) {
        lemma_span_of(toks, pos, p);
    }
}

/// A product spans exactly the tokens it was parsed from.
pub proof fn product_spans_its_tokens(toks: Seq<Token>, file: FileId, pos: int, pec: ErrorContext)
    requires
        ordered(toks),
        0 <= pos,
    ensures
        product_at(toks, file, pos, pec) matches Ok((v, p)) ==> v.fc == span_of(toks, pos, p),
{
    lemma_product(toks, file, pos, pec);
    if let Ok((v, p)) = product_at(toks, file, pos, pec) {
        lemma_span_of(toks, pos, p);
    }
}

/// A product list, `nothing` included, spans exactly the tokens it was
/// parsed from.
pub proof fn product_list_spans_its_tokens(
    toks: Seq<Token>,
    file: FileId,
    pos: int,
    pec: ErrorContext,
)
    requires
        ordered(toks),
        0 <= pos,
    ensures
        product_list_at(toks, file, pos, pec) matches Ok((fc, _, p)) ==> fc == span_of(toks, pos, p),
{
    lemma_product_list(toks, file, pos, pec);
    if let Ok((fc, _, p)) = product_list_at(toks, file, pos, pec) {
        lemma_span_of(toks, pos, p);
    }
}

/// A gene statement spans exactly the tokens it was parsed from.
pub proof fn statement_spans_its_tokens(toks: Seq<Token>, file: FileId, pos: int, pec: ErrorContext)
    requires
        ordered(toks),
        0 <= pos,
    ensures
        statement_at(toks, file, pos, pec) matches Ok((st, p)) ==> match st {
            GeneStatementV::Call { fc, .. } => fc == span_of(toks, pos, p),
            GeneStatementV::Express(fc, _) => fc == span_of(toks, pos, p),
        },
{
    lemma_statement(toks, file, pos, pec);
    if let Ok((st, p)) = statement_at(toks, file, pos, pec) {
        lemma_span_of(toks, pos, p);
    }
}

/// A record item spans exactly the tokens it was parsed from.
pub proof fn record_spans_its_tokens(toks: Seq<Token>, file: FileId, pos: int)
    requires
        ordered(toks),
        0 <= pos < toks.len(),
    ensures
        record_at(toks, file, pos) matches Ok((r, p)) ==> pos < p <= toks.len() && r.fc == span_of(
            toks,
            pos,
            p,
        ),
{
    let t = toks[pos];
    let ec = ctx_while(ctx_start(ctx_empty(), t.fc, "record definition"), "a record definition");
    if let Ok((name, p)) = ident_at(toks, file, pos + 1, ec) {
        let fec = ctx_while(ctx_start(ec, t.fc, "field list"), "the field list of a record item");
        let el = typed_fields(ec, "a record field", "a record field");
        let oc = ctx_expected(fec, "`(`");
        let sc = ctx_expected(fec, "`,` or `)`");
        lemma_typed_advances(toks, file, el);
        lemma_list(toks, file, p, Punct::ParenOpen, Punct::ParenClose, Punct::Comma, oc, sc, el);
        if let Ok((fc, _, p2)) = list_at(
            toks,
            file,
            p,
            Punct::ParenOpen,
            Punct::ParenClose,
            Punct::Comma,
            oc,
            sc,
            el,
        ) {
            lemma_merge_join(toks, pos, pos, p, p2 - 1);
            lemma_span_of(toks, pos, p2);
        }
        lemma_span_of(toks, pos, p);
    }
}

/// An extern item spans exactly the tokens it was parsed from.
pub proof fn extern_spans_its_tokens(toks: Seq<Token>, file: FileId, pos: int)
    requires
        ordered(toks),
        0 <= pos < toks.len(),
    ensures
        extern_at(toks, file, pos) matches Ok((x, p)) ==> pos < p <= toks.len() && x.fc == span_of(
            toks,
            pos,
            p,
        ),
{
    let t = toks[pos];
    let ec = ctx_while(ctx_start(ctx_empty(), t.fc, "extern item"), "an extern item");
    if let Ok((name, p)) = ident_at(toks, file, pos + 1, ec) {
        let el = typed_fields(ec, "an extern item parameter", "an extern parameter description");
        let oc = ctx_expected(ctx_while(ec, "the parameter list of an extern item"), "`(`");
        let sc = ctx_expected(ctx_while(ec, "the parameter list of an extern item"), "`,` or `)`");
        lemma_typed_advances(toks, file, el);
        lemma_list(toks, file, p, Punct::ParenOpen, Punct::ParenClose, Punct::Comma, oc, sc, el);
        if let Ok((fc, _, p2)) = list_at(
            toks,
            file,
            p,
            Punct::ParenOpen,
            Punct::ParenClose,
            Punct::Comma,
            oc,
            sc,
            el,
        ) {
            lemma_merge_join(toks, pos, pos, p, p2 - 1);
            lemma_span_of(toks, pos, p2);
        }
    }
}

/// A gene item spans exactly the tokens it was parsed from.
pub proof fn gene_spans_its_tokens(toks: Seq<Token>, file: FileId, pos: int)
    requires
        ordered(toks),
        0 <= pos < toks.len(),
    ensures
        gene_at(toks, file, pos) matches Ok((g, p)) ==> pos < p <= toks.len() && g.fc == span_of(
            toks,
            pos,
            p,
        ),
{
    let t = toks[pos];
    let ec = ctx_while(ctx_start(ctx_empty(), t.fc, "gene item"), "a gene item");
    let el = BindingElement { ctx: ec };
    let oc = ctx_expected(ctx_while(ec, "a gene factor list"), "`(`");
    let sc = ctx_expected(ctx_while(ec, "a gene factor list"), "`,` or `)`");
    lemma_binding_advances(toks, file, el);
    lemma_list(toks, file, pos + 1, Punct::ParenOpen, Punct::ParenClose, Punct::Comma, oc, sc, el);
    if let Ok((_, factors, p)) = list_at(
        toks,
        file,
        pos + 1,
        Punct::ParenOpen,
        Punct::ParenClose,
        Punct::Comma,
        oc,
        sc,
        el,
    ) {
        if 0 <= p < toks.len() {
            let mut p2 = p;
            if toks[p].kind is When {
                let wec = ctx_start(ctx_while(ec, "a when clause"), toks[p].fc, "when clause");
                lemma_expr(toks, file, p + 1, wec);
                if let Ok((e, q)) = expr_at(toks, file, p + 1, wec) {
                    p2 = q;
                }
            }
            let bc = ctx_expected(ctx_while(ec, "a gene statement list"), "`{`");
            lemma_block(toks, file, p2, bc, ec);
            if let Ok((end, body, p3)) = block_at(toks, file, p2, bc, ec) {
                lemma_merge_join(toks, pos, pos, p2, p3 - 1);
                lemma_span_of(toks, pos, p3);
            }
        }
    }
}

/// A rule item spans exactly the tokens it was parsed from, its guard
/// included.
pub proof fn rule_spans_its_tokens(toks: Seq<Token>, file: FileId, pos: int)
    requires
        ordered(toks),
        0 <= pos < toks.len(),
    ensures
        rule_at(toks, file, pos) matches Ok((r, p)) ==> pos < p <= toks.len() && r.fc == span_of(
            toks,
            pos,
            p,
        ),
{
    let t = toks[pos];
    let ec = ctx_while(ctx_start(ctx_empty(), t.fc, "rule item"), "a rule item");
    let el = BindingElement { ctx: ec };
    let oc = ctx_expected(ctx_while(ec, "a rule reactant list"), "`(`");
    let sc = ctx_expected(ctx_while(ec, "a rule reactant list"), "`,` or `)`");
    lemma_binding_advances(toks, file, el);
    lemma_list(toks, file, pos + 1, Punct::ParenOpen, Punct::ParenClose, Punct::Comma, oc, sc, el);
    if let Ok((_, reactants, p)) = list_at(
        toks,
        file,
        pos + 1,
        Punct::ParenOpen,
        Punct::ParenClose,
        Punct::Comma,
        oc,
        sc,
        el,
    ) {
        let ac = ctx_expected(ctx_while(ec, "a rule reaction description"), "`->`");
        if let Ok((_, p2)) = punct_at(toks, file, p, Punct::ArrowR, ac) {
            lemma_product_list(toks, file, p2, ec);
            if let Ok((product_fc, products, p3)) = product_list_at(toks, file, p2, ec) {
                if 0 <= p3 < toks.len() && toks[p3].kind is When {
                    let wec = ctx_start(ctx_while(ec, "a when clause"), toks[p3].fc, "when clause");
                    lemma_expr(toks, file, p3 + 1, wec);
                    if let Ok((e, p4)) = expr_at(toks, file, p3 + 1, wec) {
                        lemma_span_of(toks, pos, p4);
                    }
                } else {
                    lemma_merge_join(toks, pos, pos, p2, p3 - 1);
                    lemma_span_of(toks, pos, p3);
                }
            }
        }
    }
}

/// `r` was parsed from the tokens in `[lo, hi)` and spans exactly them.
pub open spec fn record_from(toks: Seq<Token>, file: FileId, r: RecordV, lo: int, hi: int) -> bool {
    &&& 0 <= lo < hi <= toks.len()
    &&& record_at(toks, file, lo) == Ok::<(RecordV, int), crate::error::Error>((r, hi))
    &&& r.fc == span_of(toks, lo, hi)
}

/// `r` was parsed from some run of the tokens, as above.
pub open spec fn record_spanned(toks: Seq<Token>, file: FileId, r: RecordV) -> bool {
    exists|lo: int, hi: int| #[trigger] record_from(toks, file, r, lo, hi)
}

/// `x` was parsed from the tokens in `[lo, hi)` and spans exactly them.
pub open spec fn extern_from(toks: Seq<Token>, file: FileId, x: ExternV, lo: int, hi: int) -> bool {
    &&& 0 <= lo < hi <= toks.len()
    &&& extern_at(toks, file, lo) == Ok::<(ExternV, int), crate::error::Error>((x, hi))
    &&& x.fc == span_of(toks, lo, hi)
}

/// `x` was parsed from some run of the tokens, as above.
pub open spec fn extern_spanned(toks: Seq<Token>, file: FileId, x: ExternV) -> bool {
    exists|lo: int, hi: int| #[trigger] extern_from(toks, file, x, lo, hi)
}

/// `g` was parsed from the tokens in `[lo, hi)` and spans exactly them.
pub open spec fn gene_from(toks: Seq<Token>, file: FileId, g: GeneV, lo: int, hi: int) -> bool {
    &&& 0 <= lo < hi <= toks.len()
    &&& gene_at(toks, file, lo) == Ok::<(GeneV, int), crate::error::Error>((g, hi))
    &&& g.fc == span_of(toks, lo, hi)
}

/// `g` was parsed from some run of the tokens, as above.
pub open spec fn gene_spanned(toks: Seq<Token>, file: FileId, g: GeneV) -> bool {
    exists|lo: int, hi: int| #[trigger] gene_from(toks, file, g, lo, hi)
}

/// `r` was parsed from the tokens in `[lo, hi)` and spans exactly them.
pub open spec fn rule_from(toks: Seq<Token>, file: FileId, r: RuleV, lo: int, hi: int) -> bool {
    &&& 0 <= lo < hi <= toks.len()
    &&& rule_at(toks, file, lo) == Ok::<(RuleV, int), crate::error::Error>((r, hi))
    &&& r.fc == span_of(toks, lo, hi)
}

/// `r` was parsed from some run of the tokens, as above.
pub open spec fn rule_spanned(toks: Seq<Token>, file: FileId, r: RuleV) -> bool {
    exists|lo: int, hi: int| #[trigger] rule_from(toks, file, r, lo, hi)
}

/// Every item of `f` satisfies the predicate of its kind above.
pub open spec fn items_spanned(toks: Seq<Token>, file: FileId, f: FileV) -> bool {
    &&& forall|i: int| 0 <= i < f.records.len() ==> record_spanned(toks, file, #[trigger] f.records[i])
    &&& forall|i: int| 0 <= i < f.externs.len() ==> extern_spanned(toks, file, #[trigger] f.externs[i])
    &&& forall|i: int| 0 <= i < f.genes.len() ==> gene_spanned(toks, file, #[trigger] f.genes[i])
    &&& forall|i: int| 0 <= i < f.rules.len() ==> rule_spanned(toks, file, #[trigger] f.rules[i])
}

proof fn lemma_step_record(toks: Seq<Token>, file: FileId, acc: FileV, pos: int)
    requires
        ordered(toks),
        0 <= pos < toks.len(),
        items_spanned(toks, file, acc),
    ensures
        record_at(toks, file, pos) matches Ok((r, _)) ==> items_spanned(
            toks,
            file,
            FileV { records: acc.records.push(r), ..acc },
        ),
{
    record_spans_its_tokens(toks, file, pos);
    if let Ok((r, p)) = record_at(toks, file, pos) {
        assert(record_from(toks, file, r, pos, p));
        let next = FileV { records: acc.records.push(r), ..acc };
        assert forall|i: int| 0 <= i < next.records.len() implies record_spanned(
            toks,
            file,
            #[trigger] next.records[i],
        ) by {
            if i < acc.records.len() {
                assert(next.records[i] == acc.records[i]);
            }
        }
    }
}

proof fn lemma_step_extern(toks: Seq<Token>, file: FileId, acc: FileV, pos: int)
    requires
        ordered(toks),
        0 <= pos < toks.len(),
        items_spanned(toks, file, acc),
    ensures
        extern_at(toks, file, pos) matches Ok((x, _)) ==> items_spanned(
            toks,
            file,
            FileV { externs: acc.externs.push(x), ..acc },
        ),
{
    extern_spans_its_tokens(toks, file, pos);
    if let Ok((x, p)) = extern_at(toks, file, pos) {
        assert(extern_from(toks, file, x, pos, p));
        let next = FileV { externs: acc.externs.push(x), ..acc };
        assert forall|i: int| 0 <= i < next.externs.len() implies extern_spanned(
            toks,
            file,
            #[trigger] next.externs[i],
        ) by {
            if i < acc.externs.len() {
                assert(next.externs[i] == acc.externs[i]);
            }
        }
    }
}

proof fn lemma_step_gene(toks: Seq<Token>, file: FileId, acc: FileV, pos: int)
    requires
        ordered(toks),
        0 <= pos < toks.len(),
        items_spanned(toks, file, acc),
    ensures
        gene_at(toks, file, pos) matches Ok((g, _)) ==> items_spanned(
            toks,
            file,
            FileV { genes: acc.genes.push(g), ..acc },
        ),
{
    gene_spans_its_tokens(toks, file, pos);
    if let Ok((g, p)) = gene_at(toks, file, pos) {
        assert(gene_from(toks, file, g, pos, p));
        let next = FileV { genes: acc.genes.push(g), ..acc };
        assert forall|i: int| 0 <= i < next.genes.len() implies gene_spanned(
            toks,
            file,
            #[trigger] next.genes[i],
        ) by {
            if i < acc.genes.len() {
                assert(next.genes[i] == acc.genes[i]);
            }
        }
    }
}

proof fn lemma_step_rule(toks: Seq<Token>, file: FileId, acc: FileV, pos: int)
    requires
        ordered(toks),
        0 <= pos < toks.len(),
        items_spanned(toks, file, acc),
    ensures
        rule_at(toks, file, pos) matches Ok((r, _)) ==> items_spanned(
            toks,
            file,
            FileV { rules: acc.rules.push(r), ..acc },
        ),
{
    rule_spans_its_tokens(toks, file, pos);
    if let Ok((r, p)) = rule_at(toks, file, pos) {
        assert(rule_from(toks, file, r, pos, p));
        let next = FileV { rules: acc.rules.push(r), ..acc };
        assert forall|i: int| 0 <= i < next.rules.len() implies rule_spanned(
            toks,
            file,
            #[trigger] next.rules[i],
        ) by {
            if i < acc.rules.len() {
                assert(next.rules[i] == acc.rules[i]);
            }
        }
    }
}

proof fn lemma_items(toks: Seq<Token>, file: FileId, acc: FileV, pos: int)
    requires
        ordered(toks),
        0 <= pos <= toks.len(),
        items_spanned(toks, file, acc),
    ensures
        items_from(toks, file, acc, pos) matches Ok(f) ==> items_spanned(toks, file, f),
    decreases toks.len() - pos,
{
    if pos < toks.len() {
        match toks[pos].kind {
            TokenKind::Record => {
                lemma_step_record(toks, file, acc, pos);
                record_spans_its_tokens(toks, file, pos);
                if let Ok((r, p)) = record_at(toks, file, pos) {
                    lemma_items(toks, file, FileV { records: acc.records.push(r), ..acc }, p);
                }
            },
            TokenKind::Extern => {
                lemma_step_extern(toks, file, acc, pos);
                extern_spans_its_tokens(toks, file, pos);
                if let Ok((x, p)) = extern_at(toks, file, pos) {
                    lemma_items(toks, file, FileV { externs: acc.externs.push(x), ..acc }, p);
                }
            },
            TokenKind::Gene => {
                lemma_step_gene(toks, file, acc, pos);
                gene_spans_its_tokens(toks, file, pos);
                if let Ok((g, p)) = gene_at(toks, file, pos) {
                    lemma_items(toks, file, FileV { genes: acc.genes.push(g), ..acc }, p);
                }
            },
            TokenKind::Rule => {
                lemma_step_rule(toks, file, acc, pos);
                rule_spans_its_tokens(toks, file, pos);
                if let Ok((r, p)) = rule_at(toks, file, pos) {
                    lemma_items(toks, file, FileV { rules: acc.rules.push(r), ..acc }, p);
                }
            },
            _ => {},
        }
    }
}

/// Every item of a parsed file was parsed from a run of its tokens and
/// spans exactly that run.
pub proof fn file_items_span_their_tokens(toks: Seq<Token>, file: FileId)
    requires
        ordered(toks),
    ensures
        file_of(toks, file) matches Ok(f) ==> items_spanned(toks, file, f),
{
    lemma_items(toks, file, empty_file(), 0);
}

} // verus!
