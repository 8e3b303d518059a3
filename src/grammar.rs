//! The grammar as spec functions over a token sequence.
//!
//! Each production takes the tokens, the file they come from and a position,
//! and gives either the node together with the position after it, or the one
//! error at which parsing stops.
//!
//! Every production that succeeds consumes at least one token, which the
//! parser proves. Where a production goes on from the position another one
//! returned, it tests that the position moved forward, so that its
//! termination is evident; the other branch of that test is never taken.
use vstd::prelude::*;
use crate::span::{FC, FileId, merge_fc};
use crate::token::{Token, TokenKind, Punct, is_punct};
use crate::error::{Error, ErrorContext, ctx_empty, ctx_start, ctx_while, ctx_expected};
use crate::ast::{
    Binding, BindingAttribute, Expression, Identifier, InfixOperator, Literal, PrefixOperator, Type,
    ProductV, GeneStatementV, RecordV, ExternV, GeneV, RuleV, FileV,
};
use crate::parser::ElementParser;

verus! {

/// A node and the position after the tokens it was built from, or an error.
pub type Parsed<T> = Result<(T, int), Error>;

/// Whether the token at `pos` is the punctuation `p`.
pub open spec fn at_punct(toks: Seq<Token>, pos: int, p: Punct) -> bool {
    0 <= pos < toks.len() && is_punct(toks[pos].kind, p)
}

/// One required punctuation token: its span.
pub open spec fn punct_at(
    toks: Seq<Token>,
    file: FileId,
    pos: int,
    p: Punct,
    ctx: ErrorContext,
) -> Parsed<FC> {
    if 0 <= pos < toks.len() {
        if is_punct(toks[pos].kind, p) {
            Ok((toks[pos].fc, pos + 1))
        } else {
            Err(Error::UnexpectedToken(toks[pos].fc, ctx))
        }
    } else {
        Err(Error::UnexpectedEnd(file, ctx))
    }
}

/// One identifier token.
pub open spec fn ident_at(toks: Seq<Token>, file: FileId, pos: int, ctx: ErrorContext) -> Parsed<
    Identifier,
> {
    let c = ctx_expected(ctx, "an identifier");
    if 0 <= pos < toks.len() {
        match toks[pos].kind {
            TokenKind::Identifier(n) => Ok((Identifier(toks[pos].fc, n), pos + 1)),
            _ => Err(Error::UnexpectedToken(toks[pos].fc, c)),
        }
    } else {
        Err(Error::UnexpectedEnd(file, c))
    }
}

/// A type: one identifier.
pub open spec fn type_at(toks: Seq<Token>, file: FileId, pos: int, ctx: ErrorContext) -> Parsed<Type> {
    match ident_at(toks, file, pos, ctx_while(ctx, "a type")) {
        Ok((id, p)) => Ok((Type::Named(id), p)),
        Err(e) => Err(e),
    }
}

/// `n name`, `name`, or `source : name`.
pub open spec fn binding_at(toks: Seq<Token>, file: FileId, pos: int, pec: ErrorContext) -> Parsed<
    Binding,
> {
    let ec = ctx_while(pec, "a binding");
    if 0 <= pos < toks.len() {
        let t = toks[pos];
        let ec = ctx_start(ec, t.fc, "binding");
        match t.kind {
            TokenKind::IntegerLiteral(n) => match ident_at(toks, file, pos + 1, ec) {
                Ok((name, p)) => Ok(
                    (
                        Binding {
                            fc: merge_fc(t.fc, name.0),
                            name,
                            attr: Some(BindingAttribute::Quantity(t.fc, n)),
                        },
                        p,
                    ),
                ),
                Err(e) => Err(e),
            },
            TokenKind::Identifier(n) => {
                let id = Identifier(t.fc, n);
                if at_punct(toks, pos + 1, Punct::Colon) {
                    match ident_at(toks, file, pos + 2, ec) {
                        Ok((name, p)) => Ok(
                            (
                                Binding {
                                    fc: merge_fc(id.0, name.0),
                                    name,
                                    attr: Some(BindingAttribute::Name(id)),
                                },
                                p,
                            ),
                        ),
                        Err(e) => Err(e),
                    }
                } else {
                    Ok((Binding { fc: id.0, name: id, attr: None }, pos + 1))
                }
            },
            _ => Err(
                Error::UnexpectedToken(
                    t.fc,
                    ctx_expected(ctx_while(pec, "a record binding"), "a quantity or identifier"),
                ),
            ),
        }
    } else {
        Err(Error::UnexpectedEnd(file, ctx_expected(ec, "a quantity or identifier")))
    }
}

/// The infix operator that a token stands for, if any.
pub open spec fn infix_op_of(k: TokenKind) -> Option<InfixOperator> {
    match k {
        TokenKind::OpPlus => Some(InfixOperator::Add),
        TokenKind::OpMinus => Some(InfixOperator::Sub),
        TokenKind::OpStar => Some(InfixOperator::Mul),
        TokenKind::OpSlash => Some(InfixOperator::Div),
        TokenKind::OpEquals => Some(InfixOperator::Eq),
        TokenKind::OpNotEquals => Some(InfixOperator::Neq),
        TokenKind::OpLessThan => Some(InfixOperator::Lt),
        TokenKind::OpLessThanEqual => Some(InfixOperator::Lte),
        TokenKind::OpGreaterThan => Some(InfixOperator::Gt),
        TokenKind::OpGreaterThanEqual => Some(InfixOperator::Gte),
        _ => None,
    }
}

/// A run of `.field` suffixes after `e`, which starts at `pos`; each wraps
/// what came before.
pub open spec fn postfix_at(
    toks: Seq<Token>,
    file: FileId,
    e: Expression,
    pos: int,
    pec: ErrorContext,
) -> Parsed<Expression>
    decreases toks.len() - pos,
{
    if 0 <= pos < toks.len() && toks[pos].kind is Dot {
        match ident_at(toks, file, pos + 1, ctx_while(pec, "a filed access expression")) {
            Ok((name, p)) => postfix_at(
                toks,
                file,
                Expression::FieldAccess { base: Box::new(e), field_name: name },
                p,
                pec,
            ),
            Err(err) => Err(err),
        }
    } else {
        Ok((e, pos))
    }
}

/// An atom: a variable, a literal, `[Type]`, `(expr)` or `-atom`, followed
/// by its field accesses.
pub open spec fn atom_at(toks: Seq<Token>, file: FileId, pos: int, pec: ErrorContext) -> Parsed<
    Expression,
>
    decreases toks.len() - pos, 0int,
{
    if 0 <= pos < toks.len() {
        let t = toks[pos];
        let base: Parsed<Expression> = match t.kind {
            TokenKind::Identifier(n) => Ok((Expression::Variable(Identifier(t.fc, n)), pos + 1)),
            TokenKind::IntegerLiteral(i) => Ok(
                (Expression::Literal(Literal::Integer(t.fc, i)), pos + 1),
            ),
            TokenKind::StringLiteral(s) => Ok(
                (Expression::Literal(Literal::String(t.fc, s)), pos + 1),
            ),
            TokenKind::BracketOpen => match ident_at(
                toks,
                file,
                pos + 1,
                ctx_while(pec, "a type inside a concentration expression"),
            ) {
                Ok((name, p)) => match punct_at(
                    toks,
                    file,
                    p,
                    Punct::BracketClose,
                    ctx_expected(ctx_while(pec, "a concentration expression"), "`]`"),
                ) {
                    Ok((_, p2)) => Ok((Expression::Concentration(name), p2)),
                    Err(e) => Err(e),
                },
                Err(e) => Err(e),
            },
            TokenKind::ParenOpen => match expr_at(toks, file, pos + 1, pec) {
                Ok((v, p)) => match punct_at(
                    toks,
                    file,
                    p,
                    Punct::ParenClose,
                    ctx_expected(ctx_while(pec, "a nested expression"), "`)`"),
                ) {
                    Ok((_, p2)) => Ok((v, p2)),
                    Err(e) => Err(e),
                },
                Err(e) => Err(e),
            },
            TokenKind::OpMinus => match atom_at(toks, file, pos + 1, pec) {
                Ok((rhs, p)) => Ok(
                    (
                        Expression::PrefixOp {
                            op: (t.fc, PrefixOperator::Neg),
                            expr: Box::new(rhs),
                        },
                        p,
                    ),
                ),
                Err(e) => Err(e),
            },
            _ => Err(Error::UnexpectedToken(t.fc, ctx_while(pec, "an expression atom"))),
        };
        match base {
            Ok((e, p)) => postfix_at(toks, file, e, p, pec),
            Err(e) => Err(e),
        }
    } else {
        Err(Error::UnexpectedEnd(file, ctx_while(pec, "an expression atom")))
    }
}

/// The infix operators after `lhs`, which ends at `pos`: all of them share
/// one precedence level and associate to the left.
pub open spec fn infix_at(
    toks: Seq<Token>,
    file: FileId,
    lhs: Expression,
    pos: int,
    pec: ErrorContext,
) -> Parsed<Expression>
    decreases toks.len() - pos, 2int,
{
    if 0 <= pos < toks.len() && infix_op_of(toks[pos].kind) is Some {
        let op = (toks[pos].fc, infix_op_of(toks[pos].kind)->0);
        match atom_at(toks, file, pos + 1, pec) {
            Ok((rhs, p)) => {
                let e = Expression::InfixOp { op, lhs: Box::new(lhs), rhs: Box::new(rhs) };
                if pos < p <= toks.len() {
                    infix_at(toks, file, e, p, pec)
                } else {
                    Ok((e, p))
                }
            },
            Err(e) => Err(e),
        }
    } else {
        Ok((lhs, pos))
    }
}

/// A full expression: an atom and the infix operations after it.
pub open spec fn expr_at(toks: Seq<Token>, file: FileId, pos: int, pec: ErrorContext) -> Parsed<
    Expression,
>
    decreases toks.len() - pos, 1int,
{
    match atom_at(toks, file, pos, pec) {
        Ok((e, p)) => if pos < p <= toks.len() {
            infix_at(toks, file, e, p, pec)
        } else {
            Ok((e, p))
        },
        Err(e) => Err(e),
    }
}

/// A list, its span and the position after it, or an error.
pub type ParsedList<T> = Result<(FC, Seq<T>, int), Error>;

/// `name : type`, where the type's context starts at the colon.
pub open spec fn typed_pair_at(
    toks: Seq<Token>,
    file: FileId,
    pos: int,
    ident_ctx: ErrorContext,
    colon_ctx: ErrorContext,
    type_ctx: ErrorContext,
) -> Parsed<(Identifier, Type)> {
    match ident_at(toks, file, pos, ident_ctx) {
        Ok((id, p)) => match punct_at(toks, file, p, Punct::Colon, colon_ctx) {
            Ok((colon_fc, p2)) => match type_at(
                toks,
                file,
                p2,
                ctx_start(type_ctx, colon_fc, "beginning of type"),
            ) {
                Ok((ty, p3)) => Ok(((id, ty), p3)),
                Err(e) => Err(e),
            },
            Err(e) => Err(e),
        },
        Err(e) => Err(e),
    }
}

/// `name : expression`, where the expression's context starts at the colon.
pub open spec fn named_expr_at(
    toks: Seq<Token>,
    file: FileId,
    pos: int,
    ident_ctx: ErrorContext,
    colon_ctx: ErrorContext,
) -> Parsed<(Identifier, Expression)> {
    match ident_at(toks, file, pos, ident_ctx) {
        Ok((id, p)) => match punct_at(toks, file, p, Punct::Colon, colon_ctx) {
            Ok((colon_fc, p2)) => match expr_at(
                toks,
                file,
                p2,
                ctx_while(ctx_start(ctx_empty(), colon_fc, "beginning of expression"), "an expression"),
            ) {
                Ok((e, p3)) => Ok(((id, e), p3)),
                Err(e) => Err(e),
            },
            Err(e) => Err(e),
        },
        Err(e) => Err(e),
    }
}

/// The rest of a bracketed, separated list after its opening token, whose
/// span is `start`; `acc` holds the elements read so far. A separator just
/// before the closing token is accepted.
pub open spec fn list_rest<E: ElementParser>(
    toks: Seq<Token>,
    file: FileId,
    start: FC,
    acc: Seq<E::Out>,
    pos: int,
    close: Punct,
    sep: Punct,
    sep_ctx: ErrorContext,
    el: E,
) -> ParsedList<E::Out>
    decreases toks.len() - pos,
{
    if at_punct(toks, pos, close) {
        Ok((merge_fc(start, toks[pos].fc), acc, pos + 1))
    } else {
        match el.element_at(toks, file, pos) {
            Ok((v, p)) => if 0 <= p < toks.len() {
                if is_punct(toks[p].kind, close) {
                    Ok((merge_fc(start, toks[p].fc), acc.push(v), p + 1))
                } else if is_punct(toks[p].kind, sep) && pos <= p {
                    list_rest(toks, file, start, acc.push(v), p + 1, close, sep, sep_ctx, el)
                } else {
                    Err(Error::UnexpectedToken(toks[p].fc, sep_ctx))
                }
            } else {
                Err(Error::UnexpectedEnd(file, sep_ctx))
            },
            Err(e) => Err(e),
        }
    }
}

/// `open (element (sep element)* sep?)? close`; the span runs from `open`
/// to `close`.
pub open spec fn list_at<E: ElementParser>(
    toks: Seq<Token>,
    file: FileId,
    pos: int,
    open: Punct,
    close: Punct,
    sep: Punct,
    open_ctx: ErrorContext,
    sep_ctx: ErrorContext,
    el: E,
) -> ParsedList<E::Out> {
    match punct_at(toks, file, pos, open, open_ctx) {
        Ok((start, p)) => list_rest(toks, file, start, Seq::empty(), p, close, sep, sep_ctx, el),
        Err(e) => Err(e),
    }
}

/// `[n] Name [(field: expr, ...)]`.
pub open spec fn product_at(toks: Seq<Token>, file: FileId, pos: int, pec: ErrorContext) -> Parsed<
    ProductV,
> {
    let quantity: Option<(FC, u64)> = if 0 <= pos < toks.len() {
        match toks[pos].kind {
            TokenKind::IntegerLiteral(l) => Some((toks[pos].fc, l)),
            _ => None,
        }
    } else {
        None
    };
    let after_quantity = if quantity is Some { pos + 1 } else { pos };
    match ident_at(toks, file, after_quantity, ctx_while(pec, "a product")) {
        Ok((name, p)) => {
            let start = match quantity {
                Some((fc, _)) => fc,
                None => name.0,
            };
            let ec = ctx_while(ctx_start(ctx_empty(), start, "product"), "a product");
            if at_punct(toks, p, Punct::ParenOpen) {
                match list_at(
                    toks,
                    file,
                    p,
                    Punct::ParenOpen,
                    Punct::ParenClose,
                    Punct::Comma,
                    ctx_expected(ctx_while(ec, "the start of product fields"), "`(`"),
                    ctx_expected(ctx_while(ec, "a product field list"), "`,` or `)`"),
                    named_fields(ec, "a product field"),
                ) {
                    Ok((fc, fields, p2)) => Ok(
                        (ProductV { fc: merge_fc(start, fc), quantity, name, fields }, p2),
                    ),
                    Err(e) => Err(e),
                }
            } else {
                Ok((ProductV { fc: merge_fc(start, name.0), quantity, name, fields: seq![] }, p))
            }
        },
        Err(e) => Err(e),
    }
}

/// The strategy for `name: expr` lists, with `desc` naming the element.
pub open spec fn named_fields(ec: ErrorContext, desc: &'static str) -> crate::parser::NamedExpr {
    crate::parser::NamedExpr {
        ident_ctx: ctx_while(ec, desc),
        colon_ctx: ctx_expected(ctx_while(ec, desc), "`:`"),
    }
}

/// The strategy for `name: type` lists.
pub open spec fn typed_fields(
    ec: ErrorContext,
    ident_desc: &'static str,
    colon_desc: &'static str,
) -> crate::parser::TypedPair {
    crate::parser::TypedPair {
        ident_ctx: ctx_while(ec, ident_desc),
        colon_ctx: ctx_expected(ctx_while(ec, colon_desc), "`:`"),
        type_ctx: ec,
    }
}

/// The products after those in `acc`, each after a `+`; the list's span
/// merges the span of its first product with that of its last.
pub open spec fn products_rest(
    toks: Seq<Token>,
    file: FileId,
    acc: Seq<ProductV>,
    pos: int,
    ctx: ErrorContext,
) -> ParsedList<ProductV>
    decreases toks.len() - pos,
{
    if at_punct(toks, pos, Punct::Plus) {
        match product_at(toks, file, pos + 1, ctx) {
            Ok((v, p)) => if pos < p <= toks.len() {
                products_rest(toks, file, acc.push(v), p, ctx)
            } else {
                Ok((merge_fc(acc[0].fc, v.fc), acc.push(v), p))
            },
            Err(e) => Err(e),
        }
    } else {
        Ok((merge_fc(acc[0].fc, acc.last().fc), acc, pos))
    }
}

/// One or more products joined by `+`, each parsed with `product_ctx`; the
/// list fails with `context` where no token is left for its first product.
/// Its span is the merge of its first product's span and its last one's.
pub open spec fn separated_at(
    toks: Seq<Token>,
    file: FileId,
    pos: int,
    context: ErrorContext,
    product_ctx: ErrorContext,
) -> ParsedList<ProductV> {
    if 0 <= pos < toks.len() {
        match product_at(toks, file, pos, product_ctx) {
            Ok((v, p)) => products_rest(toks, file, seq![v], p, product_ctx),
            Err(e) => Err(e),
        }
    } else {
        Err(Error::UnexpectedEnd(file, context))
    }
}

/// `nothing`, or products joined by `+`.
pub open spec fn product_list_at(
    toks: Seq<Token>,
    file: FileId,
    pos: int,
    pec: ErrorContext,
) -> ParsedList<ProductV> {
    if 0 <= pos < toks.len() {
        let start = toks[pos].fc;
        if toks[pos].kind is Nothing {
            Ok((start, seq![], pos + 1))
        } else {
            let ctx = ctx_while(ctx_start(ctx_empty(), start, "product list"), "a product list");
            separated_at(toks, file, pos, ctx_while(pec, "a product list"), ctx)
        }
    } else {
        Err(Error::UnexpectedEnd(file, ctx_while(pec, "a product list")))
    }
}

/// `call name(arg: expr, ...)` or `express product`.
pub open spec fn statement_at(
    toks: Seq<Token>,
    file: FileId,
    pos: int,
    pec: ErrorContext,
) -> Parsed<GeneStatementV> {
    if 0 <= pos < toks.len() {
        let t = toks[pos];
        match t.kind {
            TokenKind::Call => {
                let ec = ctx_start(ctx_empty(), t.fc, "call statement");
                match ident_at(toks, file, pos + 1, ctx_while(ec, "a call statement")) {
                    Ok((name, p)) => match list_at(
                        toks,
                        file,
                        p,
                        Punct::ParenOpen,
                        Punct::ParenClose,
                        Punct::Comma,
                        ctx_expected(ctx_while(ec, "a call statement parameter list"), "`(`"),
                        ctx_expected(ctx_while(ec, "a call statement parameter list"), "`,` or `)`"),
                        named_fields(ec, "a named argument"),
                    ) {
                        Ok((end, arguments, p2)) => Ok(
                            (
                                GeneStatementV::Call { fc: merge_fc(t.fc, end), name, arguments },
                                p2,
                            ),
                        ),
                        Err(e) => Err(e),
                    },
                    Err(e) => Err(e),
                }
            },
            TokenKind::Express => match product_at(
                toks,
                file,
                pos + 1,
                ctx_while(
                    ctx_start(ctx_empty(), t.fc, "express statement"),
                    "an express statement",
                ),
            ) {
                Ok((prod, p)) => Ok((GeneStatementV::Express(merge_fc(t.fc, prod.fc), prod), p)),
                Err(e) => Err(e),
            },
            _ => Err(
                Error::UnexpectedToken(
                    t.fc,
                    ctx_expected(ctx_while(pec, "a gene statement"), "`call` or `express`"),
                ),
            ),
        }
    } else {
        Err(Error::UnexpectedEnd(file, ctx_while(pec, "a gene statement")))
    }
}

/// The statements of a block after its `{`, whose span is `start`, up to
/// and including the `}`; no separator stands between them.
pub open spec fn block_rest(
    toks: Seq<Token>,
    file: FileId,
    start: FC,
    acc: Seq<GeneStatementV>,
    pos: int,
    pec: ErrorContext,
) -> ParsedList<GeneStatementV>
    decreases toks.len() - pos,
{
    if at_punct(toks, pos, Punct::BraceClose) {
        Ok((merge_fc(start, toks[pos].fc), acc, pos + 1))
    } else {
        match statement_at(toks, file, pos, pec) {
            Ok((s, p)) => if pos < p <= toks.len() {
                block_rest(toks, file, start, acc.push(s), p, pec)
            } else {
                Ok((start, acc.push(s), p))
            },
            Err(e) => Err(e),
        }
    }
}

/// `{ statement* }`.
pub open spec fn block_at(
    toks: Seq<Token>,
    file: FileId,
    pos: int,
    open_ctx: ErrorContext,
    pec: ErrorContext,
) -> ParsedList<GeneStatementV> {
    match punct_at(toks, file, pos, Punct::BraceOpen, open_ctx) {
        Ok((start, p)) => block_rest(toks, file, start, seq![], p, pec),
        Err(e) => Err(e),
    }
}

/// `record Name [(field: Type, ...)]`, from its keyword at `pos`.
pub open spec fn record_at(toks: Seq<Token>, file: FileId, pos: int) -> Parsed<RecordV> {
    let t = toks[pos];
    let ec = ctx_while(ctx_start(ctx_empty(), t.fc, "record definition"), "a record definition");
    match ident_at(toks, file, pos + 1, ec) {
        Ok((name, p)) => if at_punct(toks, p, Punct::ParenOpen) {
            let fec = ctx_while(ctx_start(ec, t.fc, "field list"), "the field list of a record item");
            match list_at(
                toks,
                file,
                p,
                Punct::ParenOpen,
                Punct::ParenClose,
                Punct::Comma,
                ctx_expected(fec, "`(`"),
                ctx_expected(fec, "`,` or `)`"),
                typed_fields(ec, "a record field", "a record field"),
            ) {
                Ok((fc, fields, p2)) => Ok((RecordV { fc: merge_fc(t.fc, fc), name, fields }, p2)),
                Err(e) => Err(e),
            }
        } else {
            Ok((RecordV { fc: merge_fc(t.fc, name.0), name, fields: seq![] }, p))
        },
        Err(e) => Err(e),
    }
}

/// `extern name(param: Type, ...)`, from its keyword at `pos`.
pub open spec fn extern_at(toks: Seq<Token>, file: FileId, pos: int) -> Parsed<ExternV> {
    let t = toks[pos];
    let ec = ctx_while(ctx_start(ctx_empty(), t.fc, "extern item"), "an extern item");
    match ident_at(toks, file, pos + 1, ec) {
        Ok((name, p)) => match list_at(
            toks,
            file,
            p,
            Punct::ParenOpen,
            Punct::ParenClose,
            Punct::Comma,
            ctx_expected(ctx_while(ec, "the parameter list of an extern item"), "`(`"),
            ctx_expected(ctx_while(ec, "the parameter list of an extern item"), "`,` or `)`"),
            typed_fields(ec, "an extern item parameter", "an extern parameter description"),
        ) {
            Ok((fc, parameters, p2)) => Ok(
                (ExternV { fc: merge_fc(t.fc, fc), name, parameters }, p2),
            ),
            Err(e) => Err(e),
        },
        Err(e) => Err(e),
    }
}

/// `gene (factor, ...) [when expr] { statement* }`, from its keyword at `pos`.
pub open spec fn gene_at(toks: Seq<Token>, file: FileId, pos: int) -> Parsed<GeneV> {
    let t = toks[pos];
    let ec = ctx_while(ctx_start(ctx_empty(), t.fc, "gene item"), "a gene item");
    match list_at(
        toks,
        file,
        pos + 1,
        Punct::ParenOpen,
        Punct::ParenClose,
        Punct::Comma,
        ctx_expected(ctx_while(ec, "a gene factor list"), "`(`"),
        ctx_expected(ctx_while(ec, "a gene factor list"), "`,` or `)`"),
        crate::parser::BindingElement { ctx: ec },
    ) {
        Ok((_, factors, p)) => if 0 <= p < toks.len() {
            let guard: Parsed<Option<Expression>> = if toks[p].kind is When {
                let wec = ctx_start(ctx_while(ec, "a when clause"), toks[p].fc, "when clause");
                match expr_at(toks, file, p + 1, wec) {
                    Ok((e, p2)) => Ok((Some(e), p2)),
                    Err(e) => Err(e),
                }
            } else {
                Ok((None, p))
            };
            match guard {
                Ok((when, p2)) => match block_at(
                    toks,
                    file,
                    p2,
                    ctx_expected(ctx_while(ec, "a gene statement list"), "`{`"),
                    ec,
                ) {
                    Ok((end, body, p3)) => Ok(
                        (GeneV { fc: merge_fc(t.fc, end), factors, when, body }, p3),
                    ),
                    Err(e) => Err(e),
                },
                Err(e) => Err(e),
            }
        } else {
            Err(Error::UnexpectedEnd(file, ctx_while(ec, "gene item")))
        },
        Err(e) => Err(e),
    }
}

/// `rule (reactant, ...) -> products [when expr]`, from its keyword at `pos`.
pub open spec fn rule_at(toks: Seq<Token>, file: FileId, pos: int) -> Parsed<RuleV> {
    let t = toks[pos];
    let ec = ctx_while(ctx_start(ctx_empty(), t.fc, "rule item"), "a rule item");
    match list_at(
        toks,
        file,
        pos + 1,
        Punct::ParenOpen,
        Punct::ParenClose,
        Punct::Comma,
        ctx_expected(ctx_while(ec, "a rule reactant list"), "`(`"),
        ctx_expected(ctx_while(ec, "a rule reactant list"), "`,` or `)`"),
        crate::parser::BindingElement { ctx: ec },
    ) {
        Ok((_, reactants, p)) => match punct_at(
            toks,
            file,
            p,
            Punct::ArrowR,
            ctx_expected(ctx_while(ec, "a rule reaction description"), "`->`"),
        ) {
            Ok((_, p2)) => match product_list_at(toks, file, p2, ec) {
                Ok((product_fc, products, p3)) => if 0 <= p3 < toks.len()
                    && toks[p3].kind is When {
                    let wec = ctx_start(ctx_while(ec, "a when clause"), toks[p3].fc, "when clause");
                    match expr_at(toks, file, p3 + 1, wec) {
                        Ok((e, p4)) => Ok(
                            (
                                RuleV {
                                    fc: merge_fc(t.fc, toks[p4 - 1].fc),
                                    reactants,
                                    products,
                                    when: Some(e),
                                },
                                p4,
                            ),
                        ),
                        Err(e) => Err(e),
                    }
                } else {
                    Ok(
                        (
                            RuleV { fc: merge_fc(t.fc, product_fc), reactants, products, when: None },
                            p3,
                        ),
                    )
                },
                Err(e) => Err(e),
            },
            Err(e) => Err(e),
        },
        Err(e) => Err(e),
    }
}

/// The tree of a file with no items.
pub open spec fn empty_file() -> FileV {
    FileV { records: seq![], externs: seq![], genes: seq![], rules: seq![] }
}

/// The items from `pos` on, each appended to its kind's sequence in `acc`.
pub open spec fn items_from(toks: Seq<Token>, file: FileId, acc: FileV, pos: int) -> Result<
    FileV,
    Error,
>
    decreases toks.len() - pos,
{
    if 0 <= pos < toks.len() {
        match toks[pos].kind {
            TokenKind::Record => match record_at(toks, file, pos) {
                Ok((r, p)) => if pos < p <= toks.len() {
                    items_from(toks, file, FileV { records: acc.records.push(r), ..acc }, p)
                } else {
                    Ok(acc)
                },
                Err(e) => Err(e),
            },
            TokenKind::Extern => match extern_at(toks, file, pos) {
                Ok((x, p)) => if pos < p <= toks.len() {
                    items_from(toks, file, FileV { externs: acc.externs.push(x), ..acc }, p)
                } else {
                    Ok(acc)
                },
                Err(e) => Err(e),
            },
            TokenKind::Gene => match gene_at(toks, file, pos) {
                Ok((g, p)) => if pos < p <= toks.len() {
                    items_from(toks, file, FileV { genes: acc.genes.push(g), ..acc }, p)
                } else {
                    Ok(acc)
                },
                Err(e) => Err(e),
            },
            TokenKind::Rule => match rule_at(toks, file, pos) {
                Ok((r, p)) => if pos < p <= toks.len() {
                    items_from(toks, file, FileV { rules: acc.rules.push(r), ..acc }, p)
                } else {
                    Ok(acc)
                },
                Err(e) => Err(e),
            },
            _ => Err(
                Error::UnexpectedToken(
                    toks[pos].fc,
                    ctx_expected(
                        ctx_while(ctx_empty(), "a top level item"),
                        "`record`, `gene`, `rule` or `extern`",
                    ),
                ),
            ),
        }
    } else {
        Ok(acc)
    }
}

/// The tree of a whole file of tokens.
pub open spec fn file_of(toks: Seq<Token>, file: FileId) -> Result<FileV, Error> {
    items_from(toks, file, empty_file(), 0)
}

} // verus!
