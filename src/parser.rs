//! The parser: one function per production, each proved to compute what
//! the grammar in `grammar` says.
use vstd::prelude::*;
use crate::span::{FC, FileId};
use crate::token::{Token, TokenKind, Punct};
pub use crate::error::{Error, ErrorContext};
use crate::ast::{
    Binding, BindingAttribute, Expression, Identifier, InfixOperator, Literal, PrefixOperator, Type,
    Product, GeneStatement, Record, Extern, Gene, Rule, File, FileV,
};
use crate::grammar::{
    Parsed, ParsedList, at_punct, punct_at, ident_at, type_at, binding_at, infix_op_of, postfix_at,
    atom_at, infix_at, expr_at, typed_pair_at, named_expr_at, list_rest, list_at, product_at,
    named_fields, typed_fields, products_rest, separated_at, product_list_at, statement_at, block_rest,
    block_at,
    record_at, extern_at, gene_at, rule_at, items_from, file_of,
};

verus! {

/// An exec result as the grammar states it: positions become integers.
pub open spec fn lift<T>(r: Result<(T, usize), Error>) -> Parsed<T> {
    match r {
        Ok((v, p)) => Ok((v, p as int)),
        Err(e) => Err(e),
    }
}

/// A success ends after `pos` and inside the tokens.
pub open spec fn moved<T>(r: Result<(T, usize), Error>, pos: int, len: int) -> bool {
    r matches Ok((_, p)) ==> pos < p <= len
}

/// A list as the grammar states it.
pub open spec fn lift_list<T>(r: Result<(FC, Vec<T>, usize), Error>) -> ParsedList<T> {
    match r {
        Ok((fc, v, p)) => Ok((fc, v@, p as int)),
        Err(e) => Err(e),
    }
}

/// A node with a view, as the grammar states it.
pub open spec fn lift_view<T: View>(r: Result<(T, usize), Error>) -> Parsed<T::V> {
    match r {
        Ok((v, p)) => Ok((v@, p as int)),
        Err(e) => Err(e),
    }
}

/// A list of nodes with views, as the grammar states it.
pub open spec fn lift_views<T: View>(r: Result<(FC, Vec<T>, usize), Error>) -> ParsedList<T::V> {
    match r {
        Ok((fc, v, p)) => Ok((fc, v@.map_values(|x: T| x@), p as int)),
        Err(e) => Err(e),
    }
}

/// A parsed file as the grammar states it.
pub open spec fn lift_file(r: Result<File, Error>) -> Result<FileV, Error> {
    match r {
        Ok(f) => Ok(f@),
        Err(e) => Err(e),
    }
}

/// A list success ends after `pos` and inside the tokens.
pub open spec fn moved_list<T>(r: Result<(FC, Vec<T>, usize), Error>, pos: int, len: int) -> bool {
    r matches Ok((_, _, p)) ==> pos < p <= len
}

/// How to parse one element of a bracketed, separated list.
pub trait ElementParser: Sized {
    type Out;

    /// What the element at `pos` is, by the grammar.
    spec fn element_at(&self, toks: Seq<Token>, file: FileId, pos: int) -> Parsed<Self::Out>;

    fn parse_element(&self, p: &Parser, pos: usize) -> (r: Result<(Self::Out, usize), Error>)
        requires
            pos <= p.toks@.len(),
        ensures
            lift(r) == self.element_at(p.toks@, p.file, pos as int),
            moved(r, pos as int, p.toks@.len() as int),
    ;
}

/// Elements `name : type`.
pub struct TypedPair {
    pub ident_ctx: ErrorContext,
    pub colon_ctx: ErrorContext,
    pub type_ctx: ErrorContext,
}

/// Elements `name : expression`.
pub struct NamedExpr {
    pub ident_ctx: ErrorContext,
    pub colon_ctx: ErrorContext,
}

/// Elements that are bindings.
pub struct BindingElement {
    pub ctx: ErrorContext,
}

impl ElementParser for TypedPair {
    type Out = (Identifier, Type);

    open spec fn element_at(&self, toks: Seq<Token>, file: FileId, pos: int) -> Parsed<Self::Out> {
        typed_pair_at(toks, file, pos, self.ident_ctx, self.colon_ctx, self.type_ctx)
    }

    fn parse_element(&self, p: &Parser, pos: usize) -> (r: Result<(Self::Out, usize), Error>) {
        let (id, p1) = p.parse_identifier(pos, self.ident_ctx)?;
        let (colon_fc, p2) = p.expect(p1, Punct::Colon, self.colon_ctx)?;
        let (ty, p3) = p.parse_type(p2, self.type_ctx.start(colon_fc, "beginning of type"))?;
        Ok(((id, ty), p3))
    }
}

impl ElementParser for NamedExpr {
    type Out = (Identifier, Expression);

    open spec fn element_at(&self, toks: Seq<Token>, file: FileId, pos: int) -> Parsed<Self::Out> {
        named_expr_at(toks, file, pos, self.ident_ctx, self.colon_ctx)
    }

    fn parse_element(&self, p: &Parser, pos: usize) -> (r: Result<(Self::Out, usize), Error>) {
        let (id, p1) = p.parse_identifier(pos, self.ident_ctx)?;
        let (colon_fc, p2) = p.expect(p1, Punct::Colon, self.colon_ctx)?;
        let (e, p3) = p.parse_expression(
            p2,
            ErrorContext::empty().start(colon_fc, "beginning of expression").while_parsing(
                "an expression",
            ),
        )?;
        Ok(((id, e), p3))
    }
}

impl ElementParser for BindingElement {
    type Out = Binding;

    open spec fn element_at(&self, toks: Seq<Token>, file: FileId, pos: int) -> Parsed<Self::Out> {
        binding_at(toks, file, pos, self.ctx)
    }

    fn parse_element(&self, p: &Parser, pos: usize) -> (r: Result<(Self::Out, usize), Error>) {
        p.parse_binding(pos, self.ctx)
    }
}

/// The cursor: the tokens of one file and that file's id, which errors at
/// the end of the tokens refer to. Productions take the position of the next
/// token and return the position after what they consumed.
pub struct Parser {
    pub file: FileId,
    pub toks: Vec<Token>,
}

/// The infix operator that a token stands for, if any.
fn infix_op(k: &TokenKind) -> (r: Option<InfixOperator>)
    ensures
        r == infix_op_of(*k),
{
    match k {
        TokenKind::OpPlus => Some(InfixOperator::Add),
        TokenKind::OpMinus => Some(InfixOperator::Sub),
        TokenKind::OpStar => Some(InfixOperator::Mul),
        TokenKind::OpSlash => Some(InfixOperator::Div),
        TokenKind::OpEquals => Some(InfixOperator::Eq),
        TokenKind::OpNotEquals => Some(InfixOperator::Neq),
        TokenKind::OpLessThan => Some(InfixOperator::Lt),
        TokenKind::OpLessThanEqual => Some(InfixOperator::Lte),
        TokenKind::OpGreaterThan => Some(InfixOperator::Gt),
        TokenKind::OpGreaterThanEqual => Some(InfixOperator::Gte),
        _ => None,
    }
}

impl Parser {
    /// The token at `pos`, if the tokens reach that far.
    pub fn peek(&self, pos: usize) -> (r: Option<&Token>)
        ensures
            r == (if pos < self.toks@.len() { Some(&self.toks@[pos as int]) } else { None }),
            self.toks@.len() <= usize::MAX,
    {
        if pos < self.toks.len() {
            Some(&self.toks[pos])
        } else {
            None
        }
    }

    /// Whether the token at `pos` is the punctuation `p`.
    pub fn peek_is(&self, pos: usize, p: Punct) -> (r: bool)
        ensures
            r == at_punct(self.toks@, pos as int, p),
            self.toks@.len() <= usize::MAX,
    {
        pos < self.toks.len() && self.toks[pos].is(p)
    }

    /// The span of the token at `pos`.
    pub fn fc_at(&self, pos: usize) -> (r: FC)
        requires
            pos < self.toks@.len(),
        ensures
            r == self.toks@[pos as int].fc,
            self.toks@.len() <= usize::MAX,
    {
        // the length, a usize, bounds the number of tokens
        let _ = self.toks.len();
        self.toks[pos].fc
    }

    /// Consumes the punctuation `p`, or fails with `context`.
    pub fn expect(&self, pos: usize, p: Punct, context: ErrorContext) -> (r: Result<(FC, usize), Error>)
        requires
            pos <= self.toks@.len(),
        ensures
            lift(r) == punct_at(self.toks@, self.file, pos as int, p, context),
            moved(r, pos as int, self.toks@.len() as int),
    {
        match self.peek(pos) {
            Some(tok) => if tok.is(p) {
                Ok((tok.fc, pos + 1))
            } else {
                Err(Error::UnexpectedToken(tok.fc, context))
            },
            None => Err(Error::UnexpectedEnd(self.file, context)),
        }
    }

    pub fn parse_identifier(&self, pos: usize, parent_error_context: ErrorContext) -> (r: Result<
        (Identifier, usize),
        Error,
    >)
        requires
            pos <= self.toks@.len(),
        ensures
            lift(r) == ident_at(self.toks@, self.file, pos as int, parent_error_context),
            moved(r, pos as int, self.toks@.len() as int),
    {
        let ctx = parent_error_context.expected("an identifier");
        match self.peek(pos) {
            Some(tok) => match &tok.kind {
                TokenKind::Identifier(n) => Ok((Identifier(tok.fc, n.clone()), pos + 1)),
                _ => Err(Error::UnexpectedToken(tok.fc, ctx)),
            },
            None => Err(Error::UnexpectedEnd(self.file, ctx)),
        }
    }

    pub fn parse_type(&self, pos: usize, pec: ErrorContext) -> (r: Result<(Type, usize), Error>)
        requires
            pos <= self.toks@.len(),
        ensures
            lift(r) == type_at(self.toks@, self.file, pos as int, pec),
            moved(r, pos as int, self.toks@.len() as int),
    {
        let (id, p) = self.parse_identifier(pos, pec.while_parsing("a type"))?;
        Ok((Type::Named(id), p))
    }

    pub fn parse_binding(&self, pos: usize, pec: ErrorContext) -> (r: Result<(Binding, usize), Error>)
        requires
            pos <= self.toks@.len(),
        ensures
            lift(r) == binding_at(self.toks@, self.file, pos as int, pec),
            moved(r, pos as int, self.toks@.len() as int),
    {
        let ec = pec.while_parsing("a binding");
        let next = match self.peek(pos) {
            Some(t) => t,
            None => {
                return Err(Error::UnexpectedEnd(self.file, ec.expected("a quantity or identifier")));
            },
        };
        let start_fc = next.fc;
        let ec = ec.start(next.fc, "binding");
        match &next.kind {
            TokenKind::IntegerLiteral(n) => {
                let attr = BindingAttribute::Quantity(start_fc, *n);
                let (name, p) = self.parse_identifier(pos + 1, ec)?;
                Ok((Binding { fc: start_fc.merge(name.fc()), name, attr: Some(attr) }, p))
            },
            TokenKind::Identifier(_) => {
                let (id, p) = self.parse_identifier(pos, ec)?;
                if self.peek_is(p, Punct::Colon) {
                    let (name, p2) = self.parse_identifier(p + 1, ec)?;
                    Ok(
                        (
                            Binding {
                                fc: id.fc().merge(name.fc()),
                                name,
                                attr: Some(BindingAttribute::Name(id)),
                            },
                            p2,
                        ),
                    )
                } else {
                    Ok((Binding { fc: id.fc(), name: id, attr: None }, p))
                }
            },
            _ => Err(
                Error::UnexpectedToken(
                    next.fc,
                    pec.while_parsing("a record binding").expected("a quantity or identifier"),
                ),
            ),
        }
    }

    /// An atom and the infix operations after it, folded to the left.
    pub fn parse_expression(&self, pos: usize, pec: ErrorContext) -> (r: Result<
        (Expression, usize),
        Error,
    >)
        requires
            pos <= self.toks@.len(),
        ensures
            lift(r) == expr_at(self.toks@, self.file, pos as int, pec),
            moved(r, pos as int, self.toks@.len() as int),
        decreases self.toks@.len() - pos, 1int,
    {
        let (mut expr, mut p) = self.parse_expression_atom(pos, pec)?;
        loop
            invariant
                pos < p <= self.toks@.len(),
                infix_at(self.toks@, self.file, expr, p as int, pec) == expr_at(
                    self.toks@,
                    self.file,
                    pos as int,
                    pec,
                ),
            decreases self.toks@.len() - p,
        {
            if p >= self.toks.len() {
                return Ok((expr, p));
            }
            let op = match infix_op(&self.toks[p].kind) {
                Some(o) => (self.toks[p].fc, o),
                None => {
                    return Ok((expr, p));
                },
            };
            let (rhs, p1) = self.parse_expression_atom(p + 1, pec)?;
            expr = Expression::InfixOp { op, lhs: Box::new(expr), rhs: Box::new(rhs) };
            p = p1;
        }
    }

    pub fn parse_expression_atom(&self, pos: usize, pec: ErrorContext) -> (r: Result<
        (Expression, usize),
        Error,
    >)
        requires
            pos <= self.toks@.len(),
        ensures
            lift(r) == atom_at(self.toks@, self.file, pos as int, pec),
            moved(r, pos as int, self.toks@.len() as int),
        decreases self.toks@.len() - pos, 0int,
    {
        let next = match self.peek(pos) {
            Some(t) => t,
            None => {
                return Err(Error::UnexpectedEnd(self.file, pec.while_parsing("an expression atom")));
            },
        };
        let start_fc = next.fc;
        let (mut expr, mut p) = match &next.kind {
            TokenKind::Identifier(n) => (Expression::Variable(Identifier(start_fc, n.clone())), pos + 1),
            TokenKind::IntegerLiteral(i) => (Expression::Literal(Literal::Integer(start_fc, *i)), pos + 1),
            TokenKind::StringLiteral(s) => (
                Expression::Literal(Literal::String(start_fc, s.clone())),
                pos + 1,
            ),
            TokenKind::BracketOpen => {
                let (name, p1) = self.parse_identifier(
                    pos + 1,
                    pec.while_parsing("a type inside a concentration expression"),
                )?;
                let (_, p2) = self.expect(
                    p1,
                    Punct::BracketClose,
                    pec.while_parsing("a concentration expression").expected("`]`"),
                )?;
                (Expression::Concentration(name), p2)
            },
            TokenKind::ParenOpen => {
                let (val, p1) = self.parse_expression(pos + 1, pec)?;
                let (_, p2) = self.expect(
                    p1,
                    Punct::ParenClose,
                    pec.while_parsing("a nested expression").expected("`)`"),
                )?;
                (val, p2)
            },
            TokenKind::OpMinus => {
                let (rhs, p1) = self.parse_expression_atom(pos + 1, pec)?;
                (
                    Expression::PrefixOp { op: (start_fc, PrefixOperator::Neg), expr: Box::new(rhs) },
                    p1,
                )
            },
            _ => {
                return Err(Error::UnexpectedToken(start_fc, pec.while_parsing("an expression atom")));
            },
        };
        assert(atom_at(self.toks@, self.file, pos as int, pec) == postfix_at(
            self.toks@,
            self.file,
            expr,
            p as int,
            pec,
        ));
        while self.peek_is(p, Punct::Dot)
            invariant
                pos < p <= self.toks@.len(),
                postfix_at(self.toks@, self.file, expr, p as int, pec) == atom_at(
                    self.toks@,
                    self.file,
                    pos as int,
                    pec,
                ),
            decreases self.toks@.len() - p,
        {
            let (name, p1) = self.parse_identifier(
                p + 1,
                pec.while_parsing("a filed access expression"),
            )?;
            expr = Expression::FieldAccess { base: Box::new(expr), field_name: name };
            p = p1;
        }
        Ok((expr, p))
    }

    /// `open (element (sep element)* sep?)? close`, each element by `el`.
    pub fn grouped_separated<E: ElementParser>(
        &self,
        pos: usize,
        open: Punct,
        close: Punct,
        delim_start_context: ErrorContext,
        separator: Punct,
        separator_or_delim_end_context: ErrorContext,
        el: &E,
    ) -> (r: Result<(FC, Vec<E::Out>, usize), Error>)
        requires
            pos <= self.toks@.len(),
        ensures
            lift_list(r) == list_at(
                self.toks@,
                self.file,
                pos as int,
                open,
                close,
                separator,
                delim_start_context,
                separator_or_delim_end_context,
                *el,
            ),
            moved_list(r, pos as int, self.toks@.len() as int),
    {
        let (start_fc, mut p) = self.expect(pos, open, delim_start_context)?;
        let mut vals: Vec<E::Out> = Vec::new();
        loop
            invariant
                pos < p <= self.toks@.len(),
                list_rest(
                    self.toks@,
                    self.file,
                    start_fc,
                    vals@,
                    p as int,
                    close,
                    separator,
                    separator_or_delim_end_context,
                    *el,
                ) == list_at(
                    self.toks@,
                    self.file,
                    pos as int,
                    open,
                    close,
                    separator,
                    delim_start_context,
                    separator_or_delim_end_context,
                    *el,
                ),
            decreases self.toks@.len() - p,
        {
            if self.peek_is(p, close) {
                let fc = start_fc.merge(self.toks[p].fc);
                return Ok((fc, vals, p + 1));
            }
            let (v, p1) = el.parse_element(self, p)?;
            vals.push(v);
            match self.peek(p1) {
                Some(tok) => {
                    if tok.is(close) {
                        return Ok((start_fc.merge(tok.fc), vals, p1 + 1));
                    } else if tok.is(separator) {
                        p = p1 + 1;
                    } else {
                        return Err(Error::UnexpectedToken(tok.fc, separator_or_delim_end_context));
                    }
                },
                None => {
                    return Err(Error::UnexpectedEnd(self.file, separator_or_delim_end_context));
                },
            }
        }
    }

    /// `[n] Name [(field: expr, ...)]`.
    pub fn parse_product(&self, pos: usize, pec: ErrorContext) -> (r: Result<(Product, usize), Error>)
        requires
            pos <= self.toks@.len(),
        ensures
            lift_view(r) == product_at(self.toks@, self.file, pos as int, pec),
            moved(r, pos as int, self.toks@.len() as int),
    {
        let quantity = match self.peek(pos) {
            Some(Token { fc, kind: TokenKind::IntegerLiteral(l) }) => Some((*fc, *l)),
            _ => None,
        };
        let after_quantity = if quantity.is_some() {
            pos + 1
        } else {
            pos
        };
        let (name, p) = self.parse_identifier(after_quantity, pec.while_parsing("a product"))?;
        let start_fc = match quantity {
            Some((fc, _)) => fc,
            None => name.fc(),
        };
        let ec = ErrorContext::empty().start(start_fc, "product").while_parsing("a product");
        if self.peek_is(p, Punct::ParenOpen) {
            let el = NamedExpr {
                ident_ctx: ec.while_parsing("a product field"),
                colon_ctx: ec.while_parsing("a product field").expected("`:`"),
            };
            assert(el == named_fields(ec, "a product field"));
            let (fc, fields, p2) = self.grouped_separated(
                p,
                Punct::ParenOpen,
                Punct::ParenClose,
                ec.while_parsing("the start of product fields").expected("`(`"),
                Punct::Comma,
                ec.while_parsing("a product field list").expected("`,` or `)`"),
                &el,
            )?;
            Ok((Product { fc: start_fc.merge(fc), quantity, name, fields }, p2))
        } else {
            let fc = start_fc.merge(name.fc());
            let r = Product { fc, quantity, name, fields: Vec::new() };
            assert(r@.fields =~= seq![]);
            Ok((r, p))
        }
    }

    /// One or more products joined by `+`, starting at `pos`, each parsed
    /// with `product_context`; fails with `context` where no token is left.
    pub fn separated(&self, pos: usize, context: ErrorContext, product_context: ErrorContext) -> (r:
        Result<(FC, Vec<Product>, usize), Error>)
        requires
            pos <= self.toks@.len(),
        ensures
            lift_views(r) == separated_at(self.toks@, self.file, pos as int, context, product_context),
            moved_list(r, pos as int, self.toks@.len() as int),
    {
        if self.peek(pos).is_none() {
            return Err(Error::UnexpectedEnd(self.file, context));
        }
        let (first, mut p) = self.parse_product(pos, product_context)?;
        let mut vals: Vec<Product> = Vec::new();
        vals.push(first);
        assert(vals@.map_values(|x: Product| x@) =~= seq![first@]);
        loop
            invariant
                pos < p <= self.toks@.len(),
                vals@.len() > 0,
                products_rest(
                    self.toks@,
                    self.file,
                    vals@.map_values(|x: Product| x@),
                    p as int,
                    product_context,
                ) == separated_at(self.toks@, self.file, pos as int, context, product_context),
            decreases self.toks@.len() - p,
        {
            if !self.peek_is(p, Punct::Plus) {
                let fc = vals[0].fc.merge(vals[vals.len() - 1].fc);
                return Ok((fc, vals, p));
            }
            let (v, p1) = self.parse_product(p + 1, product_context)?;
            let ghost old_vals = vals@;
            vals.push(v);
            assert(vals@.map_values(|x: Product| x@) =~= old_vals.map_values(|x: Product| x@).push(
                v@,
            ));
            p = p1;
        }
    }

    /// `nothing`, or products joined by `+`.
    pub fn parse_product_list(&self, pos: usize, pec: ErrorContext) -> (r: Result<
        (FC, Vec<Product>, usize),
        Error,
    >)
        requires
            pos <= self.toks@.len(),
        ensures
            lift_views(r) == product_list_at(self.toks@, self.file, pos as int, pec),
            moved_list(r, pos as int, self.toks@.len() as int),
    {
        let next = match self.peek(pos) {
            Some(t) => t,
            None => {
                return Err(Error::UnexpectedEnd(self.file, pec.while_parsing("a product list")));
            },
        };
        let start_fc = next.fc;
        if matches!(next.kind, TokenKind::Nothing) {
            let v: Vec<Product> = Vec::new();
            assert(v@.map_values(|x: Product| x@) =~= seq![]);
            return Ok((start_fc, v, pos + 1));
        }
        self.separated(
            pos,
            pec.while_parsing("a product list"),
            ErrorContext::empty().start(start_fc, "product list").while_parsing("a product list"),
        )
    }

    /// `call name(arg: expr, ...)` or `express product`.
    pub fn parse_gene_statement(&self, pos: usize, pec: ErrorContext) -> (r: Result<
        (GeneStatement, usize),
        Error,
    >)
        requires
            pos <= self.toks@.len(),
        ensures
            lift_view(r) == statement_at(self.toks@, self.file, pos as int, pec),
            moved(r, pos as int, self.toks@.len() as int),
    {
        let next = match self.peek(pos) {
            Some(t) => t,
            None => {
                return Err(Error::UnexpectedEnd(self.file, pec.while_parsing("a gene statement")));
            },
        };
        match next.kind {
            TokenKind::Call => {
                let ec = ErrorContext::empty().start(next.fc, "call statement");
                let (name, p) = self.parse_identifier(pos + 1, ec.while_parsing("a call statement"))?;
                let el = NamedExpr {
                    ident_ctx: ec.while_parsing("a named argument"),
                    colon_ctx: ec.while_parsing("a named argument").expected("`:`"),
                };
                assert(el == named_fields(ec, "a named argument"));
                let (end_fc, arguments, p2) = self.grouped_separated(
                    p,
                    Punct::ParenOpen,
                    Punct::ParenClose,
                    ec.while_parsing("a call statement parameter list").expected("`(`"),
                    Punct::Comma,
                    ec.while_parsing("a call statement parameter list").expected("`,` or `)`"),
                    &el,
                )?;
                Ok((GeneStatement::Call { fc: next.fc.merge(end_fc), name, arguments }, p2))
            },
            TokenKind::Express => {
                let (prod, p) = self.parse_product(
                    pos + 1,
                    ErrorContext::empty().start(next.fc, "express statement").while_parsing(
                        "an express statement",
                    ),
                )?;
                Ok((GeneStatement::Express(next.fc.merge(prod.fc), prod), p))
            },
            _ => Err(
                Error::UnexpectedToken(
                    next.fc,
                    pec.while_parsing("a gene statement").expected("`call` or `express`"),
                ),
            ),
        }
    }

    /// `{ statement* }`: statements until the closing brace, with no
    /// separator between them.
    pub fn grouped(&self, pos: usize, start_delim_context: ErrorContext, pec: ErrorContext) -> (r:
        Result<(FC, Vec<GeneStatement>, usize), Error>)
        requires
            pos <= self.toks@.len(),
        ensures
            lift_views(r) == block_at(self.toks@, self.file, pos as int, start_delim_context, pec),
            moved_list(r, pos as int, self.toks@.len() as int),
    {
        let (start_fc, mut p) = self.expect(pos, Punct::BraceOpen, start_delim_context)?;
        let mut vals: Vec<GeneStatement> = Vec::new();
        assert(vals@.map_values(|x: GeneStatement| x@) =~= seq![]);
        loop
            invariant
                pos < p <= self.toks@.len(),
                block_rest(
                    self.toks@,
                    self.file,
                    start_fc,
                    vals@.map_values(|x: GeneStatement| x@),
                    p as int,
                    pec,
                ) == block_at(self.toks@, self.file, pos as int, start_delim_context, pec),
            decreases self.toks@.len() - p,
        {
            if self.peek_is(p, Punct::BraceClose) {
                let fc = start_fc.merge(self.toks[p].fc);
                return Ok((fc, vals, p + 1));
            }
            let (v, p1) = self.parse_gene_statement(p, pec)?;
            let ghost old_vals = vals@;
            vals.push(v);
            assert(vals@.map_values(|x: GeneStatement| x@) =~= old_vals.map_values(
                |x: GeneStatement| x@,
            ).push(v@));
            p = p1;
        }
    }

    /// A record item, from its keyword at `pos`.
    pub fn parse_record(&self, pos: usize) -> (r: Result<(Record, usize), Error>)
        requires
            pos < self.toks@.len(),
        ensures
            lift_view(r) == record_at(self.toks@, self.file, pos as int),
            moved(r, pos as int, self.toks@.len() as int),
    {
        let start_fc = self.fc_at(pos);
        let ec = ErrorContext::empty().start(start_fc, "record definition").while_parsing(
            "a record definition",
        );
        let (name, p) = self.parse_identifier(pos + 1, ec)?;
        if self.peek_is(p, Punct::ParenOpen) {
            let fec = ec.start(start_fc, "field list").while_parsing(
                "the field list of a record item",
            );
            let el = TypedPair {
                ident_ctx: ec.while_parsing("a record field"),
                colon_ctx: ec.while_parsing("a record field").expected("`:`"),
                type_ctx: ec,
            };
            assert(el == typed_fields(ec, "a record field", "a record field"));
            let (fc, fields, p2) = self.grouped_separated(
                p,
                Punct::ParenOpen,
                Punct::ParenClose,
                fec.expected("`(`"),
                Punct::Comma,
                fec.expected("`,` or `)`"),
                &el,
            )?;
            Ok((Record { fc: start_fc.merge(fc), name, fields }, p2))
        } else {
            let fc = start_fc.merge(name.fc());
            let r = Record { fc, name, fields: Vec::new() };
            assert(r@.fields =~= seq![]);
            Ok((r, p))
        }
    }

    /// An extern item, from its keyword at `pos`.
    pub fn parse_extern(&self, pos: usize) -> (r: Result<(Extern, usize), Error>)
        requires
            pos < self.toks@.len(),
        ensures
            lift_view(r) == extern_at(self.toks@, self.file, pos as int),
            moved(r, pos as int, self.toks@.len() as int),
    {
        let start_fc = self.fc_at(pos);
        let ec = ErrorContext::empty().start(start_fc, "extern item").while_parsing("an extern item");
        let (name, p) = self.parse_identifier(pos + 1, ec)?;
        let el = TypedPair {
            ident_ctx: ec.while_parsing("an extern item parameter"),
            colon_ctx: ec.while_parsing("an extern parameter description").expected("`:`"),
            type_ctx: ec,
        };
        assert(el == typed_fields(ec, "an extern item parameter", "an extern parameter description"));
        let (fc, parameters, p2) = self.grouped_separated(
            p,
            Punct::ParenOpen,
            Punct::ParenClose,
            ec.while_parsing("the parameter list of an extern item").expected("`(`"),
            Punct::Comma,
            ec.while_parsing("the parameter list of an extern item").expected("`,` or `)`"),
            &el,
        )?;
        Ok((Extern { fc: start_fc.merge(fc), name, parameters }, p2))
    }

    /// A gene item, from its keyword at `pos`.
    pub fn parse_gene(&self, pos: usize) -> (r: Result<(Gene, usize), Error>)
        requires
            pos < self.toks@.len(),
        ensures
            lift_view(r) == gene_at(self.toks@, self.file, pos as int),
            moved(r, pos as int, self.toks@.len() as int),
    {
        let start_fc = self.fc_at(pos);
        let ec = ErrorContext::empty().start(start_fc, "gene item").while_parsing("a gene item");
        let (_, factors, p) = self.grouped_separated(
            pos + 1,
            Punct::ParenOpen,
            Punct::ParenClose,
            ec.while_parsing("a gene factor list").expected("`(`"),
            Punct::Comma,
            ec.while_parsing("a gene factor list").expected("`,` or `)`"),
            &BindingElement { ctx: ec },
        )?;
        let next = match self.peek(p) {
            Some(t) => t,
            None => {
                return Err(Error::UnexpectedEnd(self.file, ec.while_parsing("gene item")));
            },
        };
        let (when, p2) = if matches!(next.kind, TokenKind::When) {
            let wec = ec.while_parsing("a when clause").start(next.fc, "when clause");
            let (e, p2) = self.parse_expression(p + 1, wec)?;
            (Some(e), p2)
        } else {
            (None, p)
        };
        let (end_fc, body, p3) = self.grouped(
            p2,
            ec.while_parsing("a gene statement list").expected("`{`"),
            ec,
        )?;
        Ok((Gene { fc: start_fc.merge(end_fc), factors, when, body }, p3))
    }

    /// A rule item, from its keyword at `pos`.
    pub fn parse_rule(&self, pos: usize) -> (r: Result<(Rule, usize), Error>)
        requires
            pos < self.toks@.len(),
        ensures
            lift_view(r) == rule_at(self.toks@, self.file, pos as int),
            moved(r, pos as int, self.toks@.len() as int),
    {
        let start_fc = self.fc_at(pos);
        let ec = ErrorContext::empty().start(start_fc, "rule item").while_parsing("a rule item");
        let (_, reactants, p) = self.grouped_separated(
            pos + 1,
            Punct::ParenOpen,
            Punct::ParenClose,
            ec.while_parsing("a rule reactant list").expected("`(`"),
            Punct::Comma,
            ec.while_parsing("a rule reactant list").expected("`,` or `)`"),
            &BindingElement { ctx: ec },
        )?;
        let (_, p2) = self.expect(
            p,
            Punct::ArrowR,
            ec.while_parsing("a rule reaction description").expected("`->`"),
        )?;
        let (product_fc, products, p3) = self.parse_product_list(p2, ec)?;
        let has_when = match self.peek(p3) {
            Some(t) => matches!(t.kind, TokenKind::When),
            None => false,
        };
        if has_when {
            let wec = ec.while_parsing("a when clause").start(self.toks[p3].fc, "when clause");
            let (e, p4) = self.parse_expression(p3 + 1, wec)?;
            let fc = start_fc.merge(self.fc_at(p4 - 1));
            Ok((Rule { fc, reactants, products, when: Some(e) }, p4))
        } else {
            Ok((Rule { fc: start_fc.merge(product_fc), reactants, products, when: None }, p3))
        }
    }

    /// All items of the file, in order; the first error stops the parse.
    pub fn parse_file(&self) -> (r: Result<File, Error>)
        ensures
            lift_file(r) == file_of(self.toks@, self.file),
    {
        let mut file = File {
            records: Vec::new(),
            externs: Vec::new(),
            genes: Vec::new(),
            rules: Vec::new(),
        };
        assert(file@.records =~= seq![] && file@.externs =~= seq![] && file@.genes =~= seq![]
            && file@.rules =~= seq![]);
        let mut p: usize = 0;
        loop
            invariant
                p <= self.toks@.len(),
                items_from(self.toks@, self.file, file@, p as int) == file_of(self.toks@, self.file),
            decreases self.toks@.len() - p,
        {
            let t = match self.peek(p) {
                Some(t) => t,
                None => {
                    return Ok(file);
                },
            };
            let ghost old_file = file@;
            match t.kind {
                TokenKind::Record => {
                    let (r, p1) = self.parse_record(p)?;
                    file.records.push(r);
                    assert(file@.records =~= old_file.records.push(r@));
                    p = p1;
                },
                TokenKind::Extern => {
                    let (x, p1) = self.parse_extern(p)?;
                    file.externs.push(x);
                    assert(file@.externs =~= old_file.externs.push(x@));
                    p = p1;
                },
                TokenKind::Gene => {
                    let (g, p1) = self.parse_gene(p)?;
                    file.genes.push(g);
                    assert(file@.genes =~= old_file.genes.push(g@));
                    p = p1;
                },
                TokenKind::Rule => {
                    let (r, p1) = self.parse_rule(p)?;
                    file.rules.push(r);
                    assert(file@.rules =~= old_file.rules.push(r@));
                    p = p1;
                },
                _ => {
                    return Err(
                        Error::UnexpectedToken(
                            t.fc,
                            ErrorContext::empty().while_parsing("a top level item").expected(
                                "`record`, `gene`, `rule` or `extern`",
                            ),
                        ),
                    );
                },
            }
        }
    }
}

/// Parses the tokens of one file into its syntax tree. `file` names the
/// file even when there are no tokens, so that an error at the end can
/// refer to it.
pub fn parse_file(file: FileId, tokens: Vec<Token>) -> (r: Result<File, Error>)
    ensures
        lift_file(r) == file_of(tokens@, file),
{
    let p = Parser { file, toks: tokens };
    p.parse_file()
}

} // verus!
