use vstd::prelude::*;
use crate::span::{FC, merge_fc};

verus! {

/// A name together with where it was written.
#[derive(Debug, PartialEq, Eq)]
pub struct Identifier(pub FC, pub String);

impl Identifier {
    /// The span of the name.
    pub fn fc(&self) -> (r: FC)
        ensures
            r == self.0,
    {
        self.0
    }
}

/// A type reference: a single nominal name.
#[derive(Debug, PartialEq, Eq)]
pub enum Type {
    Named(Identifier),
}

/// What a binding carries besides its name.
#[derive(Debug, PartialEq, Eq)]
pub enum BindingAttribute {
    /// `n name`: a non-negative quantity.
    Quantity(FC, u64),
    /// `source : name`: the name it renames.
    Name(Identifier),
}

/// A reactant or factor pattern.
#[derive(Debug, PartialEq, Eq)]
pub struct Binding {
    pub fc: FC,
    pub name: Identifier,
    pub attr: Option<BindingAttribute>,
}

#[derive(Debug, Clone, Copy, PartialEq, Eq, Structural)]
pub enum InfixOperator {
    Add,
    Sub,
    Mul,
    Div,
    Eq,
    Neq,
    Lt,
    Lte,
    Gt,
    Gte,
}

#[derive(Debug, Clone, Copy, PartialEq, Eq, Structural)]
pub enum PrefixOperator {
    Neg,
}

#[derive(Debug, PartialEq, Eq)]
pub enum Literal {
    Integer(FC, u64),
    String(FC, String),
}

/// An expression. Infix operators have two operands, `lhs` and `rhs`.
#[derive(Debug, PartialEq, Eq)]
pub enum Expression {
    Variable(Identifier),
    Literal(Literal),
    InfixOp { op: (FC, InfixOperator), lhs: Box<Expression>, rhs: Box<Expression> },
    PrefixOp { op: (FC, PrefixOperator), expr: Box<Expression> },
    /// `[Type]`: the current quantity of a record type.
    Concentration(Identifier),
    FieldAccess { base: Box<Expression>, field_name: Identifier },
}

/// The span of an expression: the merge of the spans of its parts.
pub open spec fn expr_fc(e: Expression) -> FC
    decreases e,
{
    match e {
        Expression::Variable(id) => id.0,
        Expression::Literal(Literal::Integer(fc, _)) => fc,
        Expression::Literal(Literal::String(fc, _)) => fc,
        Expression::InfixOp { op: _, lhs, rhs } => merge_fc(expr_fc(*lhs), expr_fc(*rhs)),
        Expression::PrefixOp { op, expr } => merge_fc(op.0, expr_fc(*expr)),
        Expression::Concentration(id) => id.0,
        Expression::FieldAccess { base, field_name } => merge_fc(expr_fc(*base), field_name.0),
    }
}

impl Expression {
    /// The span of the expression.
    pub fn fc(&self) -> (r: FC)
        ensures
            r == expr_fc(*self),
        decreases self,
    {
        match self {
            Expression::Variable(id) => id.0,
            Expression::Literal(Literal::Integer(fc, _)) => *fc,
            Expression::Literal(Literal::String(fc, _)) => *fc,
            Expression::InfixOp { op: _, lhs, rhs } => lhs.fc().merge(rhs.fc()),
            Expression::PrefixOp { op, expr } => op.0.merge(expr.fc()),
            Expression::Concentration(id) => id.0,
            Expression::FieldAccess { base, field_name } => base.fc().merge(field_name.0),
        }
    }
}

/// A record value to produce: `[n] Name [(field: expr, ...)]`.
#[derive(Debug, PartialEq, Eq)]
pub struct Product {
    pub fc: FC,
    pub quantity: Option<(FC, u64)>,
    pub name: Identifier,
    pub fields: Vec<(Identifier, Expression)>,
}

pub ghost struct ProductV {
    pub fc: FC,
    pub quantity: Option<(FC, u64)>,
    pub name: Identifier,
    pub fields: Seq<(Identifier, Expression)>,
}

impl View for Product {
    type V = ProductV;

    open spec fn view(&self) -> ProductV {
        ProductV { fc: self.fc, quantity: self.quantity, name: self.name, fields: self.fields@ }
    }
}

/// A statement in the body of a gene.
#[derive(Debug, PartialEq, Eq)]
pub enum GeneStatement {
    Call { fc: FC, name: Identifier, arguments: Vec<(Identifier, Expression)> },
    Express(FC, Product),
}

pub ghost enum GeneStatementV {
    Call { fc: FC, name: Identifier, arguments: Seq<(Identifier, Expression)> },
    Express(FC, ProductV),
}

impl View for GeneStatement {
    type V = GeneStatementV;

    open spec fn view(&self) -> GeneStatementV {
        match self {
            GeneStatement::Call { fc, name, arguments } => GeneStatementV::Call {
                fc: *fc,
                name: *name,
                arguments: arguments@,
            },
            GeneStatement::Express(fc, p) => GeneStatementV::Express(*fc, p@),
        }
    }
}

#[derive(Debug, PartialEq, Eq)]
pub struct Record {
    pub fc: FC,
    pub name: Identifier,
    pub fields: Vec<(Identifier, Type)>,
}

pub ghost struct RecordV {
    pub fc: FC,
    pub name: Identifier,
    pub fields: Seq<(Identifier, Type)>,
}

impl View for Record {
    type V = RecordV;

    open spec fn view(&self) -> RecordV {
        RecordV { fc: self.fc, name: self.name, fields: self.fields@ }
    }
}

#[derive(Debug, PartialEq, Eq)]
pub struct Extern {
    pub fc: FC,
    pub name: Identifier,
    pub parameters: Vec<(Identifier, Type)>,
}

pub ghost struct ExternV {
    pub fc: FC,
    pub name: Identifier,
    pub parameters: Seq<(Identifier, Type)>,
}

impl View for Extern {
    type V = ExternV;

    open spec fn view(&self) -> ExternV {
        ExternV { fc: self.fc, name: self.name, parameters: self.parameters@ }
    }
}

#[derive(Debug, PartialEq, Eq)]
pub struct Gene {
    pub fc: FC,
    pub factors: Vec<Binding>,
    pub when: Option<Expression>,
    pub body: Vec<GeneStatement>,
}

pub ghost struct GeneV {
    pub fc: FC,
    pub factors: Seq<Binding>,
    pub when: Option<Expression>,
    pub body: Seq<GeneStatementV>,
}

impl View for Gene {
    type V = GeneV;

    open spec fn view(&self) -> GeneV {
        GeneV {
            fc: self.fc,
            factors: self.factors@,
            when: self.when,
            body: self.body@.map_values(|s: GeneStatement| s@),
        }
    }
}

#[derive(Debug, PartialEq, Eq)]
pub struct Rule {
    pub fc: FC,
    pub reactants: Vec<Binding>,
    pub products: Vec<Product>,
    pub when: Option<Expression>,
}

pub ghost struct RuleV {
    pub fc: FC,
    pub reactants: Seq<Binding>,
    pub products: Seq<ProductV>,
    pub when: Option<Expression>,
}

impl View for Rule {
    type V = RuleV;

    open spec fn view(&self) -> RuleV {
        RuleV {
            fc: self.fc,
            reactants: self.reactants@,
            products: self.products@.map_values(|p: Product| p@),
            when: self.when,
        }
    }
}

/// The root of the tree: the items of one file, each kind in source order.
#[derive(Debug, PartialEq, Eq)]
pub struct File {
    pub records: Vec<Record>,
    pub externs: Vec<Extern>,
    pub genes: Vec<Gene>,
    pub rules: Vec<Rule>,
}

pub ghost struct FileV {
    pub records: Seq<RecordV>,
    pub externs: Seq<ExternV>,
    pub genes: Seq<GeneV>,
    pub rules: Seq<RuleV>,
}

impl View for File {
    type V = FileV;

    open spec fn view(&self) -> FileV {
        FileV {
            records: self.records@.map_values(|r: Record| r@),
            externs: self.externs@.map_values(|e: Extern| e@),
            genes: self.genes@.map_values(|g: Gene| g@),
            rules: self.rules@.map_values(|r: Rule| r@),
        }
    }
}

} // verus!
