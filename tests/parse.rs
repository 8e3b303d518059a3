use cytosol_parser::ast::{
    Binding, BindingAttribute, Expression, GeneStatement, Identifier, InfixOperator, Literal,
    PrefixOperator, Type,
};
use cytosol_parser::error::{Error, ErrorContext};
use cytosol_parser::parser::{parse_file, Parser};
use cytosol_parser::span::{FileId, FC};
use cytosol_parser::token::TokenKind::{
    ArrowR, BraceClose, BraceOpen, BracketClose, BracketOpen, Call, Colon, Comma, Dot, Express,
    Extern, Gene, IntegerLiteral, Nothing, OpLessThan, OpMinus, OpPlus, OpStar, ParenClose,
    ParenOpen, Record, Rule, StringLiteral, When,
};
use cytosol_parser::token::{Token, TokenKind};

const FILE: FileId = FileId(7);

fn fc(i: usize) -> FC {
    FC { file: FILE, start: 10 * i, end: 10 * i + 5 }
}

fn span(i: usize, j: usize) -> FC {
    FC { file: FILE, start: 10 * i, end: 10 * j + 5 }
}

fn toks(kinds: Vec<TokenKind>) -> Vec<Token> {
    kinds.into_iter().enumerate().map(|(i, kind)| Token { kind, fc: fc(i) }).collect()
}

fn id(s: &str) -> TokenKind {
    TokenKind::Identifier(s.to_string())
}

fn ident(i: usize, s: &str) -> Identifier {
    Identifier(fc(i), s.to_string())
}

fn var(i: usize, s: &str) -> Expression {
    Expression::Variable(ident(i, s))
}


#[test]
fn empty_input_gives_empty_file() {
    let f = parse_file(FILE, vec![]).unwrap();
    assert!(f.records.is_empty());
    assert!(f.externs.is_empty());
    assert!(f.genes.is_empty());
    assert!(f.rules.is_empty());
}

#[test]
fn record_without_fields() {
    let f = parse_file(FILE, toks(vec![Record, id("Foo")])).unwrap();
    assert_eq!(f.records.len(), 1);
    let r = &f.records[0];
    assert_eq!(r.name, ident(1, "Foo"));
    assert!(r.fields.is_empty());
    assert_eq!(r.fc, fc(0).merge(fc(1)));
    assert_eq!(r.fc, span(0, 1));
}

#[test]
fn record_with_empty_parens() {
    let f = parse_file(FILE, toks(vec![Record, id("Foo"), ParenOpen, ParenClose])).unwrap();
    let r = &f.records[0];
    assert!(r.fields.is_empty());
    assert_eq!(r.fc, span(0, 3));
}

#[test]
fn record_with_fields() {
    let f = parse_file(
        FILE,
        toks(vec![Record, id("P"), ParenOpen, id("x"), Colon, id("Int"), Comma, id("y"), Colon,
            id("Str"), ParenClose]),
    )
    .unwrap();
    let r = &f.records[0];
    assert_eq!(
        r.fields,
        vec![
            (ident(3, "x"), Type::Named(ident(5, "Int"))),
            (ident(7, "y"), Type::Named(ident(9, "Str"))),
        ]
    );
    assert_eq!(r.fc, span(0, 10));
}

#[test]
fn extern_with_trailing_comma() {
    let f = parse_file(
        FILE,
        toks(vec![Extern, id("f"), ParenOpen, id("a"), Colon, id("Int"), Comma, id("b"), Colon,
            id("Int"), Comma, ParenClose]),
    )
    .unwrap();
    assert_eq!(f.externs.len(), 1);
    let e = &f.externs[0];
    assert_eq!(e.name, ident(1, "f"));
    assert_eq!(
        e.parameters,
        vec![
            (ident(3, "a"), Type::Named(ident(5, "Int"))),
            (ident(7, "b"), Type::Named(ident(9, "Int"))),
        ]
    );
    assert_eq!(e.fc, span(0, 11));
}

#[test]
fn infix_operators_fold_left_at_one_level() {
    let p = Parser { file: FILE, toks: toks(vec![id("a"), OpPlus, id("b"), OpStar, id("c")]) };
    let (e, end) = p.parse_expression(0, ErrorContext::empty()).unwrap();
    assert_eq!(end, 5);
    let add = Expression::InfixOp {
        op: (fc(1), InfixOperator::Add),
        lhs: Box::new(var(0, "a")),
        rhs: Box::new(var(2, "b")),
    };
    let expected = Expression::InfixOp {
        op: (fc(3), InfixOperator::Mul),
        lhs: Box::new(add),
        rhs: Box::new(var(4, "c")),
    };
    assert_eq!(e, expected);
    assert_eq!(e.fc(), span(0, 4));
}

#[test]
fn infix_in_a_product_field() {
    // rule () -> X(v: a + b * c)
    let f = parse_file(
        FILE,
        toks(vec![Rule, ParenOpen, ParenClose, ArrowR, id("X"), ParenOpen, id("v"), Colon,
            id("a"), OpPlus, id("b"), OpStar, id("c"), ParenClose]),
    )
    .unwrap();
    let prod = &f.rules[0].products[0];
    let (_, e) = &prod.fields[0];
    match e {
        Expression::InfixOp { op: (_, InfixOperator::Mul), lhs, .. } => {
            assert!(matches!(**lhs, Expression::InfixOp { op: (_, InfixOperator::Add), .. }));
        }
        _ => panic!("expected a multiplication at the root"),
    }
    assert_eq!(prod.fc, span(4, 13));
    assert_eq!(f.rules[0].fc, span(0, 13));
}

#[test]
fn gene_with_nothing_in_it() {
    let f = parse_file(FILE, toks(vec![Gene, ParenOpen, ParenClose, BraceOpen, BraceClose]))
        .unwrap();
    let g = &f.genes[0];
    assert!(g.factors.is_empty());
    assert!(g.when.is_none());
    assert!(g.body.is_empty());
    assert_eq!(g.fc, span(0, 4));
}

#[test]
fn gene_with_guard_and_call() {
    // gene (x) when a { call f() }
    let f = parse_file(
        FILE,
        toks(vec![Gene, ParenOpen, id("x"), ParenClose, When, id("a"), BraceOpen, Call, id("f"),
            ParenOpen, ParenClose, BraceClose]),
    )
    .unwrap();
    let g = &f.genes[0];
    assert_eq!(g.factors, vec![Binding { fc: fc(2), name: ident(2, "x"), attr: None }]);
    assert_eq!(g.when, Some(var(5, "a")));
    assert_eq!(
        g.body,
        vec![GeneStatement::Call { fc: span(7, 10), name: ident(8, "f"), arguments: vec![] }]
    );
    assert_eq!(g.fc, span(0, 11));
}

#[test]
fn unknown_leading_token_is_rejected() {
    let r = parse_file(FILE, toks(vec![When, id("a")]));
    match r {
        Err(Error::UnexpectedToken(at, ctx)) => {
            assert_eq!(at, fc(0));
            assert_eq!(ctx.while_parsing, "a top level item");
            let expected = ctx.expected.unwrap();
            for kw in ["`record`", "`extern`", "`gene`", "`rule`"] {
                assert!(expected.contains(kw));
            }
        }
        other => panic!("unexpected result {:?}", other),
    }
}

#[test]
fn unterminated_list_ends_unexpectedly() {
    let cases = vec![
        vec![Record, id("Foo"), ParenOpen, id("a"), Colon, id("Int"), Comma],
        vec![Record, id("Foo"), ParenOpen, id("a"), Colon, id("Int")],
        vec![Gene, ParenOpen, id("x")],
        vec![Gene, ParenOpen, id("x"), ParenClose, BraceOpen],
        vec![Extern, id("f"), ParenOpen],
    ];
    for c in cases {
        let r = parse_file(FILE, toks(c));
        assert!(matches!(r, Err(Error::UnexpectedEnd(FILE, _))), "{:?}", r);
    }
}

#[test]
fn rule_with_nothing_produced() {
    let f = parse_file(FILE, toks(vec![Rule, ParenOpen, id("x"), ParenClose, ArrowR, Nothing]))
        .unwrap();
    let r = &f.rules[0];
    assert_eq!(r.reactants.len(), 1);
    assert!(r.products.is_empty());
    assert!(r.when.is_none());
    assert_eq!(r.fc, span(0, 5));
}

#[test]
fn binding_forms() {
    // rule (2 a, b : c, d) -> nothing
    let f = parse_file(
        FILE,
        toks(vec![Rule, ParenOpen, IntegerLiteral(2), id("a"), Comma, id("b"), Colon, id("c"),
            Comma, id("d"), ParenClose, ArrowR, Nothing]),
    )
    .unwrap();
    assert_eq!(
        f.rules[0].reactants,
        vec![
            Binding {
                fc: span(2, 3),
                name: ident(3, "a"),
                attr: Some(BindingAttribute::Quantity(fc(2), 2)),
            },
            Binding {
                fc: span(5, 7),
                name: ident(7, "c"),
                attr: Some(BindingAttribute::Name(ident(5, "b"))),
            },
            Binding { fc: fc(9), name: ident(9, "d"), attr: None },
        ]
    );
}

#[test]
fn bad_binding_is_rejected() {
    let r = parse_file(FILE, toks(vec![Rule, ParenOpen, Comma]));
    match r {
        Err(Error::UnexpectedToken(at, ctx)) => {
            assert_eq!(at, fc(2));
            assert_eq!(ctx.expected, Some("a quantity or identifier"));
        }
        other => panic!("unexpected result {:?}", other),
    }
}

#[test]
fn missing_separator_is_rejected() {
    let r = parse_file(
        FILE,
        toks(vec![Extern, id("f"), ParenOpen, id("a"), Colon, id("Int"), id("b")]),
    );
    match r {
        Err(Error::UnexpectedToken(at, ctx)) => {
            assert_eq!(at, fc(6));
            assert_eq!(ctx.expected, Some("`,` or `)`"));
        }
        other => panic!("unexpected result {:?}", other),
    }
}

#[test]
fn rule_with_products_and_guard() {
    // rule (x) -> 2 A + B(n: 1) when [A] < 3
    let f = parse_file(
        FILE,
        toks(vec![Rule, ParenOpen, id("x"), ParenClose, ArrowR, IntegerLiteral(2), id("A"),
            OpPlus, id("B"), ParenOpen, id("n"), Colon, IntegerLiteral(1), ParenClose, When,
            BracketOpen, id("A"), BracketClose, OpLessThan, IntegerLiteral(3)]),
    )
    .unwrap();
    let r = &f.rules[0];
    assert_eq!(r.products.len(), 2);
    assert_eq!(r.products[0].quantity, Some((fc(5), 2)));
    assert_eq!(r.products[0].fc, span(5, 6));
    assert_eq!(r.products[1].quantity, None);
    assert_eq!(
        r.products[1].fields,
        vec![(ident(10, "n"), Expression::Literal(Literal::Integer(fc(12), 1)))]
    );
    assert_eq!(
        r.when,
        Some(Expression::InfixOp {
            op: (fc(18), InfixOperator::Lt),
            lhs: Box::new(Expression::Concentration(ident(16, "A"))),
            rhs: Box::new(Expression::Literal(Literal::Integer(fc(19), 3))),
        })
    );
    assert_eq!(r.fc, span(0, 19));
}

#[test]
fn express_statement_and_atoms() {
    // gene () { express P(v: -x.y.z, s: "t") }
    let f = parse_file(
        FILE,
        toks(vec![Gene, ParenOpen, ParenClose, BraceOpen, Express, id("P"), ParenOpen, id("v"),
            Colon, OpMinus, id("x"), Dot, id("y"), Dot, id("z"), Comma, id("s"), Colon,
            StringLiteral("t".to_string()), ParenClose, BraceClose]),
    )
    .unwrap();
    let g = &f.genes[0];
    match &g.body[0] {
        GeneStatement::Express(at, p) => {
            assert_eq!(*at, span(4, 19));
            assert_eq!(p.fc, span(5, 19));
            let inner = Expression::FieldAccess {
                base: Box::new(var(10, "x")),
                field_name: ident(12, "y"),
            };
            let chain = Expression::FieldAccess { base: Box::new(inner), field_name: ident(14, "z") };
            assert_eq!(
                p.fields[0].1,
                Expression::PrefixOp { op: (fc(9), PrefixOperator::Neg), expr: Box::new(chain) }
            );
            assert_eq!(p.fields[0].1.fc(), span(9, 14));
            assert_eq!(
                p.fields[1].1,
                Expression::Literal(Literal::String(fc(18), "t".to_string()))
            );
        }
        other => panic!("unexpected statement {:?}", other),
    }
}

#[test]
fn parentheses_add_no_node() {
    let p = Parser {
        file: FILE,
        toks: toks(vec![id("a"), OpStar, ParenOpen, id("b"), OpMinus, id("c"), ParenClose]),
    };
    let (e, end) = p.parse_expression(0, ErrorContext::empty()).unwrap();
    assert_eq!(end, 7);
    let inner = Expression::InfixOp {
        op: (fc(4), InfixOperator::Sub),
        lhs: Box::new(var(3, "b")),
        rhs: Box::new(var(5, "c")),
    };
    assert_eq!(
        e,
        Expression::InfixOp {
            op: (fc(1), InfixOperator::Mul),
            lhs: Box::new(var(0, "a")),
            rhs: Box::new(inner),
        }
    );
}

#[test]
fn bad_gene_statement_is_rejected() {
    let r = parse_file(FILE, toks(vec![Gene, ParenOpen, ParenClose, BraceOpen, id("x")]));
    match r {
        Err(Error::UnexpectedToken(at, ctx)) => {
            assert_eq!(at, fc(4));
            assert_eq!(ctx.expected, Some("`call` or `express`"));
        }
        other => panic!("unexpected result {:?}", other),
    }
}

#[test]
fn items_keep_their_order() {
    let f = parse_file(
        FILE,
        toks(vec![Record, id("A"), Rule, ParenOpen, ParenClose, ArrowR, Nothing, Record, id("B")]),
    )
    .unwrap();
    assert_eq!(f.records.len(), 2);
    assert_eq!(f.records[0].name, ident(1, "A"));
    assert_eq!(f.records[1].name, ident(8, "B"));
    assert_eq!(f.rules.len(), 1);
}

#[test]
fn merge_covers_both_spans() {
    let a = FC { file: FILE, start: 4, end: 9 };
    let b = FC { file: FILE, start: 1, end: 6 };
    assert_eq!(a.merge(b), FC { file: FILE, start: 1, end: 9 });
    assert_eq!(b.merge(a), FC { file: FILE, start: 1, end: 9 });
}

#[test]
fn error_context_updates_one_field_each() {
    let base = ErrorContext::default();
    assert_eq!(base.start, None);
    assert_eq!(base.while_parsing, "");
    assert_eq!(base.expected, None);
    let c = base.start(fc(2), "record definition").while_parsing("a record").expected("`(`");
    assert_eq!(c.start, Some((fc(2), "record definition")));
    assert_eq!(c.while_parsing, "a record");
    assert_eq!(c.expected, Some("`(`"));
    let d = c.while_parsing("a field");
    assert_eq!(d.while_parsing, "a field");
    assert_eq!(d.start, c.start);
    assert_eq!(d.expected, c.expected);
    assert_eq!(base.while_parsing, "");
}

#[test]
fn unexpected_end_names_the_file() {
    let r = parse_file(FileId(3), vec![Token { kind: Record, fc: FC { file: FileId(3), start: 0, end: 6 } }]);
    match r {
        Err(Error::UnexpectedEnd(f, ctx)) => {
            assert_eq!(f, FileId(3));
            assert_eq!(ctx.expected, Some("an identifier"));
        }
        other => panic!("unexpected result {:?}", other),
    }
}

#[test]
fn rule_span_covers_a_parenthesised_guard() {
    // rule (x) -> nothing when (a)
    let f = parse_file(
        FILE,
        toks(vec![Rule, ParenOpen, id("x"), ParenClose, ArrowR, Nothing, When, ParenOpen, id("a"),
            ParenClose]),
    )
    .unwrap();
    let r = &f.rules[0];
    assert_eq!(r.when, Some(var(8, "a")));
    assert_eq!(r.fc, span(0, 9));
}

#[test]
fn rule_span_covers_a_concentration_guard() {
    // rule () -> A when [A]
    let f = parse_file(
        FILE,
        toks(vec![Rule, ParenOpen, ParenClose, ArrowR, id("A"), When, BracketOpen, id("A"),
            BracketClose]),
    )
    .unwrap();
    let r = &f.rules[0];
    assert_eq!(r.when, Some(Expression::Concentration(ident(7, "A"))));
    assert_eq!(r.fc, span(0, 8));
}

#[test]
fn separated_products_need_a_first_token() {
    let p = Parser { file: FILE, toks: vec![] };
    let list_ctx = ErrorContext::empty().while_parsing("a product list");
    let product_ctx = ErrorContext::empty().while_parsing("a product");
    match p.separated(0, list_ctx, product_ctx) {
        Err(Error::UnexpectedEnd(f, ctx)) => {
            assert_eq!(f, FILE);
            assert_eq!(ctx.while_parsing, "a product list");
            assert_eq!(ctx.expected, None);
        }
        other => panic!("unexpected result {:?}", other),
    }
}

#[test]
fn separated_products_keep_their_order() {
    // A + 2 B
    let p = Parser { file: FILE, toks: toks(vec![id("A"), OpPlus, IntegerLiteral(2), id("B")]) };
    let ctx = ErrorContext::empty();
    let (fc_all, prods, end) = p.separated(0, ctx, ctx).unwrap();
    assert_eq!(end, 4);
    assert_eq!(fc_all, span(0, 3));
    assert_eq!(prods.len(), 2);
    assert_eq!(prods[0].name, ident(0, "A"));
    assert_eq!(prods[1].quantity, Some((fc(2), 2)));
    assert_eq!(prods[1].fc, span(2, 3));
}

#[test]
fn product_list_span_merges_first_and_last_products() {
    // A(x: y) + B, where the `)` ends after `B`
    let mut ts = toks(vec![id("A"), ParenOpen, id("x"), Colon, id("y"), ParenClose, OpPlus, id("B")]);
    ts[5].fc = FC { file: FILE, start: 50, end: 1000 };
    let p = Parser { file: FILE, toks: ts };
    let (list_fc, prods, end) = p.parse_product_list(0, ErrorContext::empty()).unwrap();
    assert_eq!(end, 8);
    assert_eq!(prods[0].fc, FC { file: FILE, start: 0, end: 1000 });
    assert_eq!(prods[1].fc, fc(7));
    assert_eq!(list_fc, prods[0].fc.merge(prods[1].fc));
    assert_eq!(list_fc, FC { file: FILE, start: 0, end: 1000 });
}
