use numbat::ast::{BinaryOperator, Expression, Number, ProcedureKind, Statement};
use numbat::decorator::{name_and_aliases, Decorator};
use numbat::prefix::Prefix;
use numbat::prefix_parser::AcceptsPrefix;
use numbat::prefix_transformer::Transformer;
use numbat::span::Span;

fn span(start: u32) -> Span {
    Span { start, end: start + 1, code_source_id: 0 }
}

fn ident(name: &str) -> Expression {
    Expression::Identifier(span(0), name.to_string())
}

fn resolve(t: &mut Transformer, e: Expression) -> Expression {
    let mut out = t.transform(vec![Statement::Expression(e)]).unwrap();
    match out.pop().unwrap() {
        Statement::Expression(e) => e,
        other => panic!("{:?}", other),
    }
}

fn meter_decorators() -> Vec<Decorator> {
    vec![
        Decorator::MetricPrefixes,
        Decorator::Aliases(vec![
            ("metre".to_string(), None),
            ("m".to_string(), Some(AcceptsPrefix::only_short())),
        ]),
    ]
}

fn with_meter() -> Transformer {
    let mut t = Transformer::new();
    assert!(t.register_name_and_aliases(&"meter".to_string(), &meter_decorators(), span(0)).is_ok());
    t
}

#[test]
fn names_of_a_unit_and_its_aliases() {
    let list = name_and_aliases("meter", &meter_decorators());
    assert_eq!(
        list,
        vec![
            ("meter".to_string(), AcceptsPrefix::only_long()),
            ("metre".to_string(), AcceptsPrefix::only_long()),
            ("m".to_string(), AcceptsPrefix::only_short()),
        ]
    );
    let listed = vec![Decorator::Aliases(vec![("meter".to_string(), Some(AcceptsPrefix::none()))])];
    assert_eq!(name_and_aliases("meter", &listed), vec![("meter".to_string(), AcceptsPrefix::none())]);
    assert_eq!(name_and_aliases("s", &vec![]), vec![("s".to_string(), AcceptsPrefix::only_long())]);
}

#[test]
fn the_last_alias_list_counts() {
    let d = vec![
        Decorator::Aliases(vec![("a".to_string(), None)]),
        Decorator::BinaryPrefixes,
        Decorator::Aliases(vec![("b".to_string(), None)]),
        Decorator::MetricPrefixes,
    ];
    assert_eq!(
        name_and_aliases("u", &d),
        vec![("u".to_string(), AcceptsPrefix::only_long()), ("b".to_string(), AcceptsPrefix::only_long())]
    );
}

#[test]
fn a_group_of_unit_names_is_sorted() {
    let t = with_meter();
    assert_eq!(
        t.unit_names(),
        &vec![vec!["m".to_string(), "meter".to_string(), "metre".to_string()]]
    );
}

#[test]
fn the_group_of_a_unit_with_one_alias() {
    let mut t = Transformer::new();
    let decorators = vec![Decorator::Aliases(vec![("m".to_string(), None)])];
    assert!(t.register_name_and_aliases(&"meter".to_string(), &decorators, span(0)).is_ok());
    assert_eq!(t.unit_names(), &vec![vec!["m".to_string(), "meter".to_string()]]);
}

#[test]
fn a_name_given_twice_stands_once_in_its_group() {
    let mut t = Transformer::new();
    let decorators = vec![Decorator::Aliases(vec![
        ("m".to_string(), None),
        ("meter".to_string(), None),
        ("m".to_string(), Some(AcceptsPrefix::only_short())),
    ])];
    assert!(t.register_name_and_aliases(&"meter".to_string(), &decorators, span(0)).is_ok());
    assert_eq!(t.unit_names(), &vec![vec!["m".to_string(), "meter".to_string()]]);
}

#[test]
fn groups_stay_in_the_order_of_declaration() {
    let mut t = with_meter();
    assert!(t.register_name_and_aliases(&"ampere".to_string(), &vec![], span(1)).is_ok());
    assert_eq!(t.unit_names().len(), 2);
    assert_eq!(t.unit_names()[0][0], "m");
    assert_eq!(t.unit_names()[1], vec!["ampere".to_string()]);
}

#[test]
fn identifiers_that_are_units_are_rewritten() {
    let mut t = with_meter();
    match resolve(&mut t, ident("kilometre")) {
        Expression::UnitIdentifier(s, prefix, base, full) => {
            assert_eq!(s, span(0));
            assert_eq!(prefix, Prefix::Metric(3));
            assert_eq!(base, "metre");
            assert_eq!(full, "meter");
        }
        other => panic!("{:?}", other),
    }
    match resolve(&mut t, ident("speed")) {
        Expression::Identifier(_, name) => assert_eq!(name, "speed"),
        other => panic!("{:?}", other),
    }
}

#[test]
fn expressions_are_rewritten_throughout() {
    let mut t = with_meter();
    let e = Expression::BinaryOperator {
        op: BinaryOperator::Mul,
        lhs: Box::new(Expression::Negate(span(1), Box::new(Expression::Scalar(span(2), Number { bits: 7 })))),
        rhs: Box::new(Expression::FunctionCall(
            span(3),
            "f".to_string(),
            vec![ident("km"), ident("x"), ident("m")],
        )),
        span_op: Some(span(4)),
    };
    match resolve(&mut t, e) {
        Expression::BinaryOperator { op, lhs, rhs, span_op } => {
            assert_eq!(op, BinaryOperator::Mul);
            assert_eq!(span_op, Some(span(4)));
            match *lhs {
                Expression::Negate(s, inner) => {
                    assert_eq!(s, span(1));
                    assert!(matches!(*inner, Expression::Scalar(_, Number { bits: 7 })));
                }
                other => panic!("{:?}", other),
            }
            match *rhs {
                Expression::FunctionCall(_, name, args) => {
                    assert_eq!(name, "f");
                    assert_eq!(args.len(), 3);
                    assert!(matches!(&args[0], Expression::UnitIdentifier(_, Prefix::Metric(3), b, _) if b == "m"));
                    assert!(matches!(&args[1], Expression::Identifier(_, n) if n == "x"));
                    assert!(matches!(&args[2], Expression::UnitIdentifier(_, Prefix::Metric(0), b, _) if b == "m"));
                }
                other => panic!("{:?}", other),
            }
        }
        other => panic!("{:?}", other),
    }
}

#[test]
fn a_colliding_second_alias_leaves_no_alias_behind() {
    let mut t = Transformer::new();
    let declared = t.transform(vec![Statement::DeclareVariable {
        identifier_span: span(0),
        identifier: "x".to_string(),
        expr: Expression::Scalar(span(1), Number { bits: 0 }),
        type_annotation_span: None,
        type_annotation: None,
    }]);
    assert!(declared.is_ok());
    let decorators = vec![Decorator::Aliases(vec![("m".to_string(), None), ("x".to_string(), None)])];
    assert!(t.register_name_and_aliases(&"meter".to_string(), &decorators, span(2)).is_err());
    assert!(t.unit_names().is_empty());
    assert!(matches!(resolve(&mut t, ident("m")), Expression::Identifier(_, _)));
    assert!(matches!(resolve(&mut t, ident("meter")), Expression::Identifier(_, _)));
}

#[test]
fn a_declaration_is_seen_by_its_own_body_and_by_what_follows() {
    let mut t = Transformer::new();
    let out = t
        .transform(vec![
            Statement::Expression(ident("s")),
            Statement::DeclareBaseUnit(
                span(1),
                "s".to_string(),
                numbat::ast::DimensionExpression::Dimension(span(2), "Time".to_string()),
                vec![Decorator::MetricPrefixes, Decorator::Aliases(vec![("s".to_string(), Some(AcceptsPrefix::only_short()))])],
            ),
            Statement::DeclareDerivedUnit {
                identifier_span: span(3),
                identifier: "minute".to_string(),
                expr: ident("ms"),
                type_annotation_span: None,
                type_annotation: None,
                decorators: vec![],
            },
            Statement::ProcedureCall(ProcedureKind::Print, vec![ident("minute"), ident("y")]),
        ])
        .unwrap();
    assert_eq!(out.len(), 4);
    assert!(matches!(&out[0], Statement::Expression(Expression::Identifier(_, n)) if n == "s"));
    assert!(matches!(&out[1], Statement::DeclareBaseUnit(_, n, _, d) if n == "s" && d.len() == 2));
    match &out[2] {
        Statement::DeclareDerivedUnit { expr, identifier, .. } => {
            assert_eq!(identifier, "minute");
            assert!(matches!(expr, Expression::UnitIdentifier(_, Prefix::Metric(-3), b, f) if b == "s" && f == "s"));
        }
        other => panic!("{:?}", other),
    }
    match &out[3] {
        Statement::ProcedureCall(ProcedureKind::Print, args) => {
            assert!(matches!(&args[0], Expression::UnitIdentifier(_, Prefix::Metric(0), b, _) if b == "minute"));
            assert!(matches!(&args[1], Expression::Identifier(_, n) if n == "y"));
        }
        other => panic!("{:?}", other),
    }
}

#[test]
fn declarations_fill_their_namespaces() {
    let mut t = with_meter();
    let out = t.transform(vec![
        Statement::DeclareDimension("Length".to_string(), vec![]),
        Statement::DeclareVariable {
            identifier_span: span(0),
            identifier: "speed".to_string(),
            expr: ident("km"),
            type_annotation_span: None,
            type_annotation: None,
        },
        Statement::DeclareFunction {
            function_name_span: span(1),
            function_name: "f".to_string(),
            type_parameters: vec![],
            parameters: vec![(span(2), "a".to_string(), None, false)],
            body: Some(ident("f")),
            return_type_span: None,
            return_type_annotation: None,
        },
    ]);
    let out = out.unwrap();
    assert_eq!(t.dimension_names(), &vec!["Length".to_string()]);
    assert_eq!(t.variable_names(), &vec!["speed".to_string()]);
    assert_eq!(t.function_names(), &vec!["f".to_string()]);
    match &out[1] {
        Statement::DeclareVariable { expr, .. } => {
            assert!(matches!(expr, Expression::UnitIdentifier(_, Prefix::Metric(3), _, _)))
        }
        other => panic!("{:?}", other),
    }
    match &out[2] {
        Statement::DeclareFunction { body, parameters, .. } => {
            assert!(matches!(body, Some(Expression::Identifier(_, n)) if n == "f"));
            assert_eq!(parameters.len(), 1);
        }
        other => panic!("{:?}", other),
    }
}

#[test]
fn a_variable_named_like_a_unit_is_refused() {
    let mut t = with_meter();
    let r = t.transform(vec![
        Statement::DeclareDimension("Length".to_string(), vec![]),
        Statement::DeclareVariable {
            identifier_span: span(5),
            identifier: "km".to_string(),
            expr: Expression::Scalar(span(6), Number { bits: 1 }),
            type_annotation_span: None,
            type_annotation: None,
        },
        Statement::DeclareDimension("Time".to_string(), vec![]),
    ]);
    assert!(r.is_err());
    assert_eq!(t.dimension_names(), &vec!["Length".to_string()]);
    assert!(t.variable_names().is_empty());
}

#[test]
fn a_copy_of_the_transformer_holds_the_same_names() {
    let t = with_meter();
    let c = t.duplicate();
    assert_eq!(c.unit_names(), t.unit_names());
    assert_eq!(c.variable_names(), t.variable_names());
}
