use numbat::ast::{BinaryOperator, Expression, ModulePath, Number, Statement};
use numbat::currency::is_currency_identifier;
use numbat::decorator::Decorator;
use numbat::keywords::is_keyword;
use numbat::prefix_parser::AcceptsPrefix;
use numbat::session::{Action, CodeSource, Event, Step, TypeCheckError};
use numbat::span::Span;
use numbat::{Context, InterpreterSettings, NumbatError, RuntimeError};

fn span(start: u32) -> Span {
    Span { start, end: start + 1, code_source_id: 0 }
}

fn ident(name: &str) -> Expression {
    Expression::Identifier(span(0), name.to_string())
}

fn let_x() -> Vec<Statement> {
    vec![Statement::DeclareVariable {
        identifier_span: span(4),
        identifier: "x".to_string(),
        expr: Expression::Scalar(span(8), Number { bits: 1 }),
        type_annotation_span: None,
        type_annotation: None,
    }]
}

fn unit_meter() -> Vec<Statement> {
    vec![Statement::DeclareBaseUnit(
        span(0),
        "meter".to_string(),
        numbat::ast::DimensionExpression::Dimension(span(1), "Length".to_string()),
        vec![
            Decorator::MetricPrefixes,
            Decorator::Aliases(vec![("m".to_string(), Some(AcceptsPrefix::only_short()))]),
        ],
    )]
}

fn sum_of_currencies() -> Vec<Statement> {
    vec![Statement::Expression(Expression::BinaryOperator {
        op: BinaryOperator::Add,
        lhs: Box::new(ident("USD")),
        rhs: Box::new(ident("EUR")),
        span_op: None,
    })]
}

fn unknown(name: &str) -> TypeCheckError {
    TypeCheckError::UnknownIdentifier(span(0), name.to_string(), None)
}

fn expect_resolve(step: Step, code: &str, restore: bool) {
    assert_eq!(step.restore_type_checker, restore);
    match step.action {
        Action::Resolve { code: c, .. } => assert_eq!(c, code),
        other => panic!("{:?}", other),
    }
}

fn expect_check(step: Step) -> Vec<Statement> {
    assert!(!step.restore_type_checker);
    match step.action {
        Action::TypeCheck { statements } => statements,
        other => panic!("{:?}", other),
    }
}

fn expect_execute(step: Step) -> InterpreterSettings {
    assert!(!step.restore_type_checker);
    match step.action {
        Action::Execute { settings } => settings,
        other => panic!("{:?}", other),
    }
}

fn expect_finished(step: Step, restore: bool) -> Result<(), NumbatError> {
    assert_eq!(step.restore_type_checker, restore);
    match step.action {
        Action::Finished { result } => result,
        other => panic!("{:?}", other),
    }
}

fn run_ok(ctx: &mut Context, code: &str, statements: Vec<Statement>) {
    let step = ctx.interpret(code, CodeSource::Text);
    expect_resolve(step, code, false);
    expect_check(ctx.step(Event::Resolved(Ok(statements))));
    expect_execute(ctx.step(Event::TypeChecked(Ok(()))));
    assert!(expect_finished(ctx.step(Event::Executed(Ok(()))), false).is_ok());
    assert!(ctx.is_idle());
}

#[test]
fn a_new_session_is_idle_and_empty() {
    let ctx = Context::new();
    assert!(ctx.is_idle());
    assert!(!ctx.debug());
    assert!(ctx.variable_names().is_empty());
    assert!(ctx.function_names().is_empty());
    assert!(ctx.unit_names().is_empty());
    assert!(ctx.dimension_names().is_empty());
    assert!(Context::new_without_importer().is_idle());
    assert_eq!(InterpreterSettings::default(), InterpreterSettings { suppress_output: false });
}

#[test]
fn a_successful_call_keeps_what_it_declared() {
    let mut ctx = Context::new();
    run_ok(&mut ctx, "let x = 1", let_x());
    assert_eq!(ctx.variable_names(), &vec!["x".to_string()]);
}

#[test]
fn the_session_waits_for_one_event_at_a_time() {
    let mut ctx = Context::new();
    assert!(!ctx.awaits(&Event::Resolved(Ok(vec![]))));
    ctx.interpret("1", CodeSource::File("a.nbt".to_string()));
    assert!(!ctx.is_idle());
    assert!(ctx.awaits(&Event::Resolved(Ok(vec![]))));
    assert!(!ctx.awaits(&Event::TypeChecked(Ok(()))));
    assert!(!ctx.awaits(&Event::Executed(Ok(()))));
    assert!(!ctx.awaits(&Event::ExchangeRates(None)));
    ctx.step(Event::Resolved(Ok(vec![])));
    assert!(ctx.awaits(&Event::TypeChecked(Ok(()))));
    ctx.step(Event::TypeChecked(Ok(())));
    assert!(ctx.awaits(&Event::Executed(Ok(()))));
}

#[test]
fn a_resolver_error_ends_the_call() {
    let mut ctx = Context::new();
    ctx.interpret("let = ", CodeSource::Text);
    let r = expect_finished(
        ctx.step(Event::Resolved(Err(numbat::session::ResolverError { message: "expected name".to_string() }))),
        false,
    );
    assert!(matches!(r, Err(NumbatError::ResolverError(e)) if e.message == "expected name"));
    assert!(ctx.is_idle());
}

#[test]
fn redeclaration_after_a_type_error() {
    let mut ctx = Context::new();
    ctx.interpret("let x: Length = 1 second", CodeSource::Text);
    expect_check(ctx.step(Event::Resolved(Ok(let_x()))));
    assert_eq!(ctx.variable_names(), &vec!["x".to_string()]);
    let r = expect_finished(
        ctx.step(Event::TypeChecked(Err(TypeCheckError::Other("incompatible dimensions".to_string())))),
        true,
    );
    assert!(matches!(r, Err(NumbatError::TypeCheckError(TypeCheckError::Other(m))) if m == "incompatible dimensions"));
    assert!(ctx.variable_names().is_empty());
    assert!(ctx.is_idle());
    run_ok(&mut ctx, "let x: Length = 1 meter", let_x());
    assert_eq!(ctx.variable_names(), &vec!["x".to_string()]);
}

#[test]
fn a_runtime_error_unbinds_the_name() {
    let mut ctx = Context::new();
    run_ok(&mut ctx, "unit meter", unit_meter());
    ctx.interpret("let x = 1 / 0", CodeSource::Text);
    expect_check(ctx.step(Event::Resolved(Ok(let_x()))));
    let settings = expect_execute(ctx.step(Event::TypeChecked(Ok(()))));
    assert!(!settings.suppress_output);
    let r = expect_finished(
        ctx.step(Event::Executed(Err(RuntimeError::Other("division by zero".to_string())))),
        true,
    );
    assert!(matches!(r, Err(NumbatError::RuntimeError(RuntimeError::Other(m))) if m == "division by zero"));
    assert!(ctx.variable_names().is_empty());
    assert_eq!(ctx.unit_names().len(), 1);
    // `x` is free again: a unit of that name is accepted.
    let unit_x = vec![Statement::DeclareBaseUnit(
        span(0),
        "x".to_string(),
        numbat::ast::DimensionExpression::Unity(span(1)),
        vec![],
    )];
    run_ok(&mut ctx, "unit x", unit_x);
    assert_eq!(ctx.unit_names().len(), 2);
}

#[test]
fn a_name_clash_leaves_no_trace() {
    let mut ctx = Context::new();
    run_ok(&mut ctx, "unit meter", unit_meter());
    ctx.interpret("dimension D\nlet km = 1", CodeSource::Text);
    let statements = vec![
        Statement::DeclareDimension("D".to_string(), vec![]),
        Statement::DeclareVariable {
            identifier_span: span(16),
            identifier: "km".to_string(),
            expr: Expression::Scalar(span(21), Number { bits: 1 }),
            type_annotation_span: None,
            type_annotation: None,
        },
    ];
    let r = expect_finished(ctx.step(Event::Resolved(Ok(statements))), false);
    match r {
        Err(NumbatError::NameResolutionError(numbat::NameResolutionError::IdentifierClash {
            conflicting_identifier,
            conflict_span,
            original_span,
        })) => {
            assert_eq!(conflicting_identifier, "km");
            assert_eq!(conflict_span, span(16));
            assert_eq!(original_span, span(0));
        }
        other => panic!("{:?}", other),
    }
    assert!(ctx.is_idle());
    assert!(ctx.dimension_names().is_empty());
    assert!(ctx.variable_names().is_empty());
}

#[test]
fn passing_settings_on_to_the_run() {
    let mut ctx = Context::new();
    let step = ctx.interpret_with_settings(InterpreterSettings { suppress_output: true }, "1", CodeSource::Internal);
    match step.action {
        Action::Resolve { code, source } => {
            assert_eq!(code, "1");
            assert!(matches!(source, CodeSource::Internal));
        }
        other => panic!("{:?}", other),
    }
    expect_check(ctx.step(Event::Resolved(Ok(vec![]))));
    assert!(expect_execute(ctx.step(Event::TypeChecked(Ok(())))).suppress_output);
}

#[test]
fn an_unknown_currency_loads_the_module_once() {
    let mut ctx = Context::new();
    ctx.load_currency_module_on_demand(true);
    ctx.set_exchange_rates("<rates/>");
    ctx.interpret_with_settings(InterpreterSettings { suppress_output: false }, "2 USD + 3 EUR", CodeSource::File("m.nbt".to_string()));
    expect_check(ctx.step(Event::Resolved(Ok(sum_of_currencies()))));
    // the first run fails: the module is asked for, the checker put back
    let step = ctx.step(Event::TypeChecked(Err(unknown("USD"))));
    assert!(step.restore_type_checker);
    match step.action {
        Action::Resolve { code, source } => {
            assert_eq!(code, "use units::currencies");
            assert!(matches!(source, CodeSource::Internal));
        }
        other => panic!("{:?}", other),
    }
    let import = vec![
        Statement::ModuleImport(span(0), ModulePath(vec!["units".to_string(), "currencies".to_string()])),
        Statement::DeclareBaseUnit(
            span(0),
            "USD".to_string(),
            numbat::ast::DimensionExpression::Dimension(span(1), "Money".to_string()),
            vec![],
        ),
    ];
    expect_check(ctx.step(Event::Resolved(Ok(import))));
    // the module runs silently
    assert!(expect_execute(ctx.step(Event::TypeChecked(Ok(())))).suppress_output);
    // then the caller's code is read again, from its own source
    let step = ctx.step(Event::Executed(Ok(())));
    assert!(!step.restore_type_checker);
    match step.action {
        Action::Resolve { code, source } => {
            assert_eq!(code, "2 USD + 3 EUR");
            assert!(matches!(source, CodeSource::File(name) if name == "m.nbt"));
        }
        other => panic!("{:?}", other),
    }
    let again = expect_check(ctx.step(Event::Resolved(Ok(sum_of_currencies()))));
    match &again[0] {
        Statement::Expression(Expression::BinaryOperator { lhs, rhs, .. }) => {
            assert!(matches!(&**lhs, Expression::UnitIdentifier(_, _, _, full) if full == "USD"));
            assert!(matches!(&**rhs, Expression::Identifier(_, n) if n == "EUR"));
        }
        other => panic!("{:?}", other),
    }
    // EUR is still unknown: the call ends with that error, no second import
    let r = expect_finished(ctx.step(Event::TypeChecked(Err(unknown("EUR")))), true);
    assert!(matches!(r, Err(NumbatError::TypeCheckError(TypeCheckError::UnknownIdentifier(_, n, _))) if n == "EUR"));
    assert!(ctx.is_idle());
    // the module stays loaded
    assert_eq!(ctx.unit_names(), &vec![vec!["USD".to_string()]]);
    // and the policy is off for the rest of the session
    ctx.interpret("3 EUR", CodeSource::Text);
    expect_check(ctx.step(Event::Resolved(Ok(vec![Statement::Expression(ident("EUR"))]))));
    let r = expect_finished(ctx.step(Event::TypeChecked(Err(unknown("EUR")))), true);
    assert!(matches!(r, Err(NumbatError::TypeCheckError(_))));
}

#[test]
fn missing_exchange_rates_are_fetched() {
    let mut ctx = Context::new();
    ctx.load_currency_module_on_demand(true);
    ctx.set_debug(true);
    assert!(ctx.debug());
    ctx.interpret("1 €", CodeSource::Text);
    expect_check(ctx.step(Event::Resolved(Ok(vec![Statement::Expression(ident("€"))]))));
    let step = ctx.step(Event::TypeChecked(Err(unknown("€"))));
    assert!(step.restore_type_checker);
    assert!(matches!(step.action, Action::FetchExchangeRates));
    assert!(ctx.awaits(&Event::ExchangeRates(None)));
    expect_resolve(ctx.step(Event::ExchangeRates(Some("<rates/>".to_string()))), "use units::currencies", false);
    // a failing module ends the call and leaves the policy on
    let r = expect_finished(
        ctx.step(Event::Resolved(Err(numbat::session::ResolverError { message: "no module".to_string() }))),
        false,
    );
    assert!(matches!(r, Err(NumbatError::ResolverError(_))));
    // the rates are there now: the next unknown currency goes straight to the module
    ctx.interpret("1 €", CodeSource::Text);
    expect_check(ctx.step(Event::Resolved(Ok(vec![Statement::Expression(ident("€"))]))));
    expect_resolve(ctx.step(Event::TypeChecked(Err(unknown("€")))), "use units::currencies", true);
}

#[test]
fn exchange_rates_that_cannot_be_had_are_an_error() {
    let mut ctx = Context::new();
    ctx.load_currency_module_on_demand(true);
    ctx.interpret("1 yen", CodeSource::Text);
    expect_check(ctx.step(Event::Resolved(Ok(vec![Statement::Expression(ident("yen"))]))));
    assert!(matches!(ctx.step(Event::TypeChecked(Err(unknown("yen")))).action, Action::FetchExchangeRates));
    let r = expect_finished(ctx.step(Event::ExchangeRates(None)), false);
    assert!(matches!(r, Err(NumbatError::RuntimeError(RuntimeError::CouldNotLoadExchangeRates))));
    assert!(ctx.is_idle());
}

#[test]
fn rates_that_arrive_while_they_are_fetched_count() {
    let mut ctx = Context::new();
    ctx.load_currency_module_on_demand(true);
    ctx.interpret("1 yen", CodeSource::Text);
    expect_check(ctx.step(Event::Resolved(Ok(vec![Statement::Expression(ident("yen"))]))));
    assert!(matches!(ctx.step(Event::TypeChecked(Err(unknown("yen")))).action, Action::FetchExchangeRates));
    ctx.set_exchange_rates("<rates/>");
    expect_resolve(ctx.step(Event::ExchangeRates(None)), "use units::currencies", false);
}

#[test]
fn without_the_policy_an_unknown_currency_is_an_error() {
    let mut ctx = Context::new();
    ctx.set_exchange_rates("<rates/>");
    ctx.interpret("1 USD", CodeSource::Text);
    expect_check(ctx.step(Event::Resolved(Ok(vec![Statement::Expression(ident("USD"))]))));
    let r = expect_finished(ctx.step(Event::TypeChecked(Err(unknown("USD")))), true);
    assert!(matches!(r, Err(NumbatError::TypeCheckError(_))));
}

#[test]
fn an_unknown_name_that_is_no_currency_is_an_error() {
    let mut ctx = Context::new();
    ctx.load_currency_module_on_demand(true);
    ctx.set_exchange_rates("<rates/>");
    ctx.interpret("foo", CodeSource::Text);
    expect_check(ctx.step(Event::Resolved(Ok(vec![Statement::Expression(ident("foo"))]))));
    let r = expect_finished(ctx.step(Event::TypeChecked(Err(unknown("foo")))), true);
    assert!(matches!(r, Err(NumbatError::TypeCheckError(_))));
    // the policy is still on
    ctx.interpret("1 USD", CodeSource::Text);
    expect_check(ctx.step(Event::Resolved(Ok(vec![Statement::Expression(ident("USD"))]))));
    expect_resolve(ctx.step(Event::TypeChecked(Err(unknown("USD")))), "use units::currencies", true);
}

#[test]
fn the_names_of_currencies() {
    for name in ["$", "USD", "元", "€", "icelandic_króna", "ZAR", "south_african_rand", "NIS", "Kč"] {
        assert!(is_currency_identifier(name), "{}", name);
    }
    for name in ["", "usd", "EURO", "meter", "US", "USDD"] {
        assert!(!is_currency_identifier(name), "{}", name);
    }
    assert_eq!(numbat::currency::CURRENCY_IDENTIFIER_COUNT, 113);
    assert_eq!(numbat::currency::currency_identifier(0), "$");
    assert_eq!(numbat::currency::currency_identifier(112), "ZAR");
}

#[test]
fn the_keywords() {
    assert!(is_keyword("let "));
    assert!(is_keyword("print("));
    assert!(!is_keyword("let"));
    assert_eq!(numbat::keywords::keyword(0), "per ");
}

#[test]
fn completions_of_m() {
    let mut ctx = Context::new();
    run_ok(&mut ctx, "unit meter", unit_meter());
    let speed = vec![Statement::DeclareVariable {
        identifier_span: span(4),
        identifier: "speed".to_string(),
        expr: Expression::Scalar(span(8), Number { bits: 1 }),
        type_annotation_span: None,
        type_annotation: None,
    }];
    run_ok(&mut ctx, "let speed = 1", speed);
    assert_eq!(
        ctx.get_completions_for("m"),
        vec!["m".to_string(), "meter".to_string(), "metric_prefixes".to_string()]
    );
    assert_eq!(ctx.get_completions_for("sp"), vec!["speed".to_string()]);
    assert_eq!(ctx.get_completions_for("speeds"), Vec::<String>::new());
}

#[test]
fn completions_of_functions_and_dimensions() {
    let mut ctx = Context::new();
    let statements = vec![
        Statement::DeclareDimension("Length".to_string(), vec![]),
        Statement::DeclareFunction {
            function_name_span: span(0),
            function_name: "lerp".to_string(),
            type_parameters: vec![],
            parameters: vec![],
            body: None,
            return_type_span: None,
            return_type_annotation: None,
        },
        Statement::DeclareFunction {
            function_name_span: span(0),
            function_name: "lerp".to_string(),
            type_parameters: vec![],
            parameters: vec![],
            body: None,
            return_type_span: None,
            return_type_annotation: None,
        },
    ];
    run_ok(&mut ctx, "dimension Length", statements);
    assert_eq!(ctx.function_names().len(), 2);
    assert_eq!(ctx.get_completions_for("le"), vec!["lerp(".to_string(), "let ".to_string()]);
    assert_eq!(ctx.get_completions_for("L"), vec!["Length".to_string()]);
    let all = ctx.get_completions_for("");
    assert_eq!(all.len(), 17 + 2);
    assert_eq!(all[0], "Length");
}

fn unit_with_alias(name: &str, alias: &str) -> Vec<Statement> {
    vec![Statement::DeclareBaseUnit(
        span(0),
        name.to_string(),
        numbat::ast::DimensionExpression::Unity(span(1)),
        vec![Decorator::Aliases(vec![(alias.to_string(), Some(AcceptsPrefix::only_short()))])],
    )]
}

#[test]
fn one_group_for_each_unit_in_the_order_of_declaration() {
    let mut ctx = Context::new();
    run_ok(&mut ctx, "unit second", unit_with_alias("second", "s"));
    run_ok(&mut ctx, "unit meter", unit_with_alias("meter", "m"));
    assert_eq!(
        ctx.unit_names(),
        &vec![
            vec!["s".to_string(), "second".to_string()],
            vec!["m".to_string(), "meter".to_string()],
        ]
    );
}

#[test]
fn a_copy_of_a_session_goes_its_own_way() {
    let mut ctx = Context::new();
    ctx.load_currency_module_on_demand(true);
    ctx.set_debug(true);
    run_ok(&mut ctx, "unit meter", unit_meter());
    ctx.interpret("let x = 1", CodeSource::Text);
    expect_check(ctx.step(Event::Resolved(Ok(let_x()))));
    let mut copy = ctx.duplicate();
    assert!(copy.debug());
    assert!(copy.awaits(&Event::TypeChecked(Ok(()))));
    assert_eq!(copy.variable_names(), ctx.variable_names());
    assert_eq!(copy.unit_names(), ctx.unit_names());
    // the copy fails and forgets `x`; the session it was made from goes on
    assert!(expect_finished(copy.step(Event::TypeChecked(Err(TypeCheckError::Other("no".to_string())))), true).is_err());
    assert!(copy.variable_names().is_empty());
    assert_eq!(copy.unit_names().len(), 1);
    expect_execute(ctx.step(Event::TypeChecked(Ok(()))));
    assert!(expect_finished(ctx.step(Event::Executed(Ok(()))), false).is_ok());
    assert_eq!(ctx.variable_names(), &vec!["x".to_string()]);
    // the policy was copied too
    copy.interpret("1 USD", CodeSource::Text);
    expect_check(copy.step(Event::Resolved(Ok(vec![Statement::Expression(ident("USD"))]))));
    assert!(matches!(copy.step(Event::TypeChecked(Err(unknown("USD")))).action, Action::FetchExchangeRates));
}

#[test]
fn exchange_rates_are_set_once() {
    let mut ctx = Context::new();
    ctx.set_exchange_rates("first");
    ctx.set_exchange_rates("second");
    ctx.load_currency_module_on_demand(true);
    ctx.interpret("1 USD", CodeSource::Text);
    expect_check(ctx.step(Event::Resolved(Ok(vec![Statement::Expression(ident("USD"))]))));
    expect_resolve(ctx.step(Event::TypeChecked(Err(unknown("USD")))), "use units::currencies", true);
}
