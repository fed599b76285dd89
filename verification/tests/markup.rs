use numbat::ast::{DimensionExpression, Statement};
use numbat::decorator::Decorator;
use numbat::markup::{environment_markup, FormatType, FormattedString, Markup};
use numbat::session::{Action, CodeSource, Event};
use numbat::span::Span;
use numbat::Context;

fn flat(markup: &Markup) -> Vec<(FormatType, &str)> {
    markup.0.iter().map(|FormattedString(kind, text)| (*kind, text.as_str())).collect()
}

fn strings(names: &[&str]) -> Vec<String> {
    names.iter().map(|n| n.to_string()).collect()
}

const WS: FormatType = FormatType::Whitespace;
const TEXT: FormatType = FormatType::Text;

#[test]
fn an_empty_environment() {
    let m = environment_markup(&vec![], &vec![], &vec![], &vec![]);
    assert_eq!(
        flat(&m),
        vec![
            (TEXT, "List of functions:"),
            (WS, "\n"),
            (WS, "\n"),
            (TEXT, "List of dimensions:"),
            (WS, "\n"),
            (WS, "\n"),
            (TEXT, "List of units:"),
            (WS, "\n"),
            (WS, "\n"),
            (TEXT, "List of variables:"),
            (WS, "\n"),
        ]
    );
}

#[test]
fn the_names_of_a_unit_stand_on_one_line_with_commas() {
    let m = environment_markup(
        &strings(&["f"]),
        &strings(&["Length", "Time"]),
        &vec![strings(&["m", "meter", "metre"]), strings(&["s"]), vec![]],
        &strings(&["x"]),
    );
    assert_eq!(
        flat(&m),
        vec![
            (TEXT, "List of functions:"),
            (WS, "\n"),
            (WS, "  "),
            (FormatType::Identifier, "f"),
            (WS, "\n"),
            (WS, "\n"),
            (TEXT, "List of dimensions:"),
            (WS, "\n"),
            (WS, "  "),
            (FormatType::TypeIdentifier, "Length"),
            (WS, "\n"),
            (WS, "  "),
            (FormatType::TypeIdentifier, "Time"),
            (WS, "\n"),
            (WS, "\n"),
            (TEXT, "List of units:"),
            (WS, "\n"),
            (WS, "  "),
            (FormatType::Unit, "m"),
            (TEXT, ", "),
            (FormatType::Unit, "meter"),
            (TEXT, ", "),
            (FormatType::Unit, "metre"),
            (WS, "\n"),
            (WS, "  "),
            (FormatType::Unit, "s"),
            (WS, "\n"),
            (WS, "  "),
            (WS, "\n"),
            (WS, "\n"),
            (TEXT, "List of variables:"),
            (WS, "\n"),
            (WS, "  "),
            (FormatType::Identifier, "x"),
            (WS, "\n"),
        ]
    );
}

fn declare(ctx: &mut Context, statements: Vec<Statement>) {
    ctx.interpret("", CodeSource::Text);
    ctx.step(Event::Resolved(Ok(statements)));
    ctx.step(Event::TypeChecked(Ok(())));
    let last = ctx.step(Event::Executed(Ok(())));
    assert!(matches!(last.action, Action::Finished { result: Ok(()) }));
}

fn unit(name: &str) -> Statement {
    Statement::DeclareBaseUnit(
        Span { start: 0, end: 1, code_source_id: 0 },
        name.to_string(),
        DimensionExpression::Unity(Span { start: 0, end: 1, code_source_id: 0 }),
        vec![Decorator::Aliases(vec![(name.to_string(), None)])],
    )
}

#[test]
fn the_environment_of_a_session_is_sorted() {
    let mut ctx = Context::new();
    declare(
        &mut ctx,
        vec![
            unit("second"),
            unit("meter"),
            Statement::DeclareDimension("Time".to_string(), vec![]),
            Statement::DeclareDimension("Length".to_string(), vec![]),
        ],
    );
    assert_eq!(ctx.unit_names()[0], strings(&["second"]));
    let m = ctx.print_environment();
    let shown: Vec<&str> = flat(&m)
        .into_iter()
        .filter(|(kind, _)| *kind == FormatType::Unit || *kind == FormatType::TypeIdentifier)
        .map(|(_, text)| text)
        .collect();
    assert_eq!(shown, vec!["Length", "Time", "meter", "second"]);
    // the session's own lists keep the order of declaration
    assert_eq!(ctx.dimension_names(), &strings(&["Time", "Length"]));
    assert_eq!(ctx.unit_names()[0][0], "second");
}
