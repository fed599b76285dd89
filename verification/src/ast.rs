use vstd::prelude::*;
use crate::decorator::Decorator;
use crate::prefix::Prefix;
use crate::prefix_parser::PrefixParserView;
use crate::span::Span;

verus! {

/// A binary operator of the expression language.
#[derive(Clone, Copy, Debug, PartialEq, Eq, Structural)]
pub enum BinaryOperator {
    Add,
    Sub,
    Mul,
    Div,
    Power,
    ConvertTo,
}

/// A scalar literal, held as the bit pattern of its double-precision value.
#[derive(Clone, Copy, Debug, PartialEq, Eq, Structural)]
pub struct Number {
    pub bits: u64,
}

/// An algebraic expression.
#[derive(Debug)]
pub enum Expression {
    Scalar(Span, Number),
    Identifier(Span, String),
    /// A unit: its prefix, the alias that was written, and its canonical
    /// name. Name resolution makes these; a parsed expression holds none.
    UnitIdentifier(Span, Prefix, String, String),
    Negate(Span, Box<Expression>),
    BinaryOperator { op: BinaryOperator, lhs: Box<Expression>, rhs: Box<Expression>, span_op: Option<Span> },
    FunctionCall(Span, String, Vec<Expression>),
}

/// An expression over dimensions, as written in a type annotation.
#[derive(Debug)]
pub enum DimensionExpression {
    Unity(Span),
    Dimension(Span, String),
    Multiply(Span, Box<DimensionExpression>, Box<DimensionExpression>),
    Divide(Span, Box<DimensionExpression>, Box<DimensionExpression>),
    Power(Span, Box<DimensionExpression>, Span, i64, i64),
}

/// A built-in procedure.
#[derive(Clone, Copy, Debug, PartialEq, Eq, Structural)]
pub enum ProcedureKind {
    Print,
    AssertEq,
    Type,
}

/// The path of a module, as written after `use`.
#[derive(Debug)]
pub struct ModulePath(pub Vec<String>);

/// A top-level statement.
#[derive(Debug)]
pub enum Statement {
    Expression(Expression),
    DeclareVariable {
        identifier_span: Span,
        identifier: String,
        expr: Expression,
        type_annotation_span: Option<Span>,
        type_annotation: Option<DimensionExpression>,
    },
    DeclareFunction {
        function_name_span: Span,
        function_name: String,
        type_parameters: Vec<(Span, String)>,
        parameters: Vec<(Span, String, Option<DimensionExpression>, bool)>,
        body: Option<Expression>,
        return_type_span: Option<Span>,
        return_type_annotation: Option<DimensionExpression>,
    },
    DeclareDimension(String, Vec<DimensionExpression>),
    DeclareBaseUnit(Span, String, DimensionExpression, Vec<Decorator>),
    DeclareDerivedUnit {
        identifier_span: Span,
        identifier: String,
        expr: Expression,
        type_annotation_span: Option<Span>,
        type_annotation: Option<DimensionExpression>,
        decorators: Vec<Decorator>,
    },
    ProcedureCall(ProcedureKind, Vec<Expression>),
    ModuleImport(Span, ModulePath),
}

/// Whether `e` holds no unit identifier: it is as the parser made it.
pub open spec fn unresolved(e: Expression) -> bool
    decreases e,
{
    match e {
        Expression::Scalar(_, _) => true,
        Expression::Identifier(_, _) => true,
        Expression::UnitIdentifier(_, _, _, _) => false,
        Expression::Negate(_, inner) => unresolved(*inner),
        Expression::BinaryOperator { op, lhs, rhs, span_op } => unresolved(*lhs) && unresolved(*rhs),
        Expression::FunctionCall(_, _, args) => forall|i: int|
            0 <= i < args@.len() ==> unresolved(#[trigger] args@[i]),
    }
}

/// Whether each of `list` holds no unit identifier.
pub open spec fn all_unresolved(list: Seq<Expression>) -> bool {
    forall|i: int| 0 <= i < list.len() ==> unresolved(#[trigger] list[i])
}

/// Whether `r` is `e` with its names resolved by the table `p`: each
/// identifier that denotes a unit has become that unit's identifier, with
/// the prefix, alias and canonical name that the table gives, and nothing
/// else has changed.
pub open spec fn rewrites(p: PrefixParserView, e: Expression, r: Expression) -> bool
    decreases e,
{
    match e {
        Expression::Scalar(_, _) => r == e,
        Expression::Identifier(span, name) => match r {
            Expression::Identifier(s2, n2) => s2 == span && n2@ == name@ && !p.is_unit(name@),
            Expression::UnitIdentifier(s2, prefix, base, full) => s2 == span && exists|d: Span| #[trigger]
                p.unit_found(name@, d, prefix, base@, full@),
            _ => false,
        },
        Expression::UnitIdentifier(_, _, _, _) => false,
        Expression::Negate(span, inner) => match r {
            Expression::Negate(s2, i2) => s2 == span && rewrites(p, *inner, *i2),
            _ => false,
        },
        Expression::BinaryOperator { op, lhs, rhs, span_op } => match r {
            Expression::BinaryOperator { op: o2, lhs: l2, rhs: r2, span_op: so2 } => o2 == op && so2
                == span_op && rewrites(p, *lhs, *l2) && rewrites(p, *rhs, *r2),
            _ => false,
        },
        Expression::FunctionCall(span, name, args) => match r {
            Expression::FunctionCall(s2, n2, a2) => s2 == span && n2@ == name@ && a2@.len()
                == args@.len() && forall|i: int|
                0 <= i < args@.len() ==> rewrites(p, #[trigger] args@[i], a2@[i]),
            _ => false,
        },
    }
}

/// Whether `out` is `list` with each expression's names resolved by `p`.
pub open spec fn all_rewritten(p: PrefixParserView, list: Seq<Expression>, out: Seq<Expression>) -> bool {
    out.len() == list.len() && forall|i: int|
        0 <= i < list.len() ==> rewrites(p, #[trigger] list[i], out[i])
}

/// Whether the expressions of `statement` hold no unit identifier.
pub open spec fn statement_unresolved(statement: Statement) -> bool {
    match statement {
        Statement::Expression(e) => unresolved(e),
        Statement::DeclareVariable { expr, .. } => unresolved(expr),
        Statement::DeclareFunction { body, .. } => body matches Some(e) ==> unresolved(e),
        Statement::DeclareDimension(_, _) => true,
        Statement::DeclareBaseUnit(_, _, _, _) => true,
        Statement::DeclareDerivedUnit { expr, .. } => unresolved(expr),
        Statement::ProcedureCall(_, args) => all_unresolved(args@),
        Statement::ModuleImport(_, _) => true,
    }
}

/// Whether `r` is `statement` with the names in its expressions resolved by
/// the table `p`, and everything else as it was.
pub open spec fn statement_rewritten(p: PrefixParserView, statement: Statement, r: Statement) -> bool {
    match statement {
        Statement::Expression(e) => r matches Statement::Expression(e2) && rewrites(p, e, e2),
        Statement::DeclareVariable {
            identifier_span,
            identifier,
            expr,
            type_annotation_span,
            type_annotation,
        } => match r {
            Statement::DeclareVariable {
                identifier_span: s2,
                identifier: i2,
                expr: e2,
                type_annotation_span: ts2,
                type_annotation: t2,
            } => s2 == identifier_span && i2 == identifier && rewrites(p, expr, e2) && ts2
                == type_annotation_span && t2 == type_annotation,
            _ => false,
        },
        Statement::DeclareFunction {
            function_name_span,
            function_name,
            type_parameters,
            parameters,
            body,
            return_type_span,
            return_type_annotation,
        } => match r {
            Statement::DeclareFunction {
                function_name_span: s2,
                function_name: n2,
                type_parameters: tp2,
                parameters: p2,
                body: b2,
                return_type_span: rs2,
                return_type_annotation: ra2,
            } => s2 == function_name_span && n2 == function_name && tp2 == type_parameters && p2
                == parameters && rs2 == return_type_span && ra2 == return_type_annotation && match body {
                Some(e) => b2 matches Some(e2) && rewrites(p, e, e2),
                None => b2 is None,
            },
            _ => false,
        },
        Statement::DeclareDimension(_, _) => r == statement,
        Statement::DeclareBaseUnit(_, _, _, _) => r == statement,
        Statement::DeclareDerivedUnit {
            identifier_span,
            identifier,
            expr,
            type_annotation_span,
            type_annotation,
            decorators,
        } => match r {
            Statement::DeclareDerivedUnit {
                identifier_span: s2,
                identifier: i2,
                expr: e2,
                type_annotation_span: ts2,
                type_annotation: t2,
                decorators: d2,
            } => s2 == identifier_span && i2 == identifier && rewrites(p, expr, e2) && ts2
                == type_annotation_span && t2 == type_annotation && d2 == decorators,
            _ => false,
        },
        Statement::ProcedureCall(kind, args) => r matches Statement::ProcedureCall(k2, a2) && k2
            == kind && all_rewritten(p, args@, a2@),
        Statement::ModuleImport(_, _) => r == statement,
    }
}

/// Whether `e` holds no unit identifier.
pub fn is_unresolved(e: &Expression) -> (r: bool)
    ensures
        r == unresolved(*e),
    decreases e,
{
    match e {
        Expression::Scalar(_, _) => true,
        Expression::Identifier(_, _) => true,
        Expression::UnitIdentifier(_, _, _, _) => false,
        Expression::Negate(_, inner) => is_unresolved(inner),
        Expression::BinaryOperator { op, lhs, rhs, span_op } => is_unresolved(lhs) && is_unresolved(rhs),
        Expression::FunctionCall(_, _, args) => {
            let mut i: usize = 0;
            while i < args.len()
                invariant
                    i <= args.len(),
                    *e matches Expression::FunctionCall(_, _, held) && held == *args,
                    forall|j: int| 0 <= j < i ==> unresolved(#[trigger] args@[j]),
                decreases args.len() - i,
            {
                proof {
                    vstd::std_specs::vec::axiom_vec_index_decreases(*args, i as int);
                }
                if !is_unresolved(&args[i]) {
                    return false;
                }
                i += 1;
            }
            true
        },
    }
}

/// Whether each of `list` holds no unit identifier.
pub fn are_unresolved(list: &Vec<Expression>) -> (r: bool)
    ensures
        r == all_unresolved(list@),
{
    let mut i: usize = 0;
    while i < list.len()
        invariant
            i <= list.len(),
            forall|j: int| 0 <= j < i ==> unresolved(#[trigger] list@[j]),
        decreases list.len() - i,
    {
        if !is_unresolved(&list[i]) {
            return false;
        }
        i += 1;
    }
    true
}

/// Whether the expressions of `statement` hold no unit identifier.
pub fn is_unresolved_statement(statement: &Statement) -> (r: bool)
    ensures
        r == statement_unresolved(*statement),
{
    match statement {
        Statement::Expression(e) => is_unresolved(e),
        Statement::DeclareVariable { expr, .. } => is_unresolved(expr),
        Statement::DeclareFunction { body, .. } => match body {
            Some(e) => is_unresolved(e),
            None => true,
        },
        Statement::DeclareDimension(_, _) => true,
        Statement::DeclareBaseUnit(_, _, _, _) => true,
        Statement::DeclareDerivedUnit { expr, .. } => is_unresolved(expr),
        Statement::ProcedureCall(_, args) => are_unresolved(args),
        Statement::ModuleImport(_, _) => true,
    }
}

/// Whether the expressions of each of `statements` hold no unit
/// identifier.
pub fn are_unresolved_statements(statements: &Vec<Statement>) -> (r: bool)
    ensures
        r == forall|i: int| 0 <= i < statements@.len() ==> statement_unresolved(#[trigger] statements@[i]),
{
    let mut i: usize = 0;
    while i < statements.len()
        invariant
            i <= statements.len(),
            forall|j: int| 0 <= j < i ==> statement_unresolved(#[trigger] statements@[j]),
        decreases statements.len() - i,
    {
        if !is_unresolved_statement(&statements[i]) {
            return false;
        }
        i += 1;
    }
    true
}

} // verus!
