use vstd::prelude::*;
use vstd::multiset::Multiset;
use vstd::string::*;
use crate::ast::{
    all_rewritten, all_unresolved, rewrites, statement_rewritten, statement_unresolved, unresolved,
    Expression, Statement,
};
use crate::decorator::{
    admits, has_flag, name_and_aliases, names_of, pairs, spec_name_and_aliases, Decorator, PrefixFamily,
};
use crate::name_resolution::NameResolutionError;
use crate::prefix_parser::{
    AcceptsPrefix, PrefixParser, PrefixParserResult, PrefixParserView, UnitEntry,
};
use crate::span::Span;
use crate::text::{
    contains_text, copy_names, distinct, grouped_texts, lemma_distinct_holds_each_once,
    lemma_distinct_of_distinct, sort_names, texts, texts_sorted,
};

verus! {

/// Resolves the names of parsed statements and records what they declare.
#[derive(Debug)]
pub struct Transformer {
    prefix_parser: PrefixParser,
    variable_names: Vec<String>,
    function_names: Vec<String>,
    unit_names: Vec<Vec<String>>,
    dimension_names: Vec<String>,
}

/// The mathematical value of a transformer: the table of names, and the
/// names declared so far, in the order of their declarations. The names of
/// one unit form a group; a group is held sorted and holds no name twice,
/// so the names that it holds say all of it.
pub struct TransformerView {
    pub parser: PrefixParserView,
    pub variable_names: Seq<Seq<char>>,
    pub function_names: Seq<Seq<char>>,
    pub unit_groups: Seq<Multiset<Seq<char>>>,
    pub dimension_names: Seq<Seq<char>>,
}

/// What each group of names holds.
pub open spec fn groups_of(groups: Seq<Vec<String>>) -> Seq<Multiset<Seq<char>>> {
    Seq::new(groups.len(), |i: int| texts(groups[i]@).to_multiset())
}

/// Whether no group of names holds a name twice.
pub open spec fn groups_distinct(groups: Seq<Vec<String>>) -> bool {
    forall|i: int| 0 <= i < groups.len() ==> texts(#[trigger] groups[i]@).no_duplicates()
}

/// Whether each group of names is in lexical order.
pub open spec fn groups_sorted(groups: Seq<Vec<String>>) -> bool {
    forall|i: int| 0 <= i < groups.len() ==> texts_sorted(texts(#[trigger] groups[i]@))
}

/// The table `p` after each of `aliases` was registered for the unit
/// `full_name`, in order; nothing where one of them is refused.
pub open spec fn register_units(
    p: PrefixParserView,
    aliases: Seq<(Seq<char>, AcceptsPrefix)>,
    metric_prefixes: bool,
    binary_prefixes: bool,
    full_name: Seq<char>,
    span: Span,
) -> Option<PrefixParserView>
    decreases aliases.len(),
{
    if aliases.len() == 0 {
        Some(p)
    } else if p.unit_collides(aliases[0].0, full_name) {
        None
    } else {
        register_units(
            p.with_unit(
                UnitEntry {
                    alias: aliases[0].0,
                    definition_span: span,
                    accepts_prefix: aliases[0].1,
                    metric_prefixes,
                    binary_prefixes,
                    full_name,
                },
            ),
            aliases.drop_first(),
            metric_prefixes,
            binary_prefixes,
            full_name,
            span,
        )
    }
}

/// Whether `e` reports that `name`, defined at `span`, clashes with what it
/// denotes in the table `p`.
pub open spec fn clash(p: PrefixParserView, name: Seq<char>, span: Span, e: NameResolutionError) -> bool {
    e.identifier() == name && e.conflict() == span && p.defined_at(name, e.original())
}

/// Whether `e` reports the first of `aliases` that is refused when they
/// are registered in order, against the table as it is at its turn.
pub open spec fn unit_refusal(
    p: PrefixParserView,
    aliases: Seq<(Seq<char>, AcceptsPrefix)>,
    metric_prefixes: bool,
    binary_prefixes: bool,
    full_name: Seq<char>,
    span: Span,
    e: NameResolutionError,
) -> bool
    decreases aliases.len(),
{
    aliases.len() > 0 && if p.unit_collides(aliases[0].0, full_name) {
        clash(p, aliases[0].0, span, e)
    } else {
        unit_refusal(
            p.with_unit(
                UnitEntry {
                    alias: aliases[0].0,
                    definition_span: span,
                    accepts_prefix: aliases[0].1,
                    metric_prefixes,
                    binary_prefixes,
                    full_name,
                },
            ),
            aliases.drop_first(),
            metric_prefixes,
            binary_prefixes,
            full_name,
            span,
            e,
        )
    }
}

impl TransformerView {
    /// Whether `e` reports why the declaration of the unit `name` is
    /// refused.
    pub open spec fn unit_refused_with(
        self,
        name: Seq<char>,
        decorators: Seq<Decorator>,
        span: Span,
        e: NameResolutionError,
    ) -> bool {
        unit_refusal(
            self.parser,
            spec_name_and_aliases(name, decorators),
            has_flag(decorators, PrefixFamily::Metric),
            has_flag(decorators, PrefixFamily::Binary),
            name,
            span,
            e,
        )
    }

    /// Whether `e` reports why `statement` is refused.
    pub open spec fn refused_with(self, statement: Statement, e: NameResolutionError) -> bool {
        match statement {
            Statement::DeclareVariable { identifier_span, identifier, .. } => clash(
                self.parser,
                identifier@,
                identifier_span,
                e,
            ),
            Statement::DeclareFunction { function_name_span, function_name, .. } => clash(
                self.parser,
                function_name@,
                function_name_span,
                e,
            ),
            Statement::DeclareBaseUnit(span, name, _, decorators) => self.unit_refused_with(
                name@,
                decorators@,
                span,
                e,
            ),
            Statement::DeclareDerivedUnit { identifier_span, identifier, decorators, .. } => self.unit_refused_with(
                identifier@,
                decorators@,
                identifier_span,
                e,
            ),
            _ => false,
        }
    }

    /// Whether `e` reports why the first refused statement of
    /// `statements` is refused, in the state that the statements before it
    /// left.
    pub open spec fn first_refused_with(self, statements: Seq<Statement>, e: NameResolutionError) -> bool {
        exists|k: int|
            0 <= k < statements.len() && self.apply_all(statements.subrange(0, k)).1 && (
            #[trigger] self.apply_all(statements.subrange(0, k))).0.refused_with(statements[k], e)
    }

    /// The state after the unit `name` was declared with `decorators`, and
    /// whether the declaration was accepted. A refused declaration leaves
    /// the state as it was: no alias of it stays behind.
    pub open spec fn declare_unit(self, name: Seq<char>, decorators: Seq<Decorator>, span: Span) -> (
        TransformerView,
        bool,
    ) {
        let aliases = spec_name_and_aliases(name, decorators);
        match register_units(
            self.parser,
            aliases,
            has_flag(decorators, PrefixFamily::Metric),
            has_flag(decorators, PrefixFamily::Binary),
            name,
            span,
        ) {
            Some(parser) => (
                TransformerView {
                    parser,
                    unit_groups: self.unit_groups.push(distinct(names_of(aliases)).to_multiset()),
                    ..self
                },
                true,
            ),
            None => (self, false),
        }
    }

    /// The state after the variable `name` was declared, and whether the
    /// declaration was accepted. It is refused, and nothing is recorded,
    /// where the name denotes a unit.
    pub open spec fn declare_variable(self, name: Seq<char>, span: Span) -> (TransformerView, bool) {
        if self.parser.is_unit(name) {
            (self, false)
        } else {
            (
                TransformerView {
                    parser: self.parser.with_other(name, span),
                    variable_names: self.variable_names.push(name),
                    ..self
                },
                true,
            )
        }
    }

    /// The state after the function `name` was declared, and whether the
    /// declaration was accepted. It is refused, and nothing is recorded,
    /// where the name denotes a unit.
    pub open spec fn declare_function(self, name: Seq<char>, span: Span) -> (TransformerView, bool) {
        if self.parser.is_unit(name) {
            (self, false)
        } else {
            (
                TransformerView {
                    parser: self.parser.with_other(name, span),
                    function_names: self.function_names.push(name),
                    ..self
                },
                true,
            )
        }
    }

    /// The state after one statement, and whether the statement was
    /// accepted.
    pub open spec fn apply(self, statement: Statement) -> (TransformerView, bool) {
        match statement {
            Statement::Expression(_) => (self, true),
            Statement::DeclareVariable { identifier_span, identifier, .. } => self.declare_variable(
                identifier@,
                identifier_span,
            ),
            Statement::DeclareFunction { function_name_span, function_name, .. } => self.declare_function(
                function_name@,
                function_name_span,
            ),
            Statement::DeclareDimension(name, _) => (
                TransformerView { dimension_names: self.dimension_names.push(name@), ..self },
                true,
            ),
            Statement::DeclareBaseUnit(span, name, _, decorators) => self.declare_unit(
                name@,
                decorators@,
                span,
            ),
            Statement::DeclareDerivedUnit { identifier_span, identifier, decorators, .. } => self.declare_unit(
                identifier@,
                decorators@,
                identifier_span,
            ),
            Statement::ProcedureCall(_, _) => (self, true),
            Statement::ModuleImport(_, _) => (self, true),
        }
    }

    /// The state after the statements were taken in order, up to the first
    /// that was refused, and whether all were accepted.
    pub open spec fn apply_all(self, statements: Seq<Statement>) -> (TransformerView, bool)
        decreases statements.len(),
    {
        if statements.len() == 0 {
            (self, true)
        } else {
            let (before, accepted) = self.apply_all(statements.drop_last());
            if accepted {
                before.apply(statements.last())
            } else {
                (before, false)
            }
        }
    }
}

/// Once a statement was refused, the statements after it change nothing.
pub proof fn lemma_refused_stays(state: TransformerView, statements: Seq<Statement>, k: int)
    requires
        0 <= k <= statements.len(),
        !state.apply_all(statements.subrange(0, k)).1,
    ensures
        state.apply_all(statements) == state.apply_all(statements.subrange(0, k)),
    decreases statements.len() - k,
{
    if k < statements.len() {
        let next = statements.subrange(0, k + 1);
        assert(next.drop_last() =~= statements.subrange(0, k));
        lemma_refused_stays(state, statements, k + 1);
    } else {
        assert(statements.subrange(0, k) =~= statements);
    }
}

/// A statement that is refused leaves the state as it was.
pub proof fn lemma_refused_statement_leaves_state(state: TransformerView, statement: Statement)
    requires
        !state.apply(statement).1,
    ensures
        state.apply(statement).0 == state,
{
}

/// A unit whose names do not repeat gets a group of just these names: its
/// own name, unless the aliases list it, and the aliases.
pub proof fn lemma_group_of_unit(
    state: TransformerView,
    name: Seq<char>,
    decorators: Seq<Decorator>,
    span: Span,
)
    requires
        state.declare_unit(name, decorators, span).1,
        names_of(spec_name_and_aliases(name, decorators)).no_duplicates(),
    ensures
        state.declare_unit(name, decorators, span).0.unit_groups == state.unit_groups.push(
            names_of(spec_name_and_aliases(name, decorators)).to_multiset(),
        ),
{
    lemma_distinct_of_distinct(names_of(spec_name_and_aliases(name, decorators)));
}

/// A unit declaration is taken whole or not at all: where one of its names
/// is refused, the state is as it was, with none of them in the table and
/// no new group.
pub proof fn lemma_refused_unit_leaves_no_trace(
    state: TransformerView,
    name: Seq<char>,
    decorators: Seq<Decorator>,
    span: Span,
)
    requires
        !state.declare_unit(name, decorators, span).1,
    ensures
        state.declare_unit(name, decorators, span).0 == state,
{
}

/// A unit declaration is refused as soon as one of its names, taken in
/// order, collides with what the table then holds.
pub proof fn lemma_colliding_alias_refuses(
    p: PrefixParserView,
    aliases: Seq<(Seq<char>, AcceptsPrefix)>,
    metric_prefixes: bool,
    binary_prefixes: bool,
    full_name: Seq<char>,
    span: Span,
)
    requires
        aliases.len() > 0,
        p.unit_collides(aliases[0].0, full_name),
    ensures
        register_units(p, aliases, metric_prefixes, binary_prefixes, full_name, span) is None,
{
}

impl View for Transformer {
    type V = TransformerView;

    closed spec fn view(&self) -> TransformerView {
        TransformerView {
            parser: self.prefix_parser@,
            variable_names: texts(self.variable_names@),
            function_names: texts(self.function_names@),
            unit_groups: groups_of(self.unit_names@),
            dimension_names: texts(self.dimension_names@),
        }
    }
}

impl Transformer {
    /// The table of names is well formed, and each group of unit names is
    /// sorted and holds no name twice.
    pub closed spec fn wf(&self) -> bool {
        self.prefix_parser@.wf() && groups_sorted(self.unit_names@) && groups_distinct(
            self.unit_names@,
        )
    }

    /// A transformer that knows no name.
    pub fn new() -> (r: Transformer)
        ensures
            r.wf(),
            r@.parser.units.len() == 0,
            r@.parser.others.len() == 0,
            r@.variable_names.len() == 0,
            r@.function_names.len() == 0,
            r@.unit_groups.len() == 0,
            r@.dimension_names.len() == 0,
            r.group_lists().len() == 0,
    {
        Transformer {
            prefix_parser: PrefixParser::new(),
            variable_names: Vec::new(),
            function_names: Vec::new(),
            unit_names: Vec::new(),
            dimension_names: Vec::new(),
        }
    }

    /// A copy of the transformer.
    pub fn duplicate(&self) -> (r: Transformer)
        ensures
            r@ == self@,
            r.group_lists() == self.group_lists(),
            self.wf() ==> r.wf(),
    {
        let mut unit_names: Vec<Vec<String>> = Vec::new();
        let mut i: usize = 0;
        while i < self.unit_names.len()
            invariant
                i <= self.unit_names.len(),
                unit_names@.len() == i,
                forall|j: int| 0 <= j < i ==> (#[trigger] unit_names@[j])@ == self.unit_names@[j]@,
            decreases self.unit_names.len() - i,
        {
            unit_names.push(copy_names(&self.unit_names[i]));
            i += 1;
        }
        let r = Transformer {
            prefix_parser: self.prefix_parser.duplicate(),
            variable_names: copy_names(&self.variable_names),
            function_names: copy_names(&self.function_names),
            unit_names,
            dimension_names: copy_names(&self.dimension_names),
        };
        assert(groups_of(r.unit_names@) =~= groups_of(self.unit_names@));
        assert(grouped_texts(r.unit_names@) =~= grouped_texts(self.unit_names@));
        r
    }

    /// The names of the variables declared so far.
    pub fn variable_names(&self) -> (r: &Vec<String>)
        ensures
            texts(r@) == self@.variable_names,
    {
        &self.variable_names
    }

    /// The names of the functions declared so far.
    pub fn function_names(&self) -> (r: &Vec<String>)
        ensures
            texts(r@) == self@.function_names,
    {
        &self.function_names
    }

    /// The groups of unit names, each as the list that it is held as.
    pub closed spec fn group_lists(&self) -> Seq<Seq<Seq<char>>> {
        grouped_texts(self.unit_names@)
    }

    /// The names of the units declared so far: one group for each, in the
    /// order of the declarations, each group sorted and without repeats.
    pub fn unit_names(&self) -> (r: &Vec<Vec<String>>)
        requires
            self.wf(),
        ensures
            groups_of(r@) == self@.unit_groups,
            groups_sorted(r@),
            groups_distinct(r@),
            grouped_texts(r@) == self.group_lists(),
    {
        &self.unit_names
    }

    /// The names of the dimensions declared so far.
    pub fn dimension_names(&self) -> (r: &Vec<String>)
        ensures
            texts(r@) == self@.dimension_names,
    {
        &self.dimension_names
    }

    /// Whether one of `decorators` admits the prefixes of `family`.
    fn has_decorator(decorators: &Vec<Decorator>, family: PrefixFamily) -> (r: bool)
        ensures
            r == has_flag(decorators@, family),
    {
        let mut i: usize = 0;
        while i < decorators.len()
            invariant
                i <= decorators.len(),
                forall|j: int| 0 <= j < i ==> !admits(#[trigger] decorators@[j], family),
            decreases decorators.len() - i,
        {
            let found = match (&decorators[i], family) {
                (Decorator::MetricPrefixes, PrefixFamily::Metric) => true,
                (Decorator::BinaryPrefixes, PrefixFamily::Binary) => true,
                _ => false,
            };
            if found {
                return true;
            }
            i += 1;
        }
        false
    }

    /// Registers a unit's name and the aliases that its decorators give,
    /// all or none: where one of them is refused, the table is as it was
    /// before the call. On success the names form a new group, sorted, each
    /// name in it once.
    pub fn register_name_and_aliases(
        &mut self,
        name: &String,
        decorators: &Vec<Decorator>,
        definition_span: Span,
    ) -> (r: Result<(), NameResolutionError>)
        requires
            old(self).wf(),
        ensures
            final(self).wf(),
            final(self)@ == old(self)@.declare_unit(name@, decorators@, definition_span).0,
            r is Ok == old(self)@.declare_unit(name@, decorators@, definition_span).1,
            r matches Err(e) ==> old(self)@.unit_refused_with(
                name@,
                decorators@,
                definition_span,
                e,
            ),
    {
        let ghost start = self@;
        let metric = Self::has_decorator(decorators, PrefixFamily::Metric);
        let binary = Self::has_decorator(decorators, PrefixFamily::Binary);
        let aliases = name_and_aliases(name.as_str(), decorators);
        let ghost list = pairs(aliases@);
        let backup = self.prefix_parser.duplicate();
        let mut unit_names: Vec<String> = Vec::new();
        assert(list.subrange(0, list.len() as int) =~= list);
        assert(texts(unit_names@) =~= distinct(names_of(list).subrange(0, 0)));
        let mut i: usize = 0;
        while i < aliases.len()
            invariant
                i <= aliases.len(),
                list == pairs(aliases@),
                list == spec_name_and_aliases(name@, decorators@),
                self.prefix_parser@.wf(),
                backup@ == start.parser,
                start == old(self)@,
                start.parser.wf(),
                metric == has_flag(decorators@, PrefixFamily::Metric),
                binary == has_flag(decorators@, PrefixFamily::Binary),
                groups_sorted(self.unit_names@),
                groups_distinct(self.unit_names@),
                self.variable_names == old(self).variable_names,
                self.function_names == old(self).function_names,
                self.unit_names == old(self).unit_names,
                self.dimension_names == old(self).dimension_names,
                register_units(start.parser, list, metric, binary, name@, definition_span)
                    == register_units(
                    self.prefix_parser@,
                    list.subrange(i as int, list.len() as int),
                    metric,
                    binary,
                    name@,
                    definition_span,
                ),
                texts(unit_names@) == distinct(names_of(list).subrange(0, i as int)),
                forall|e: NameResolutionError| #[trigger]
                    unit_refusal(
                        self.prefix_parser@,
                        list.subrange(i as int, list.len() as int),
                        metric,
                        binary,
                        name@,
                        definition_span,
                        e,
                    ) ==> unit_refusal(start.parser, list, metric, binary, name@, definition_span, e),
            decreases aliases.len() - i,
        {
            let ghost rest = list.subrange(i as int, list.len() as int);
            assert(rest[0] == list[i as int]);
            assert(rest.drop_first() =~= list.subrange(i + 1, list.len() as int));
            assert(list[i as int] == (aliases@[i as int].0@, aliases@[i as int].1));
            assert(names_of(list)[i as int] == aliases@[i as int].0@);
            let ghost current = self.prefix_parser@;
            match self.prefix_parser.add_unit(
                aliases[i].0.as_str(),
                aliases[i].1,
                metric,
                binary,
                name.as_str(),
                definition_span,
            ) {
                Err(e) => {
                    assert(current.unit_collides(rest[0].0, name@));
                    assert(register_units(current, rest, metric, binary, name@, definition_span)
                        is None);
                    assert(unit_refusal(current, rest, metric, binary, name@, definition_span, e));
                    self.prefix_parser = backup;
                    assert(self@ == start);
                    return Err(e);
                },
                Ok(_) => {},
            }
            proof {
                let after = list.subrange(i + 1, list.len() as int);
                assert forall|e: NameResolutionError| #[trigger]
                    unit_refusal(
                        self.prefix_parser@,
                        after,
                        metric,
                        binary,
                        name@,
                        definition_span,
                        e,
                    ) implies unit_refusal(
                    start.parser,
                    list,
                    metric,
                    binary,
                    name@,
                    definition_span,
                    e,
                ) by {
                    assert(unit_refusal(current, rest, metric, binary, name@, definition_span, e));
                }
            }
            let ghost held = unit_names@;
            proof {
                let next = names_of(list).subrange(0, i + 1);
                assert(next.drop_last() =~= names_of(list).subrange(0, i as int));
                assert(next.last() == names_of(list)[i as int]);
            }
            if !contains_text(&unit_names, aliases[i].0.as_str()) {
                unit_names.push(aliases[i].0.clone());
                assert(texts(unit_names@) =~= texts(held).push(names_of(list)[i as int]));
            }
            i += 1;
        }
        assert(names_of(list).subrange(0, i as int) =~= names_of(list));
        let ghost unsorted = texts(unit_names@);
        sort_names(&mut unit_names);
        proof {
            lemma_distinct_holds_each_once(names_of(list));
            unsorted.lemma_multiset_has_no_duplicates();
            texts(unit_names@).lemma_multiset_has_no_duplicates_conv();
        }
        let ghost groups = self.unit_names@;
        self.unit_names.push(unit_names);
        assert(groups_of(self.unit_names@) =~= groups_of(groups).push(
            distinct(names_of(list)).to_multiset(),
        ));
        Ok(())
    }

    /// Resolves the names of each expression of `list`, in order.
    fn transform_expressions(&self, list: Vec<Expression>, Ghost(parent): Ghost<Expression>) -> (r: Vec<Expression>)
        requires
            self.wf(),
            all_unresolved(list@),
            forall|i: int| 0 <= i < list@.len() ==> decreases_to!(parent => #[trigger] list@[i]),
        ensures
            all_rewritten(self@.parser, list@, r@),
        decreases parent, 0int,
    {
        let ghost n = list@.len();
        let mut rest = list;
        let mut reversed: Vec<Expression> = Vec::new();
        while rest.len() > 0
            invariant
                self.wf(),
                n == list@.len(),
                rest@ == list@.subrange(0, rest@.len() as int),
                rest@.len() + reversed@.len() == n,
                all_unresolved(list@),
                forall|i: int| 0 <= i < list@.len() ==> decreases_to!(parent => #[trigger] list@[i]),
                forall|k: int|
                    0 <= k < reversed@.len() ==> rewrites(
                        self@.parser,
                        list@[n - 1 - k],
                        #[trigger] reversed@[k],
                    ),
            decreases rest@.len(),
        {
            let ghost at = rest@.len() - 1;
            let arg = rest.pop().unwrap();
            assert(arg == list@[at]);
            assert(rest@ =~= list@.subrange(0, at));
            let out = self.transform_expression(arg);
            reversed.push(out);
        }
        let mut result: Vec<Expression> = Vec::new();
        while reversed.len() > 0
            invariant
                n == list@.len(),
                result@.len() + reversed@.len() == n,
                forall|k: int|
                    0 <= k < reversed@.len() ==> rewrites(
                        self@.parser,
                        list@[n - 1 - k],
                        #[trigger] reversed@[k],
                    ),
                forall|i: int|
                    0 <= i < result@.len() ==> rewrites(self@.parser, list@[i], #[trigger] result@[i]),
            decreases reversed@.len(),
        {
            let ghost k = reversed@.len() - 1;
            let ghost before = reversed@;
            let out = reversed.pop().unwrap();
            assert(out == before[k]);
            assert(forall|j: int| 0 <= j < reversed@.len() ==> reversed@[j] == before[j]);
            result.push(out);
        }
        result
    }

    /// Resolves the names of an expression: each identifier that the table
    /// takes for a unit becomes a unit identifier; the rest stays as it is.
    fn transform_expression(&self, expression: Expression) -> (r: Expression)
        requires
            self.wf(),
            unresolved(expression),
        ensures
            rewrites(self@.parser, expression, r),
        decreases expression, 1int,
    {
        match expression {
            Expression::Scalar(span, number) => Expression::Scalar(span, number),
            Expression::Identifier(span, identifier) => {
                match self.prefix_parser.parse(identifier.as_str()) {
                    PrefixParserResult::UnitIdentifier(prefix, unit_name, full_name) => {
                        let r = Expression::UnitIdentifier(span, prefix, unit_name, full_name);
                        assert(r matches Expression::UnitIdentifier(s2, p2, b2, f2) && s2 == span
                            && p2 == prefix && b2@ == unit_name@ && f2@ == full_name@);
                        r
                    },
                    PrefixParserResult::Identifier(_) => Expression::Identifier(span, identifier),
                }
            },
            Expression::UnitIdentifier(span, prefix, unit_name, full_name) => {
                Expression::UnitIdentifier(span, prefix, unit_name, full_name)
            },
            Expression::Negate(span, expr) => {
                Expression::Negate(span, Box::new(self.transform_expression(*expr)))
            },
            Expression::BinaryOperator { op, lhs, rhs, span_op } => Expression::BinaryOperator {
                op,
                lhs: Box::new(self.transform_expression(*lhs)),
                rhs: Box::new(self.transform_expression(*rhs)),
                span_op,
            },
            Expression::FunctionCall(span, name, args) => {
                proof {
                    assert forall|i: int| 0 <= i < args@.len() implies decreases_to!(expression => #[trigger] args@[i]) by {
                        vstd::std_specs::vec::axiom_vec_index_decreases(args, i);
                    }
                }
                let ghost parent = expression;
                let out = self.transform_expressions(args, Ghost(parent));
                Expression::FunctionCall(span, name, out)
            },
        }
    }

    /// Resolves the names of a list of expressions that stands in a
    /// statement.
    fn transform_arguments(&self, args: Vec<Expression>) -> (r: Vec<Expression>)
        requires
            self.wf(),
            all_unresolved(args@),
        ensures
            all_rewritten(self@.parser, args@, r@),
    {
        let ghost parent = Expression::FunctionCall(arbitrary(), arbitrary(), args);
        proof {
            assert(parent matches Expression::FunctionCall(_, _, held) && held == args);
            assert(decreases_to!(parent => args));
            assert forall|i: int| 0 <= i < args@.len() implies decreases_to!(parent => #[trigger] args@[i]) by {
                vstd::std_specs::vec::axiom_vec_index_decreases(args, i);
            }
        }
        self.transform_expressions(args, Ghost(parent))
    }

    /// Takes one statement: a declaration registers its name, before its
    /// body is looked at, and the names in the statement's expressions are
    /// resolved against the table as it then is. Where the name is refused
    /// the statement is given up, and the state is as it was.
    fn transform_statement(&mut self, statement: Statement) -> (r: Result<
        Statement,
        NameResolutionError,
    >)
        requires
            old(self).wf(),
            statement_unresolved(statement),
        ensures
            final(self).wf(),
            final(self)@ == old(self)@.apply(statement).0,
            r is Ok == old(self)@.apply(statement).1,
            r matches Ok(out) ==> statement_rewritten(final(self)@.parser, statement, out),
            r matches Err(e) ==> old(self)@.refused_with(statement, e),
    {
        match statement {
            Statement::Expression(expr) => Ok(Statement::Expression(self.transform_expression(expr))),
            Statement::DeclareBaseUnit(span, name, dexpr, decorators) => {
                match self.register_name_and_aliases(&name, &decorators, span) {
                    Err(e) => {
                        return Err(e);
                    },
                    Ok(_) => {},
                }
                Ok(Statement::DeclareBaseUnit(span, name, dexpr, decorators))
            },
            Statement::DeclareDerivedUnit {
                identifier_span,
                identifier,
                expr,
                type_annotation_span,
                type_annotation,
                decorators,
            } => {
                match self.register_name_and_aliases(&identifier, &decorators, identifier_span) {
                    Err(e) => {
                        return Err(e);
                    },
                    Ok(_) => {},
                }
                let expr = self.transform_expression(expr);
                Ok(
                    Statement::DeclareDerivedUnit {
                        identifier_span,
                        identifier,
                        expr,
                        type_annotation_span,
                        type_annotation,
                        decorators,
                    },
                )
            },
            Statement::DeclareVariable {
                identifier_span,
                identifier,
                expr,
                type_annotation_span,
                type_annotation,
            } => {
                match self.prefix_parser.add_other_identifier(identifier.as_str(), identifier_span) {
                    Err(e) => {
                        return Err(e);
                    },
                    Ok(_) => {},
                }
                let ghost names = self.variable_names@;
                self.variable_names.push(identifier.clone());
                assert(texts(self.variable_names@) =~= texts(names).push(identifier@));
                let expr = self.transform_expression(expr);
                Ok(
                    Statement::DeclareVariable {
                        identifier_span,
                        identifier,
                        expr,
                        type_annotation_span,
                        type_annotation,
                    },
                )
            },
            Statement::DeclareFunction {
                function_name_span,
                function_name,
                type_parameters,
                parameters,
                body,
                return_type_span,
                return_type_annotation,
            } => {
                match self.prefix_parser.add_other_identifier(
                    function_name.as_str(),
                    function_name_span,
                ) {
                    Err(e) => {
                        return Err(e);
                    },
                    Ok(_) => {},
                }
                let ghost names = self.function_names@;
                self.function_names.push(function_name.clone());
                assert(texts(self.function_names@) =~= texts(names).push(function_name@));
                let body = match body {
                    Some(expr) => Some(self.transform_expression(expr)),
                    None => None,
                };
                Ok(
                    Statement::DeclareFunction {
                        function_name_span,
                        function_name,
                        type_parameters,
                        parameters,
                        body,
                        return_type_span,
                        return_type_annotation,
                    },
                )
            },
            Statement::DeclareDimension(name, dexprs) => {
                let ghost names = self.dimension_names@;
                self.dimension_names.push(name.clone());
                assert(texts(self.dimension_names@) =~= texts(names).push(name@));
                Ok(Statement::DeclareDimension(name, dexprs))
            },
            Statement::ProcedureCall(procedure, args) => {
                let args = self.transform_arguments(args);
                Ok(Statement::ProcedureCall(procedure, args))
            },
            Statement::ModuleImport(span, path) => Ok(Statement::ModuleImport(span, path)),
        }
    }

    /// Takes the statements in order, each as `transform_statement` does,
    /// and stops at the first that is refused. Each statement sees the
    /// names that the statements before it registered.
    pub fn transform(&mut self, statements: Vec<Statement>) -> (r: Result<
        Vec<Statement>,
        NameResolutionError,
    >)
        requires
            old(self).wf(),
            forall|i: int| 0 <= i < statements@.len() ==> statement_unresolved(#[trigger] statements@[i]),
        ensures
            final(self).wf(),
            final(self)@ == old(self)@.apply_all(statements@).0,
            r is Ok == old(self)@.apply_all(statements@).1,
            r matches Ok(out) ==> out@.len() == statements@.len() && forall|i: int|
                0 <= i < statements@.len() ==> statement_rewritten(
                    old(self)@.apply_all(statements@.subrange(0, i + 1)).0.parser,
                    statements@[i],
                    #[trigger] out@[i],
                ),
            r matches Err(e) ==> old(self)@.first_refused_with(statements@, e),
    {
        let ghost start = self@;
        let ghost n = statements@.len();
        let mut rest = statements;
        let mut pending: Vec<Statement> = Vec::new();
        while rest.len() > 0
            invariant
                n == statements@.len(),
                rest@ == statements@.subrange(0, rest@.len() as int),
                rest@.len() + pending@.len() == n,
                forall|k: int| 0 <= k < pending@.len() ==> #[trigger] pending@[k] == statements@[n - 1 - k],
            decreases rest@.len(),
        {
            let ghost at = rest@.len() - 1;
            let statement = rest.pop().unwrap();
            assert(statement == statements@[at]);
            assert(rest@ =~= statements@.subrange(0, at));
            pending.push(statement);
        }
        let mut out: Vec<Statement> = Vec::new();
        assert(statements@.subrange(0, 0) =~= Seq::<Statement>::empty());
        while pending.len() > 0
            invariant
                n == statements@.len(),
                start == old(self)@,
                self.wf(),
                out@.len() + pending@.len() == n,
                forall|i: int| 0 <= i < statements@.len() ==> statement_unresolved(#[trigger] statements@[i]),
                forall|k: int| 0 <= k < pending@.len() ==> #[trigger] pending@[k] == statements@[n - 1 - k],
                start.apply_all(statements@.subrange(0, out@.len() as int)) == (self@, true),
                forall|i: int|
                    0 <= i < out@.len() ==> statement_rewritten(
                        start.apply_all(statements@.subrange(0, i + 1)).0.parser,
                        statements@[i],
                        #[trigger] out@[i],
                    ),
            decreases pending@.len(),
        {
            let ghost i = out@.len() as int;
            let ghost held = pending@;
            let statement = pending.pop().unwrap();
            assert(statement == held[n - 1 - i]);
            assert(statement == statements@[i]);
            assert(forall|k: int| 0 <= k < pending@.len() ==> pending@[k] == held[k]);
            proof {
                let next = statements@.subrange(0, i + 1);
                assert(next.drop_last() =~= statements@.subrange(0, i));
                assert(next.last() == statements@[i]);
            }
            match self.transform_statement(statement) {
                Err(e) => {
                    proof {
                        lemma_refused_stays(start, statements@, i + 1);
                        assert(start.apply_all(statements@.subrange(0, i)).0.refused_with(
                            statements@[i],
                            e,
                        ));
                    }
                    return Err(e);
                },
                Ok(done) => {
                    out.push(done);
                },
            }
        }
        assert(statements@.subrange(0, n as int) =~= statements@);
        Ok(out)
    }
}

} // verus!
