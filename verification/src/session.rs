use vstd::prelude::*;
use vstd::string::*;
use crate::ast::{
    are_unresolved_statements, statement_rewritten, statement_unresolved, Statement,
};
use crate::currency::{is_currency_identifier, names_currency};
use crate::markup::{environment, environment_markup, parts, Markup};
use crate::name_resolution::NameResolutionError;
use crate::prefix_transformer::{Transformer, TransformerView};
use crate::span::Span;
use crate::text::{
    copy_groups, grouped_texts, sort_groups, sorted_copy, sorted_groups_copy, sorted_names, texts,
};

verus! {

/// Where a piece of code comes from.
#[derive(Debug)]
pub enum CodeSource {
    /// Typed in by the user.
    Text,
    /// Read from the file of this name.
    File(String),
    /// Made by the session itself.
    Internal,
}

impl CodeSource {
    /// A copy of this tag.
    pub fn duplicate(&self) -> (r: CodeSource)
        ensures
            r == *self,
    {
        match self {
            CodeSource::Text => CodeSource::Text,
            CodeSource::File(name) => CodeSource::File(name.clone()),
            CodeSource::Internal => CodeSource::Internal,
        }
    }
}

/// What the resolver reports when it cannot read the code.
#[derive(Debug)]
pub struct ResolverError {
    pub message: String,
}

/// What the type checker reports.
#[derive(Debug)]
pub enum TypeCheckError {
    /// An identifier that nothing defines: where it stands, its name, and
    /// a name that may have been meant.
    UnknownIdentifier(Span, String, Option<String>),
    /// Any other finding, in words.
    Other(String),
}

/// What running the statements reports.
#[derive(Debug)]
pub enum RuntimeError {
    /// The exchange rates could not be had.
    CouldNotLoadExchangeRates,
    /// Any other failure, in words.
    Other(String),
}

/// Why a piece of code could not be interpreted: one variant for each stage.
#[derive(Debug)]
pub enum NumbatError {
    ResolverError(ResolverError),
    NameResolutionError(NameResolutionError),
    TypeCheckError(TypeCheckError),
    RuntimeError(RuntimeError),
}

/// How statements are run.
#[derive(Clone, Copy, Debug, PartialEq, Eq, Structural)]
pub struct InterpreterSettings {
    /// Whether what the statements print is thrown away.
    pub suppress_output: bool,
}

impl Default for InterpreterSettings {
    fn default() -> (r: InterpreterSettings)
        ensures
            r == (InterpreterSettings { suppress_output: false }),
    {
        InterpreterSettings { suppress_output: false }
    }
}

/// Which run of the pipeline a call is in: that of the caller's code, that
/// of the currency module loaded on demand, or the second and last run of
/// the caller's code after it.
#[derive(Clone, Copy, Debug, PartialEq, Eq, Structural)]
pub enum Attempt {
    Original,
    Import,
    Retry,
}

/// What the session waits for.
#[derive(Clone, Copy, Debug, PartialEq, Eq, Structural)]
pub enum Stage {
    /// No call is under way.
    Idle,
    /// The resolver's statements.
    Resolving,
    /// The type checker's verdict.
    Checking,
    /// The outcome of running the statements.
    Executing,
    /// The exchange rates.
    Fetching,
}

/// What the host has done for the session.
#[derive(Debug)]
pub enum Event {
    /// The resolver has read the code.
    Resolved(Result<Vec<Statement>, ResolverError>),
    /// The type checker has checked the statements.
    TypeChecked(Result<(), TypeCheckError>),
    /// The statements were run.
    Executed(Result<(), RuntimeError>),
    /// The exchange rates were asked for: the table, or nothing.
    ExchangeRates(Option<String>),
}

/// What the host is to do next.
#[derive(Debug)]
pub enum Action {
    /// Have the resolver read `code`.
    Resolve { code: String, source: CodeSource },
    /// Keep a copy of the type checker, then have it check `statements`.
    TypeCheck { statements: Vec<Statement> },
    /// Run the statements that were checked.
    Execute { settings: InterpreterSettings },
    /// Get the exchange rates, and wait for them.
    FetchExchangeRates,
    /// The call is over, with this outcome.
    Finished { result: Result<(), NumbatError> },
}

/// One answer of the session: whether the host is to put the type checker
/// back to the copy it kept, and what it is to do then.
#[derive(Debug)]
pub struct Step {
    pub restore_type_checker: bool,
    pub action: Action,
}

/// The mathematical value of a session.
pub struct ContextView {
    /// The names known now.
    pub transformer: TransformerView,
    /// The names known when the statements of the current run arrived.
    pub snapshot: TransformerView,
    pub stage: Stage,
    pub attempt: Attempt,
    pub load_currency_module_on_demand: bool,
    pub debug: bool,
    /// The exchange rates, once they are there.
    pub exchange_rates: Option<Seq<char>>,
    /// The caller's code, its source and settings, kept for the second run.
    pub code: Seq<char>,
    pub source: CodeSource,
    pub settings: InterpreterSettings,
}

/// The statement that loads the currency module.
pub open spec fn import_code() -> Seq<char> {
    "use units::currencies"@
}

impl ContextView {
    /// Exchange rates are waited for only on the caller's first run.
    pub open spec fn inv(self) -> bool {
        self.stage is Fetching ==> self.attempt is Original
    }

    /// Whether the session waits for `event`.
    pub open spec fn awaits(self, event: Event) -> bool {
        match event {
            Event::Resolved(_) => self.stage is Resolving,
            Event::TypeChecked(_) => self.stage is Checking,
            Event::Executed(_) => self.stage is Executing,
            Event::ExchangeRates(_) => self.stage is Fetching,
        }
    }

    /// Whether the type checker's finding `error` makes the session load
    /// the currency module: the policy is on, this is the caller's first
    /// run, and the finding is an unknown identifier that names a currency.
    pub open spec fn loads_on(self, error: TypeCheckError) -> bool {
        &&& self.load_currency_module_on_demand
        &&& self.attempt is Original
        &&& error matches TypeCheckError::UnknownIdentifier(_, name, _) && names_currency(name@)
    }

    /// The exchange rates after a table was asked for: those that are
    /// there stay; else the table that came, if one came.
    pub open spec fn rates_with(self, fetched: Option<String>) -> Option<Seq<char>> {
        if self.exchange_rates is Some {
            self.exchange_rates
        } else {
            match fetched {
                Some(table) => Some(table@),
                None => None,
            }
        }
    }

    /// The session after a call began.
    pub open spec fn begun(self, settings: InterpreterSettings, code: Seq<char>, source: CodeSource) -> ContextView {
        ContextView { stage: Stage::Resolving, attempt: Attempt::Original, code, source, settings, ..self }
    }

    /// The session after `event`.
    pub open spec fn after(self, event: Event) -> ContextView {
        match event {
            Event::Resolved(Err(_)) => ContextView { stage: Stage::Idle, ..self },
            Event::Resolved(Ok(statements)) => {
                let (transformer, accepted) = self.transformer.apply_all(statements@);
                if accepted {
                    ContextView {
                        transformer,
                        snapshot: self.transformer,
                        stage: Stage::Checking,
                        ..self
                    }
                } else {
                    ContextView { snapshot: self.transformer, stage: Stage::Idle, ..self }
                }
            },
            Event::TypeChecked(Ok(_)) => ContextView { stage: Stage::Executing, ..self },
            Event::TypeChecked(Err(error)) => {
                let restored = ContextView { transformer: self.snapshot, ..self };
                if self.loads_on(error) {
                    if self.exchange_rates is Some {
                        ContextView { stage: Stage::Resolving, attempt: Attempt::Import, ..restored }
                    } else {
                        ContextView { stage: Stage::Fetching, ..restored }
                    }
                } else {
                    ContextView { stage: Stage::Idle, ..restored }
                }
            },
            Event::ExchangeRates(fetched) => {
                let exchange_rates = self.rates_with(fetched);
                if exchange_rates is Some {
                    ContextView {
                        exchange_rates,
                        stage: Stage::Resolving,
                        attempt: Attempt::Import,
                        ..self
                    }
                } else {
                    ContextView { stage: Stage::Idle, ..self }
                }
            },
            Event::Executed(Ok(_)) => if self.attempt is Import {
                ContextView {
                    load_currency_module_on_demand: false,
                    stage: Stage::Resolving,
                    attempt: Attempt::Retry,
                    ..self
                }
            } else {
                ContextView { stage: Stage::Idle, ..self }
            },
            Event::Executed(Err(_)) => ContextView {
                transformer: self.snapshot,
                stage: Stage::Idle,
                ..self
            },
        }
    }

    /// Whether `action` has the resolver read the currency module.
    pub open spec fn resolves_import(action: Action) -> bool {
        action matches Action::Resolve { code, source } && code@ == import_code() && source
            is Internal
    }

    /// Whether `step` is the session's answer to `event`.
    pub open spec fn orders(self, event: Event, step: Step) -> bool {
        match event {
            Event::Resolved(Err(error)) => !step.restore_type_checker && step.action == (
            Action::Finished { result: Err(NumbatError::ResolverError(error)) }),
            Event::Resolved(Ok(statements)) => !step.restore_type_checker && if self.transformer.apply_all(
                statements@,
            ).1 {
                step.action matches Action::TypeCheck { statements: out } && out@.len()
                    == statements@.len() && forall|i: int|
                    0 <= i < statements@.len() ==> statement_rewritten(
                        self.transformer.apply_all(statements@.subrange(0, i + 1)).0.parser,
                        statements@[i],
                        #[trigger] out@[i],
                    )
            } else {
                step.action matches Action::Finished {
                    result: Err(NumbatError::NameResolutionError(e)),
                } && self.transformer.first_refused_with(statements@, e)
            },
            Event::TypeChecked(Ok(_)) => !step.restore_type_checker && step.action == (
            Action::Execute {
                settings: if self.attempt is Import {
                    InterpreterSettings { suppress_output: true }
                } else {
                    self.settings
                },
            }),
            Event::TypeChecked(Err(error)) => step.restore_type_checker && if self.loads_on(error) {
                if self.exchange_rates is Some {
                    Self::resolves_import(step.action)
                } else {
                    step.action is FetchExchangeRates
                }
            } else {
                step.action == (Action::Finished { result: Err(NumbatError::TypeCheckError(error)) })
            },
            Event::ExchangeRates(fetched) => !step.restore_type_checker && if self.rates_with(
                fetched,
            ) is Some {
                Self::resolves_import(step.action)
            } else {
                step.action == (Action::Finished {
                    result: Err(NumbatError::RuntimeError(RuntimeError::CouldNotLoadExchangeRates)),
                })
            },
            Event::Executed(Ok(_)) => !step.restore_type_checker && if self.attempt is Import {
                step.action matches Action::Resolve { code, source } && code@ == self.code && source
                    == self.source
            } else {
                step.action == (Action::Finished { result: Ok(()) })
            },
            Event::Executed(Err(error)) => step.restore_type_checker && step.action == (
            Action::Finished { result: Err(NumbatError::RuntimeError(error)) }),
        }
    }
}

/// Whether the statements that `event` brings are as the parser makes
/// them: without unit identifiers.
pub open spec fn unresolved_event(event: Event) -> bool {
    event matches Event::Resolved(Ok(statements)) ==> forall|i: int|
        0 <= i < statements@.len() ==> statement_unresolved(#[trigger] statements@[i])
}

/// Statements that the transformer refuses leave no trace: the names are
/// those known before, and the call is over.
pub proof fn lemma_refused_statements_leave_names(s: ContextView, statements: Vec<Statement>)
    requires
        !s.transformer.apply_all(statements@).1,
    ensures
        s.after(Event::Resolved(Ok(statements))).transformer == s.transformer,
        s.after(Event::Resolved(Ok(statements))).stage is Idle,
{
}

/// Statements that the type checker refuses leave no trace: whatever they
/// declared, the names are again those known before they arrived, and the
/// host is told to put the type checker back.
pub proof fn lemma_failed_check_restores_names(
    s: ContextView,
    statements: Vec<Statement>,
    error: TypeCheckError,
    step: Step,
)
    requires
        s.transformer.apply_all(statements@).1,
        s.after(Event::Resolved(Ok(statements))).orders(Event::TypeChecked(Err(error)), step),
    ensures
        s.after(Event::Resolved(Ok(statements))).after(Event::TypeChecked(Err(error))).transformer
            == s.transformer,
        step.restore_type_checker,
{
}

/// Statements that fail when they are run leave no trace: the names are
/// again those known before they arrived, the call is over, and the host
/// is told to put the type checker back.
pub proof fn lemma_failed_execution_restores_names(
    s: ContextView,
    statements: Vec<Statement>,
    error: RuntimeError,
    step: Step,
)
    requires
        s.transformer.apply_all(statements@).1,
        s.after(Event::Resolved(Ok(statements))).after(Event::TypeChecked(Ok(()))).orders(
            Event::Executed(Err(error)),
            step,
        ),
    ensures
        s.after(Event::Resolved(Ok(statements))).after(Event::TypeChecked(Ok(()))).after(
            Event::Executed(Err(error)),
        ).transformer == s.transformer,
        s.after(Event::Resolved(Ok(statements))).after(Event::TypeChecked(Ok(()))).after(
            Event::Executed(Err(error)),
        ).stage is Idle,
        step.restore_type_checker,
{
}

/// What `inv` says holds when a call begins and stays so after each event.
pub proof fn lemma_inv_kept(
    s: ContextView,
    event: Event,
    settings: InterpreterSettings,
    code: Seq<char>,
    source: CodeSource,
)
    requires
        s.inv(),
    ensures
        s.begun(settings, code, source).inv(),
        s.awaits(event) ==> s.after(event).inv(),
{
}

/// The currency module is loaded at most once in a call: only the
/// caller's first run can bring the session to load it, and once the
/// session is past that run no event brings it back there.
pub proof fn lemma_import_at_most_once(s: ContextView, event: Event)
    requires
        s.inv(),
        s.awaits(event),
        !(s.attempt is Original),
    ensures
        !(s.after(event).attempt is Original),
        s.after(event).attempt is Import ==> s.attempt is Import,
        !(s.after(event).stage is Fetching),
        forall|error: TypeCheckError| !s.loads_on(error),
{
}

/// The second run of the caller's code is the last: whatever the type
/// checker finds in it ends the call with that finding.
pub proof fn lemma_second_run_is_last(s: ContextView, error: TypeCheckError, step: Step)
    requires
        s.attempt is Retry,
        s.orders(Event::TypeChecked(Err(error)), step),
    ensures
        s.after(Event::TypeChecked(Err(error))).stage is Idle,
        step.action == (Action::Finished { result: Err(NumbatError::TypeCheckError(error)) }),
{
}

/// Exchange rates are written once: rates that are there stay, whatever
/// happens.
pub proof fn lemma_rates_written_once(s: ContextView, event: Event)
    requires
        s.exchange_rates is Some,
    ensures
        s.after(event).exchange_rates == s.exchange_rates,
{
}

/// A currency module that was loaded stays loaded, and turns the policy
/// off: the names that the second run starts from are those that the
/// module's statements left.
pub proof fn lemma_import_is_kept(s: ContextView)
    requires
        s.attempt is Import,
    ensures
        s.after(Event::Executed(Ok(()))).transformer == s.transformer,
        s.after(Event::Executed(Ok(()))).attempt is Retry,
        !s.after(Event::Executed(Ok(()))).load_currency_module_on_demand,
{
}

/// One session of the language: the names declared so far, and where the
/// call that is under way stands. The resolver, the type checker and the
/// interpreter are the host's: the session says what to do next, the host
/// does it and reports back.
#[derive(Debug)]
pub struct Context {
    prefix_transformer: Transformer,
    snapshot: Transformer,
    stage: Stage,
    attempt: Attempt,
    load_currency_module_on_demand: bool,
    debug: bool,
    exchange_rates: Option<String>,
    code: String,
    source: CodeSource,
    settings: InterpreterSettings,
}

impl View for Context {
    type V = ContextView;

    closed spec fn view(&self) -> ContextView {
        ContextView {
            transformer: self.prefix_transformer@,
            snapshot: self.snapshot@,
            stage: self.stage,
            attempt: self.attempt,
            load_currency_module_on_demand: self.load_currency_module_on_demand,
            debug: self.debug,
            exchange_rates: match self.exchange_rates {
                Some(table) => Some(table@),
                None => None,
            },
            code: self.code@,
            source: self.source,
            settings: self.settings,
        }
    }
}

impl Context {
    pub closed spec fn wf(&self) -> bool {
        self.prefix_transformer.wf() && self.snapshot.wf() && self@.inv()
    }

    /// A well-formed session waits for exchange rates only on the caller's
    /// first run.
    pub proof fn lemma_wf_inv(&self)
        requires
            self.wf(),
        ensures
            self@.inv(),
    {
    }

    /// A session that knows no name, with no call under way, the currency
    /// policy off and no exchange rates.
    pub fn new() -> (r: Context)
        ensures
            r.wf(),
            r@.stage is Idle,
            r@.attempt is Original,
            !r@.load_currency_module_on_demand,
            !r@.debug,
            r@.exchange_rates is None,
            r@.transformer.variable_names.len() == 0,
            r@.transformer.function_names.len() == 0,
            r@.transformer.unit_groups.len() == 0,
            r@.transformer.dimension_names.len() == 0,
            r@.transformer.parser.units.len() == 0,
            r@.transformer.parser.others.len() == 0,
            r.group_lists().len() == 0,
            r@.snapshot == r@.transformer,
            r@.code.len() == 0,
            r@.source is Internal,
            r@.settings == (InterpreterSettings { suppress_output: false }),
    {
        let r = Context {
            prefix_transformer: Transformer::new(),
            snapshot: Transformer::new(),
            stage: Stage::Idle,
            attempt: Attempt::Original,
            load_currency_module_on_demand: false,
            debug: false,
            exchange_rates: None,
            code: String::new(),
            source: CodeSource::Internal,
            settings: InterpreterSettings { suppress_output: false },
        };
        proof {
            let known = r@.transformer;
            let kept = r@.snapshot;
            assert(kept.parser.units =~= known.parser.units);
            assert(kept.parser.others =~= known.parser.others);
            assert(kept.variable_names =~= known.variable_names);
            assert(kept.function_names =~= known.function_names);
            assert(kept.unit_groups =~= known.unit_groups);
            assert(kept.dimension_names =~= known.dimension_names);
        }
        r
    }

    /// A session as `new` makes it: modules are the host's to find.
    pub fn new_without_importer() -> (r: Context)
        ensures
            r.wf(),
            r@.stage is Idle,
            r@.attempt is Original,
            !r@.load_currency_module_on_demand,
            !r@.debug,
            r@.exchange_rates is None,
            r@.transformer.variable_names.len() == 0,
            r@.transformer.function_names.len() == 0,
            r@.transformer.unit_groups.len() == 0,
            r@.transformer.dimension_names.len() == 0,
            r@.transformer.parser.units.len() == 0,
            r@.transformer.parser.others.len() == 0,
            r.group_lists().len() == 0,
            r@.snapshot == r@.transformer,
            r@.code.len() == 0,
            r@.source is Internal,
            r@.settings == (InterpreterSettings { suppress_output: false }),
    {
        Self::new()
    }

    /// A copy of the session, with all that it knows and where its call
    /// stands.
    pub fn duplicate(&self) -> (r: Context)
        ensures
            r@ == self@,
            r.group_lists() == self.group_lists(),
            self.wf() ==> r.wf(),
    {
        let exchange_rates = match &self.exchange_rates {
            Some(table) => Some(table.clone()),
            None => None,
        };
        Context {
            prefix_transformer: self.prefix_transformer.duplicate(),
            snapshot: self.snapshot.duplicate(),
            stage: self.stage,
            attempt: self.attempt,
            load_currency_module_on_demand: self.load_currency_module_on_demand,
            debug: self.debug,
            exchange_rates,
            code: self.code.clone(),
            source: self.source.duplicate(),
            settings: self.settings,
        }
    }

    /// Turns the interpreter's debugging output on or off.
    pub fn set_debug(&mut self, activate: bool)
        ensures
            final(self)@ == (ContextView { debug: activate, ..old(self)@ }),
            old(self).wf() ==> final(self).wf(),
    {
        self.debug = activate;
    }

    /// Whether the interpreter is to print its debugging output.
    pub fn debug(&self) -> (r: bool)
        ensures
            r == self@.debug,
    {
        self.debug
    }

    /// Turns the policy on or off by which an unknown currency makes the
    /// session load the currency module.
    pub fn load_currency_module_on_demand(&mut self, yes: bool)
        ensures
            final(self)@ == (ContextView { load_currency_module_on_demand: yes, ..old(self)@ }),
            old(self).wf() ==> final(self).wf(),
    {
        self.load_currency_module_on_demand = yes;
    }

    /// Hands the session the exchange rates. They are kept where it has
    /// none yet; rates that are there stay.
    pub fn set_exchange_rates(&mut self, xml_content: &str)
        ensures
            final(self)@ == (ContextView {
                exchange_rates: if old(self)@.exchange_rates is Some {
                    old(self)@.exchange_rates
                } else {
                    Some(xml_content@)
                },
                ..old(self)@
            }),
            old(self).wf() ==> final(self).wf(),
    {
        if self.exchange_rates.is_none() {
            self.exchange_rates = Some(xml_content.to_owned());
        }
    }

    /// Whether no call is under way.
    pub fn is_idle(&self) -> (r: bool)
        ensures
            r == (self@.stage is Idle),
    {
        match self.stage {
            Stage::Idle => true,
            _ => false,
        }
    }

    /// Whether the session waits for `event`.
    pub fn awaits(&self, event: &Event) -> (r: bool)
        ensures
            r == self@.awaits(*event),
    {
        match (event, self.stage) {
            (Event::Resolved(_), Stage::Resolving) => true,
            (Event::TypeChecked(_), Stage::Checking) => true,
            (Event::Executed(_), Stage::Executing) => true,
            (Event::ExchangeRates(_), Stage::Fetching) => true,
            _ => false,
        }
    }

    /// Whether `step` takes `event` now: the session waits for it, and the
    /// statements it brings are as the parser makes them.
    pub fn accepts(&self, event: &Event) -> (r: bool)
        ensures
            r == (self@.awaits(*event) && unresolved_event(*event)),
    {
        let parsed = match event {
            Event::Resolved(Ok(statements)) => are_unresolved_statements(statements),
            _ => true,
        };
        self.awaits(event) && parsed
    }

    /// The names of the variables declared so far.
    pub fn variable_names(&self) -> (r: &Vec<String>)
        ensures
            crate::text::texts(r@) == self@.transformer.variable_names,
    {
        self.prefix_transformer.variable_names()
    }

    /// The names of the functions declared so far.
    pub fn function_names(&self) -> (r: &Vec<String>)
        ensures
            crate::text::texts(r@) == self@.transformer.function_names,
    {
        self.prefix_transformer.function_names()
    }

    /// The groups of unit names, each as the list that it is held as.
    pub closed spec fn group_lists(&self) -> Seq<Seq<Seq<char>>> {
        self.prefix_transformer.group_lists()
    }

    /// The listing of what the session knows: the functions, dimensions,
    /// units and variables, each list sorted.
    pub fn print_environment(&self) -> (r: Markup)
        requires
            self.wf(),
        ensures
            exists|
                functions: Seq<Seq<char>>,
                dimensions: Seq<Seq<char>>,
                units: Seq<Seq<Seq<char>>>,
                variables: Seq<Seq<char>>,
            |
                {
                    &&& sorted_copy(functions, self@.transformer.function_names)
                    &&& sorted_copy(dimensions, self@.transformer.dimension_names)
                    &&& sorted_groups_copy(units, self.group_lists())
                    &&& sorted_copy(variables, self@.transformer.variable_names)
                    &&& parts(r.0@) == #[trigger] environment(functions, dimensions, units, variables)
                },
    {
        let functions = sorted_names(self.function_names());
        let dimensions = sorted_names(self.dimension_names());
        let mut units = copy_groups(self.unit_names());
        sort_groups(&mut units);
        let variables = sorted_names(self.variable_names());
        let r = environment_markup(&functions, &dimensions, &units, &variables);
        assert(parts(r.0@) == environment(
            texts(functions@),
            texts(dimensions@),
            grouped_texts(units@),
            texts(variables@),
        ));
        r
    }

    /// The names of the units declared so far: one group for each, in the
    /// order of the declarations, each group sorted and without repeats.
    pub fn unit_names(&self) -> (r: &Vec<Vec<String>>)
        requires
            self.wf(),
        ensures
            crate::prefix_transformer::groups_of(r@) == self@.transformer.unit_groups,
            crate::prefix_transformer::groups_sorted(r@),
            crate::prefix_transformer::groups_distinct(r@),
            crate::text::grouped_texts(r@) == self.group_lists(),
    {
        self.prefix_transformer.unit_names()
    }

    /// The names of the dimensions declared so far.
    pub fn dimension_names(&self) -> (r: &Vec<String>)
        ensures
            crate::text::texts(r@) == self@.transformer.dimension_names,
    {
        self.prefix_transformer.dimension_names()
    }

    /// The completions of `word_part`: each keyword, variable, function
    /// (with its opening bracket), dimension and unit name that begins
    /// with it, once, in lexical order.
    pub fn get_completions_for(&self, word_part: &str) -> (r: Vec<String>)
        requires
            self.wf(),
        ensures
            crate::text::texts_sorted(crate::text::texts(r@)),
            forall|i: int, j: int| 0 <= i < j < r@.len() ==> r@[i]@ != r@[j]@,
            forall|w: Seq<char>| #[trigger]
                crate::text::texts(r@).contains(w) <==> crate::completion::completes(
                    self@.transformer,
                    w,
                ) && crate::text::text_starts_with(w, word_part@),
    {
        crate::completion::completions(&self.prefix_transformer, word_part)
    }

    /// Begins a call with the settings `InterpreterSettings::default()`.
    pub fn interpret(&mut self, code: &str, code_source: CodeSource) -> (r: Step)
        requires
            old(self).wf(),
            old(self)@.stage is Idle,
        ensures
            final(self).wf(),
            final(self)@ == old(self)@.begun(
                InterpreterSettings { suppress_output: false },
                code@,
                code_source,
            ),
            !r.restore_type_checker,
            r.action matches Action::Resolve { code: c, source } && c@ == code@ && source
                == code_source,
    {
        self.interpret_with_settings(InterpreterSettings { suppress_output: false }, code, code_source)
    }

    /// Begins a call: the session keeps the code, its source and the
    /// settings, and has the resolver read the code. The host reports each
    /// outcome to `step` until that answers `Finished`.
    pub fn interpret_with_settings(
        &mut self,
        settings: InterpreterSettings,
        code: &str,
        code_source: CodeSource,
    ) -> (r: Step)
        requires
            old(self).wf(),
            old(self)@.stage is Idle,
        ensures
            final(self).wf(),
            final(self)@ == old(self)@.begun(settings, code@, code_source),
            !r.restore_type_checker,
            r.action matches Action::Resolve { code: c, source } && c@ == code@ && source
                == code_source,
    {
        self.stage = Stage::Resolving;
        self.attempt = Attempt::Original;
        self.code = code.to_owned();
        let source = code_source.duplicate();
        self.source = code_source;
        self.settings = settings;
        Step { restore_type_checker: false, action: Action::Resolve { code: code.to_owned(), source } }
    }

    /// The answer that has the resolver read the currency module.
    fn import_step(restore_type_checker: bool) -> (r: Step)
        ensures
            r.restore_type_checker == restore_type_checker,
            ContextView::resolves_import(r.action),
    {
        Step {
            restore_type_checker,
            action: Action::Resolve {
                code: "use units::currencies".to_owned(),
                source: CodeSource::Internal,
            },
        }
    }

    /// Takes the outcome of what the session last asked for, and says what
    /// to do next. The stages run in order: resolve, transform, check,
    /// execute. Where a stage fails, the names are again those known before
    /// the statements arrived, and the answer says whether the type checker
    /// has to be put back too. An unknown currency on the caller's first
    /// run loads the currency module, silently, and then runs the caller's
    /// code once more.
    pub fn step(&mut self, event: Event) -> (r: Step)
        requires
            old(self).wf(),
            old(self)@.awaits(event),
            unresolved_event(event),
        ensures
            final(self).wf(),
            final(self)@ == old(self)@.after(event),
            old(self)@.orders(event, r),
    {
        match event {
            Event::Resolved(Err(error)) => {
                self.stage = Stage::Idle;
                Step {
                    restore_type_checker: false,
                    action: Action::Finished { result: Err(NumbatError::ResolverError(error)) },
                }
            },
            Event::Resolved(Ok(statements)) => {
                self.snapshot = self.prefix_transformer.duplicate();
                match self.prefix_transformer.transform(statements) {
                    Ok(out) => {
                        self.stage = Stage::Checking;
                        Step { restore_type_checker: false, action: Action::TypeCheck { statements: out } }
                    },
                    Err(error) => {
                        self.prefix_transformer = self.snapshot.duplicate();
                        self.stage = Stage::Idle;
                        Step {
                            restore_type_checker: false,
                            action: Action::Finished {
                                result: Err(NumbatError::NameResolutionError(error)),
                            },
                        }
                    },
                }
            },
            Event::TypeChecked(Ok(_)) => {
                self.stage = Stage::Executing;
                let settings = match self.attempt {
                    Attempt::Import => InterpreterSettings { suppress_output: true },
                    _ => self.settings,
                };
                Step { restore_type_checker: false, action: Action::Execute { settings } }
            },
            Event::TypeChecked(Err(error)) => {
                self.prefix_transformer = self.snapshot.duplicate();
                let first_run = match self.attempt {
                    Attempt::Original => true,
                    _ => false,
                };
                let currency = match &error {
                    TypeCheckError::UnknownIdentifier(_, name, _) => is_currency_identifier(
                        name.as_str(),
                    ),
                    _ => false,
                };
                if self.load_currency_module_on_demand && first_run && currency {
                    if self.exchange_rates.is_some() {
                        self.stage = Stage::Resolving;
                        self.attempt = Attempt::Import;
                        Self::import_step(true)
                    } else {
                        self.stage = Stage::Fetching;
                        Step { restore_type_checker: true, action: Action::FetchExchangeRates }
                    }
                } else {
                    self.stage = Stage::Idle;
                    Step {
                        restore_type_checker: true,
                        action: Action::Finished { result: Err(NumbatError::TypeCheckError(error)) },
                    }
                }
            },
            Event::ExchangeRates(fetched) => {
                if self.exchange_rates.is_none() {
                    self.exchange_rates = fetched;
                }
                if self.exchange_rates.is_some() {
                    self.stage = Stage::Resolving;
                    self.attempt = Attempt::Import;
                    Self::import_step(false)
                } else {
                    self.stage = Stage::Idle;
                    Step {
                        restore_type_checker: false,
                        action: Action::Finished {
                            result: Err(
                                NumbatError::RuntimeError(RuntimeError::CouldNotLoadExchangeRates),
                            ),
                        },
                    }
                }
            },
            Event::Executed(Ok(_)) => {
                match self.attempt {
                    Attempt::Import => {
                        self.load_currency_module_on_demand = false;
                        self.stage = Stage::Resolving;
                        self.attempt = Attempt::Retry;
                        Step {
                            restore_type_checker: false,
                            action: Action::Resolve {
                                code: self.code.clone(),
                                source: self.source.duplicate(),
                            },
                        }
                    },
                    _ => {
                        self.stage = Stage::Idle;
                        Step { restore_type_checker: false, action: Action::Finished { result: Ok(()) } }
                    },
                }
            },
            Event::Executed(Err(error)) => {
                self.prefix_transformer = self.snapshot.duplicate();
                self.stage = Stage::Idle;
                Step {
                    restore_type_checker: true,
                    action: Action::Finished { result: Err(NumbatError::RuntimeError(error)) },
                }
            },
        }
    }
}

} // verus!
