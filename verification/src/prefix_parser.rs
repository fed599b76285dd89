use vstd::prelude::*;
use vstd::string::*;
use crate::name_resolution::NameResolutionError;
use crate::prefix::{token, token_long, token_prefix, token_text, Prefix, PrefixToken, TOKEN_COUNT};
use crate::span::Span;
use crate::text::same_text;

verus! {

/// Which spellings of a prefix a unit name takes: short ones (`k`), long
/// ones (`kilo`), both or none.
#[derive(Clone, Copy, Debug, PartialEq, Eq, Structural)]
pub struct AcceptsPrefix {
    pub short: bool,
    pub long: bool,
}

impl AcceptsPrefix {
    pub fn only_long() -> (r: AcceptsPrefix)
        ensures
            r == (AcceptsPrefix { short: false, long: true }),
    {
        AcceptsPrefix { short: false, long: true }
    }

    pub fn only_short() -> (r: AcceptsPrefix)
        ensures
            r == (AcceptsPrefix { short: true, long: false }),
    {
        AcceptsPrefix { short: true, long: false }
    }

    pub fn none() -> (r: AcceptsPrefix)
        ensures
            r == (AcceptsPrefix { short: false, long: false }),
    {
        AcceptsPrefix { short: false, long: false }
    }
}

/// What an identifier was resolved to.
#[derive(Debug)]
pub enum PrefixParserResult {
    /// A plain identifier: a variable or a function.
    Identifier(String),
    /// A unit: its prefix, the alias that was matched, and the unit's
    /// canonical name.
    UnitIdentifier(Prefix, String, String),
}

/// One registered alias of a unit.
#[derive(Debug)]
pub struct UnitInfo {
    alias: String,
    definition_span: Span,
    accepts_prefix: AcceptsPrefix,
    metric_prefixes: bool,
    binary_prefixes: bool,
    full_name: String,
}

/// The mathematical value of a registered alias.
pub struct UnitEntry {
    pub alias: Seq<char>,
    pub definition_span: Span,
    pub accepts_prefix: AcceptsPrefix,
    pub metric_prefixes: bool,
    pub binary_prefixes: bool,
    pub full_name: Seq<char>,
}

impl UnitEntry {
    /// Whether this alias may follow entry `t` of the prefix vocabulary.
    pub open spec fn accepts(self, t: int) -> bool {
        &&& (token_prefix(t) is Metric && self.metric_prefixes) || (token_prefix(t) is Binary
            && self.binary_prefixes)
        &&& if token_long(t) {
            self.accepts_prefix.long
        } else {
            self.accepts_prefix.short
        }
    }
}

impl View for UnitInfo {
    type V = UnitEntry;

    closed spec fn view(&self) -> UnitEntry {
        UnitEntry {
            alias: self.alias@,
            definition_span: self.definition_span,
            accepts_prefix: self.accepts_prefix,
            metric_prefixes: self.metric_prefixes,
            binary_prefixes: self.binary_prefixes,
            full_name: self.full_name@,
        }
    }
}

/// The mathematical value of the table: the aliases in the order in which
/// they were registered, and the plain identifiers with their locations.
pub struct PrefixParserView {
    pub units: Seq<UnitEntry>,
    pub others: Seq<(Seq<char>, Span)>,
}

impl PrefixParserView {
    /// Whether entry `u` is the alias `text`.
    pub open spec fn alias_at(self, text: Seq<char>, u: int) -> bool {
        0 <= u < self.units.len() && self.units[u].alias == text
    }

    pub open spec fn has_alias(self, text: Seq<char>) -> bool {
        exists|u: int| self.alias_at(text, u)
    }

    /// Whether entry `k` of the plain identifiers is `text`.
    pub open spec fn other_at(self, text: Seq<char>, k: int) -> bool {
        0 <= k < self.others.len() && self.others[k].0 == text
    }

    pub open spec fn has_other(self, text: Seq<char>) -> bool {
        exists|k: int| self.other_at(text, k)
    }

    /// Whether `input` is entry `t` of the prefix vocabulary followed by the
    /// alias `u`, which takes that prefix.
    pub open spec fn splits(self, input: Seq<char>, t: int, u: int) -> bool {
        &&& 0 <= t < TOKEN_COUNT
        &&& 0 <= u < self.units.len()
        &&& input == token_text(t) + self.units[u].alias
        &&& self.units[u].accepts(t)
    }

    pub open spec fn has_split(self, input: Seq<char>) -> bool {
        exists|t: int, u: int| self.splits(input, t, u)
    }

    /// Whether `(t, u)` is the split of `input` that wins: no other split
    /// has a longer prefix, and of the vocabulary's entries of that length
    /// `t` is the first.
    pub open spec fn preferred(self, input: Seq<char>, t: int, u: int) -> bool {
        &&& self.splits(input, t, u)
        &&& forall|t2: int, u2: int| #[trigger]
            self.splits(input, t2, u2) ==> token_text(t2).len() < token_text(t).len() || (
            token_text(t2).len() == token_text(t).len() && t <= t2)
    }

    /// Whether `input` denotes a unit, as it stands or with a prefix. A
    /// plain identifier of that spelling goes before a split.
    pub open spec fn is_unit(self, input: Seq<char>) -> bool {
        self.has_alias(input) || (!self.has_other(input) && self.has_split(input))
    }

    /// Whether `input` denotes a unit with these four properties.
    pub open spec fn unit_found(
        self,
        input: Seq<char>,
        span: Span,
        prefix: Prefix,
        base: Seq<char>,
        full: Seq<char>,
    ) -> bool {
        ||| exists|u: int|
            {
                &&& #[trigger] self.alias_at(input, u)
                &&& span == self.units[u].definition_span
                &&& prefix == Prefix::Metric(0)
                &&& base == input
                &&& full == self.units[u].full_name
            }
        ||| {
            &&& !self.has_alias(input)
            &&& !self.has_other(input)
            &&& exists|t: int, u: int|
                {
                    &&& #[trigger] self.preferred(input, t, u)
                    &&& span == self.units[u].definition_span
                    &&& prefix == token_prefix(t)
                    &&& base == self.units[u].alias
                    &&& full == self.units[u].full_name
                }
        }
    }

    /// Whether `input` resolves to `r`.
    pub open spec fn resolves(self, input: Seq<char>, r: PrefixParserResult) -> bool {
        match r {
            PrefixParserResult::Identifier(name) => name@ == input && !self.is_unit(input),
            PrefixParserResult::UnitIdentifier(prefix, base, full) => exists|span: Span| #[trigger]
                self.unit_found(input, span, prefix, base@, full@),
        }
    }

    /// Whether `span` is where the registration stands that `text` now
    /// denotes: a plain identifier, or else a unit.
    pub open spec fn defined_at(self, text: Seq<char>, span: Span) -> bool {
        if self.has_other(text) {
            exists|k: int| #[trigger] self.other_at(text, k) && self.others[k].1 == span
        } else {
            exists|prefix: Prefix, base: Seq<char>, full: Seq<char>|
                self.unit_found(text, span, prefix, base, full)
        }
    }

    /// Whether the alias `alias` cannot be registered for the unit
    /// `full_name`: it is a plain identifier, or it denotes a unit other
    /// than by an earlier registration of this same alias for `full_name`.
    pub open spec fn unit_collides(self, alias: Seq<char>, full_name: Seq<char>) -> bool {
        ||| self.has_other(alias)
        ||| self.is_unit(alias) && !(exists|u: int| #[trigger]
            self.alias_at(alias, u) && self.units[u].full_name == full_name)
    }

    /// The table after `entry` was registered: unchanged where its alias
    /// stands in it already.
    pub open spec fn with_unit(self, entry: UnitEntry) -> PrefixParserView {
        if self.has_alias(entry.alias) {
            self
        } else {
            PrefixParserView { units: self.units.push(entry), others: self.others }
        }
    }

    /// The table after the plain identifier `name` was registered:
    /// unchanged where it stands in it already.
    pub open spec fn with_other(self, name: Seq<char>, span: Span) -> PrefixParserView {
        if self.has_other(name) {
            self
        } else {
            PrefixParserView { units: self.units, others: self.others.push((name, span)) }
        }
    }

    /// No alias stands in the table twice, no plain identifier does, and
    /// none is both.
    pub open spec fn wf(self) -> bool {
        &&& forall|u: int, v: int|
            0 <= u < v < self.units.len() ==> #[trigger] self.units[u].alias
                != #[trigger] self.units[v].alias
        &&& forall|k: int, l: int|
            0 <= k < l < self.others.len() ==> #[trigger] self.others[k].0
                != #[trigger] self.others[l].0
        &&& forall|u: int, k: int|
            0 <= u < self.units.len() && 0 <= k < self.others.len() ==> #[trigger] self.units[u].alias
                != #[trigger] self.others[k].0
    }
}

/// Resolution is determined: in a well-formed table an identifier resolves
/// to one unit, with one prefix, or to none.
pub proof fn lemma_resolution_determined(
    p: PrefixParserView,
    input: Seq<char>,
    span1: Span,
    prefix1: Prefix,
    base1: Seq<char>,
    full1: Seq<char>,
    span2: Span,
    prefix2: Prefix,
    base2: Seq<char>,
    full2: Seq<char>,
)
    requires
        p.wf(),
        p.unit_found(input, span1, prefix1, base1, full1),
        p.unit_found(input, span2, prefix2, base2, full2),
    ensures
        span1 == span2,
        prefix1 == prefix2,
        base1 == base2,
        full1 == full2,
        p.is_unit(input),
{
    if p.has_alias(input) {
        let u = choose|u: int|
            {
                &&& #[trigger] p.alias_at(input, u)
                &&& span1 == p.units[u].definition_span
                &&& prefix1 == Prefix::Metric(0)
                &&& base1 == input
                &&& full1 == p.units[u].full_name
            };
        let v = choose|v: int|
            {
                &&& #[trigger] p.alias_at(input, v)
                &&& span2 == p.units[v].definition_span
                &&& prefix2 == Prefix::Metric(0)
                &&& base2 == input
                &&& full2 == p.units[v].full_name
            };
        assert(u == v);
    } else {
        let (t, u) = choose|t: int, u: int|
            {
                &&& #[trigger] p.preferred(input, t, u)
                &&& span1 == p.units[u].definition_span
                &&& prefix1 == token_prefix(t)
                &&& base1 == p.units[u].alias
                &&& full1 == p.units[u].full_name
            };
        let (t2, u2) = choose|t2: int, u2: int|
            {
                &&& #[trigger] p.preferred(input, t2, u2)
                &&& span2 == p.units[u2].definition_span
                &&& prefix2 == token_prefix(t2)
                &&& base2 == p.units[u2].alias
                &&& full2 == p.units[u2].full_name
            };
        assert(p.splits(input, t, u));
        assert(p.splits(input, t2, u2));
        assert(t == t2);
        let n = token_text(t).len() as int;
        assert(input.subrange(n, input.len() as int) =~= p.units[u].alias);
        assert(input.subrange(n, input.len() as int) =~= p.units[u2].alias);
        assert(u == u2);
    }
}

/// Registering an alias again for the unit that it stands for is accepted
/// and changes nothing.
pub proof fn lemma_same_alias_changes_nothing(p: PrefixParserView, u: int, entry: UnitEntry)
    requires
        p.wf(),
        0 <= u < p.units.len(),
        entry.alias == p.units[u].alias,
        entry.full_name == p.units[u].full_name,
    ensures
        !p.unit_collides(entry.alias, entry.full_name),
        p.with_unit(entry) == p,
{
    assert(p.alias_at(entry.alias, u));
    if p.has_other(entry.alias) {
        let k = choose|k: int| p.other_at(entry.alias, k);
        assert(p.units[u].alias == p.others[k].0);
    }
}

/// The table of names: which identifiers are aliases of units, with the
/// prefixes that each takes, and which are plain identifiers.
#[derive(Debug)]
pub struct PrefixParser {
    units: Vec<UnitInfo>,
    other_identifiers: Vec<(String, Span)>,
}

impl View for PrefixParser {
    type V = PrefixParserView;

    closed spec fn view(&self) -> PrefixParserView {
        PrefixParserView {
            units: Seq::new(self.units@.len(), |i: int| self.units@[i]@),
            others: Seq::new(
                self.other_identifiers@.len(),
                |i: int| (self.other_identifiers@[i].0@, self.other_identifiers@[i].1),
            ),
        }
    }
}

impl PrefixParser {
    pub open spec fn wf(&self) -> bool {
        self@.wf()
    }

    /// An empty table.
    pub fn new() -> (r: PrefixParser)
        ensures
            r@.units.len() == 0,
            r@.others.len() == 0,
            r.wf(),
    {
        PrefixParser { units: Vec::new(), other_identifiers: Vec::new() }
    }

    /// A copy of the table.
    pub fn duplicate(&self) -> (r: PrefixParser)
        ensures
            r@ == self@,
    {
        let mut units: Vec<UnitInfo> = Vec::new();
        let mut i: usize = 0;
        while i < self.units.len()
            invariant
                i <= self.units.len(),
                units@.len() == i,
                forall|j: int| 0 <= j < i ==> units@[j]@ == self.units@[j]@,
            decreases self.units.len() - i,
        {
            let info = &self.units[i];
            units.push(
                UnitInfo {
                    alias: info.alias.clone(),
                    definition_span: info.definition_span,
                    accepts_prefix: info.accepts_prefix,
                    metric_prefixes: info.metric_prefixes,
                    binary_prefixes: info.binary_prefixes,
                    full_name: info.full_name.clone(),
                },
            );
            i += 1;
        }
        let mut others: Vec<(String, Span)> = Vec::new();
        let mut k: usize = 0;
        while k < self.other_identifiers.len()
            invariant
                k <= self.other_identifiers.len(),
                others@.len() == k,
                forall|j: int|
                    0 <= j < k ==> others@[j].0@ == self.other_identifiers@[j].0@ && others@[j].1
                        == self.other_identifiers@[j].1,
            decreases self.other_identifiers.len() - k,
        {
            others.push((self.other_identifiers[k].0.clone(), self.other_identifiers[k].1));
            k += 1;
        }
        let r = PrefixParser { units, other_identifiers: others };
        assert(r@.units =~= self@.units);
        assert(r@.others =~= self@.others);
        r
    }

    /// The index of the alias `text`, if it is registered.
    fn find_unit(&self, text: &str) -> (r: Option<usize>)
        ensures
            match r {
                Some(u) => self@.alias_at(text@, u as int),
                None => !self@.has_alias(text@),
            },
    {
        let mut i: usize = 0;
        while i < self.units.len()
            invariant
                i <= self.units.len(),
                forall|j: int| 0 <= j < i ==> !self@.alias_at(text@, j),
            decreases self.units.len() - i,
        {
            if same_text(self.units[i].alias.as_str(), text) {
                return Some(i);
            }
            i += 1;
        }
        None
    }

    /// The index of the plain identifier `text`, if it is registered.
    fn find_other(&self, text: &str) -> (r: Option<usize>)
        ensures
            match r {
                Some(k) => self@.other_at(text@, k as int),
                None => !self@.has_other(text@),
            },
    {
        let mut i: usize = 0;
        while i < self.other_identifiers.len()
            invariant
                i <= self.other_identifiers.len(),
                forall|j: int| 0 <= j < i ==> !self@.other_at(text@, j),
            decreases self.other_identifiers.len() - i,
        {
            if same_text(self.other_identifiers[i].0.as_str(), text) {
                return Some(i);
            }
            i += 1;
        }
        None
    }

    /// Whether the alias `u` takes the prefix `tok`, entry `t` of the
    /// vocabulary.
    fn takes(&self, u: usize, tok: &PrefixToken, t: Ghost<int>) -> (r: bool)
        requires
            u < self@.units.len(),
            tok.long == token_long(t@),
            tok.prefix == token_prefix(t@),
        ensures
            r == self@.units[u as int].accepts(t@),
    {
        let info = &self.units[u];
        let family = (tok.prefix.is_metric() && info.metric_prefixes) || (tok.prefix.is_binary()
            && info.binary_prefixes);
        let form = if tok.long {
            info.accepts_prefix.long
        } else {
            info.accepts_prefix.short
        };
        family && form
    }

    /// Registers `unit_name` as an alias of the unit `full_name`. It is
    /// refused, and the table stays as it was, where the alias already
    /// denotes something else: a plain identifier, another unit, or a unit
    /// with a prefix. Registering an alias again for the same unit changes
    /// nothing.
    pub fn add_unit(
        &mut self,
        unit_name: &str,
        accepts_prefix: AcceptsPrefix,
        metric_prefixes: bool,
        binary_prefixes: bool,
        full_name: &str,
        definition_span: Span,
    ) -> (r: Result<(), NameResolutionError>)
        requires
            old(self).wf(),
        ensures
            final(self).wf(),
            match r {
                Ok(_) => {
                    &&& !old(self)@.unit_collides(unit_name@, full_name@)
                    &&& final(self)@ == old(self)@.with_unit(
                        UnitEntry {
                            alias: unit_name@,
                            definition_span,
                            accepts_prefix,
                            metric_prefixes,
                            binary_prefixes,
                            full_name: full_name@,
                        },
                    )
                },
                Err(e) => {
                    &&& old(self)@.unit_collides(unit_name@, full_name@)
                    &&& final(self)@ == old(self)@
                    &&& e.identifier() == unit_name@
                    &&& e.conflict() == definition_span
                    &&& old(self)@.defined_at(unit_name@, e.original())
                },
            },
    {
        match self.find_other(unit_name) {
            Some(k) => {
                return Err(
                    NameResolutionError::IdentifierClash {
                        conflicting_identifier: unit_name.to_owned(),
                        conflict_span: definition_span,
                        original_span: self.other_identifiers[k].1,
                    },
                );
            },
            None => {},
        }
        match self.locate(unit_name) {
            None => {
                let ghost before = self@;
                self.units.push(
                    UnitInfo {
                        alias: unit_name.to_owned(),
                        definition_span,
                        accepts_prefix,
                        metric_prefixes,
                        binary_prefixes,
                        full_name: full_name.to_owned(),
                    },
                );
                proof {
                    let entry = UnitEntry {
                        alias: unit_name@,
                        definition_span,
                        accepts_prefix,
                        metric_prefixes,
                        binary_prefixes,
                        full_name: full_name@,
                    };
                    assert(self@.units =~= before.units.push(entry));
                    assert(self@.others =~= before.others);
                    assert forall|u: int| 0 <= u < before.units.len() implies before.units[u].alias
                        != unit_name@ by {
                        assert(!before.alias_at(unit_name@, u));
                    }
                    assert forall|k: int| 0 <= k < before.others.len() implies before.others[k].0
                        != unit_name@ by {
                        assert(!before.other_at(unit_name@, k));
                    }
                }
                Ok(())
            },
            Some((found, _)) => {
                let span = self.units[found].definition_span;
                let same_unit = match self.find_unit(unit_name) {
                    Some(u) => same_text(self.units[u].full_name.as_str(), full_name),
                    None => false,
                };
                if same_unit {
                    Ok(())
                } else {
                    Err(
                        NameResolutionError::IdentifierClash {
                            conflicting_identifier: unit_name.to_owned(),
                            conflict_span: definition_span,
                            original_span: span,
                        },
                    )
                }
            },
        }
    }

    /// Registers `identifier` as a plain identifier: the name of a variable
    /// or a function. It is refused, and the table stays as it was, where
    /// the name denotes a unit, as it stands or with a prefix. Registering a
    /// plain identifier again changes nothing.
    pub fn add_other_identifier(&mut self, identifier: &str, definition_span: Span) -> (r: Result<
        (),
        NameResolutionError,
    >)
        requires
            old(self).wf(),
        ensures
            final(self).wf(),
            match r {
                Ok(_) => {
                    &&& !old(self)@.is_unit(identifier@)
                    &&& final(self)@ == old(self)@.with_other(identifier@, definition_span)
                },
                Err(e) => {
                    &&& old(self)@.is_unit(identifier@)
                    &&& final(self)@ == old(self)@
                    &&& e.identifier() == identifier@
                    &&& e.conflict() == definition_span
                    &&& old(self)@.defined_at(identifier@, e.original())
                },
            },
    {
        match self.locate(identifier) {
            None => {
                if self.find_other(identifier).is_none() {
                    let ghost before = self@;
                    self.other_identifiers.push((identifier.to_owned(), definition_span));
                    proof {
                        assert(self@.units =~= before.units);
                        assert(self@.others =~= before.others.push((identifier@, definition_span)));
                        assert forall|u: int| 0 <= u < before.units.len() implies before.units[u].alias
                            != identifier@ by {
                            assert(!before.alias_at(identifier@, u));
                        }
                        assert forall|k: int| 0 <= k < before.others.len() implies before.others[k].0
                            != identifier@ by {
                            assert(!before.other_at(identifier@, k));
                        }
                    }
                }
                Ok(())
            },
            Some((found, _)) => {
                let span = self.units[found].definition_span;
                proof {
                    if self@.has_other(identifier@) {
                        let k = choose|k: int| self@.other_at(identifier@, k);
                        let u = choose|u: int| self@.alias_at(identifier@, u);
                        assert(self@.units[u].alias == self@.others[k].0);
                    }
                }
                Err(
                    NameResolutionError::IdentifierClash {
                        conflicting_identifier: identifier.to_owned(),
                        conflict_span: definition_span,
                        original_span: span,
                    },
                )
            },
        }
    }

    /// Resolves an identifier. An alias as it stands is that unit without a
    /// prefix. Otherwise a registered plain identifier is itself. Otherwise,
    /// where the identifier is a prefix of the vocabulary followed by an
    /// alias that takes it, it is that unit with that prefix, the longest
    /// such prefix winning. Otherwise it is a plain identifier.
    pub fn parse(&self, input: &str) -> (r: PrefixParserResult)
        requires
            self.wf(),
        ensures
            self@.resolves(input@, r),
    {
        match self.locate(input) {
            Some((u, prefix)) => {
                let info = &self.units[u];
                let base = info.alias.clone();
                let full = info.full_name.clone();
                assert(self@.unit_found(
                    input@,
                    self@.units[u as int].definition_span,
                    prefix,
                    base@,
                    full@,
                ));
                let r = PrefixParserResult::UnitIdentifier(prefix, base, full);
                assert(r matches PrefixParserResult::UnitIdentifier(p2, b2, f2) && p2 == prefix
                    && b2@ == base@ && f2@ == full@);
                r
            },
            None => {
                PrefixParserResult::Identifier(input.to_owned())
            },
        }
    }

    /// The alias that `input` denotes, by its index, and the prefix before
    /// it; nothing where `input` denotes no unit.
    fn locate(&self, input: &str) -> (r: Option<(usize, Prefix)>)
        requires
            self.wf(),
        ensures
            match r {
                Some((u, prefix)) => u < self@.units.len() && self@.unit_found(
                    input@,
                    self@.units[u as int].definition_span,
                    prefix,
                    self@.units[u as int].alias,
                    self@.units[u as int].full_name,
                ),
                None => !self@.is_unit(input@),
            },
    {
        match self.find_unit(input) {
            Some(u) => {
                return Some((u, Prefix::none()));
            },
            None => {},
        }
        if self.find_other(input).is_some() {
            return None;
        }
        let n: usize = input.unicode_len();
        let mut best: Option<(usize, usize)> = None;
        let mut best_len: usize = 0;
        let mut t: usize = 0;
        while t < TOKEN_COUNT
            invariant
                t <= TOKEN_COUNT,
                self.wf(),
                n == input@.len(),
                match best {
                    Some((bt, bu)) => bt < t && self@.splits(input@, bt as int, bu as int)
                        && best_len == token_text(bt as int).len(),
                    None => true,
                },
                forall|t2: int, u2: int|
                    t2 < t && #[trigger] self@.splits(input@, t2, u2) ==> match best {
                        Some((bt, bu)) => token_text(t2).len() < best_len || (token_text(t2).len()
                            == best_len && bt <= t2),
                        None => false,
                    },
            decreases TOKEN_COUNT - t,
        {
            let tok = token(t);
            let len: usize = tok.text.unicode_len();
            let mut found: Option<usize> = None;
            if len <= n && same_text(input.substring_char(0, len), tok.text) {
                let rest = input.substring_char(len, n);
                assert(input@ =~= token_text(t as int) + rest@);
                match self.find_unit(rest) {
                    Some(u) => {
                        if self.takes(u, &tok, Ghost(t as int)) {
                            found = Some(u);
                        }
                    },
                    None => {},
                }
            }
            proof {
                assert forall|u2: int| #[trigger] self@.splits(input@, t as int, u2) implies found
                    == Some(u2 as usize) by {
                    let alias = self@.units[u2].alias;
                    assert(input@.subrange(0, len as int) =~= token_text(t as int));
                    assert(input@.subrange(len as int, n as int) =~= alias);
                    assert(self@.alias_at(alias, u2));
                }
            }
            match found {
                Some(u) => {
                    if best.is_none() || len > best_len {
                        best = Some((t, u));
                        best_len = len;
                    }
                },
                None => {},
            }
            t += 1;
        }
        match best {
            Some((bt, bu)) => {
                assert(self@.preferred(input@, bt as int, bu as int));
                Some((bu, token(bt).prefix))
            },
            None => {
                assert(!self@.has_split(input@));
                None
            },
        }
    }
}

} // verus!
