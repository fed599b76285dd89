use vstd::prelude::*;
use vstd::string::*;
use crate::prefix_parser::AcceptsPrefix;
use crate::text::same_text;

verus! {

/// A flag attached to a unit declaration.
#[derive(Debug)]
pub enum Decorator {
    /// The unit takes metric prefixes.
    MetricPrefixes,
    /// The unit takes binary prefixes.
    BinaryPrefixes,
    /// Further names of the unit, each with the prefix spellings it takes
    /// (long ones only, where none is given).
    Aliases(Vec<(String, Option<AcceptsPrefix>)>),
}

/// A family of prefixes.
#[derive(Clone, Copy, Debug, PartialEq, Eq, Structural)]
pub enum PrefixFamily {
    Metric,
    Binary,
}

/// Whether `decorator` is the flag that admits the prefixes of `family`.
pub open spec fn admits(decorator: Decorator, family: PrefixFamily) -> bool {
    match family {
        PrefixFamily::Metric => decorator is MetricPrefixes,
        PrefixFamily::Binary => decorator is BinaryPrefixes,
    }
}

/// Whether one of `decorators` admits the prefixes of `family`.
pub open spec fn has_flag(decorators: Seq<Decorator>, family: PrefixFamily) -> bool {
    exists|i: int| 0 <= i < decorators.len() && admits(#[trigger] decorators[i], family)
}

/// The prefix spellings that an alias takes: those given, else long ones.
pub open spec fn spellings(given: Option<AcceptsPrefix>) -> AcceptsPrefix {
    match given {
        Some(a) => a,
        None => AcceptsPrefix { short: false, long: true },
    }
}

/// The aliases of one `Aliases` decorator.
pub open spec fn listed(aliases: Seq<(String, Option<AcceptsPrefix>)>) -> Seq<
    (Seq<char>, AcceptsPrefix),
> {
    Seq::new(aliases.len(), |i: int| (aliases[i].0@, spellings(aliases[i].1)))
}

/// The aliases that `decorators` give: those of the last `Aliases` among
/// them.
pub open spec fn alias_list(decorators: Seq<Decorator>) -> Seq<(Seq<char>, AcceptsPrefix)>
    decreases decorators.len(),
{
    if decorators.len() == 0 {
        Seq::empty()
    } else {
        match decorators.last() {
            Decorator::Aliases(aliases) => listed(aliases@),
            _ => alias_list(decorators.drop_last()),
        }
    }
}

/// Whether `name` is one of `aliases`.
pub open spec fn lists(aliases: Seq<(Seq<char>, AcceptsPrefix)>, name: Seq<char>) -> bool {
    exists|i: int| 0 <= i < aliases.len() && (#[trigger] aliases[i]).0 == name
}

/// The names under which a unit is registered: its own name, with long
/// prefixes, unless the aliases list it; then the aliases.
pub open spec fn spec_name_and_aliases(name: Seq<char>, decorators: Seq<Decorator>) -> Seq<
    (Seq<char>, AcceptsPrefix),
> {
    let aliases = alias_list(decorators);
    if lists(aliases, name) {
        aliases
    } else {
        seq![(name, AcceptsPrefix { short: false, long: true })] + aliases
    }
}

/// The mathematical value of a list of names with their prefix spellings.
pub open spec fn pairs(list: Seq<(String, AcceptsPrefix)>) -> Seq<(Seq<char>, AcceptsPrefix)> {
    Seq::new(list.len(), |i: int| (list[i].0@, list[i].1))
}

/// The first components of `list`.
pub open spec fn names_of(list: Seq<(Seq<char>, AcceptsPrefix)>) -> Seq<Seq<char>> {
    Seq::new(list.len(), |i: int| list[i].0)
}

/// The names under which the unit `name` with `decorators` is registered.
pub fn name_and_aliases(name: &str, decorators: &Vec<Decorator>) -> (r: Vec<
    (String, AcceptsPrefix),
>)
    ensures
        pairs(r@) == spec_name_and_aliases(name@, decorators@),
{
    let mut out: Vec<(String, AcceptsPrefix)> = Vec::new();
    let mut named: bool = false;
    let mut i: usize = decorators.len();
    let mut done: bool = false;
    assert(decorators@.subrange(0, i as int) =~= decorators@);
    while i > 0 && !done
        invariant
            i <= decorators.len(),
            !done ==> out@.len() == 0 && !named && alias_list(decorators@) == alias_list(
                decorators@.subrange(0, i as int),
            ),
            done ==> pairs(out@) == alias_list(decorators@) && named == lists(
                alias_list(decorators@),
                name@,
            ),
        decreases i + (if done { 0int } else { 1int }),
    {
        let ghost part = decorators@.subrange(0, i as int);
        assert(part.last() == decorators@[i - 1]);
        assert(part.drop_last() =~= decorators@.subrange(0, i - 1));
        match &decorators[i - 1] {
            Decorator::Aliases(aliases) => {
                let mut k: usize = 0;
                while k < aliases.len()
                    invariant
                        k <= aliases.len(),
                        out@.len() == k,
                        forall|j: int| 0 <= j < k ==> (#[trigger] out@[j]).0@ == aliases@[j].0@,
                        forall|j: int|
                            0 <= j < k ==> (#[trigger] out@[j]).1 == spellings(aliases@[j].1),
                        named == exists|j: int| 0 <= j < k && (#[trigger] aliases@[j]).0@ == name@,
                    decreases aliases.len() - k,
                {
                    let accepts = match aliases[k].1 {
                        Some(a) => a,
                        None => AcceptsPrefix::only_long(),
                    };
                    if same_text(aliases[k].0.as_str(), name) {
                        named = true;
                    }
                    out.push((aliases[k].0.clone(), accepts));
                    k += 1;
                }
                proof {
                    let list = listed(aliases@);
                    assert(pairs(out@) =~= list);
                    if named {
                        let j = choose|j: int| 0 <= j < aliases@.len() && (#[trigger] aliases@[j]).0@ == name@;
                        assert(list[j].0 == name@);
                    }
                    if lists(list, name@) {
                        let j = choose|j: int| 0 <= j < list.len() && (#[trigger] list[j]).0 == name@;
                        assert(aliases@[j].0@ == name@);
                    }
                }
                done = true;
            },
            _ => {
                i -= 1;
            },
        }
    }
    proof {
        if !done {
            assert(decorators@.subrange(0, 0).len() == 0);
            assert(pairs(out@) =~= alias_list(decorators@));
        }
    }
    if named {
        out
    } else {
        let mut all: Vec<(String, AcceptsPrefix)> = Vec::new();
        all.push((name.to_owned(), AcceptsPrefix::only_long()));
        let mut k: usize = 0;
        while k < out.len()
            invariant
                k <= out.len(),
                all@.len() == k + 1,
                all@[0].0@ == name@,
                all@[0].1 == (AcceptsPrefix { short: false, long: true }),
                forall|j: int| 0 <= j < k ==> (#[trigger] all@[j + 1]).0@ == out@[j].0@,
                forall|j: int| 0 <= j < k ==> (#[trigger] all@[j + 1]).1 == out@[j].1,
            decreases out.len() - k,
        {
            all.push((out[k].0.clone(), out[k].1));
            k += 1;
        }
        assert forall|j: int| 1 <= j < all@.len() implies pairs(all@)[j] == pairs(out@)[j - 1] by {
            assert(all@[(j - 1) + 1].0@ == out@[j - 1].0@);
            assert(all@[(j - 1) + 1].1 == out@[j - 1].1);
        }
        assert(pairs(all@) =~= seq![(name@, AcceptsPrefix { short: false, long: true })] + pairs(
            out@,
        ));
        all
    }
}

} // verus!
