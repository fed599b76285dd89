use vstd::prelude::*;

verus! {

/// A multiplicative modifier of a unit: a power of ten (metric) or a power of
/// two (binary).
#[derive(Clone, Copy, Debug, PartialEq, Eq, Structural)]
pub enum Prefix {
    Metric(i32),
    Binary(i32),
}

impl Prefix {
    /// The prefix of a unit that is written without one.
    pub open spec fn spec_none() -> Prefix {
        Prefix::Metric(0i32)
    }

    #[verifier::when_used_as_spec(spec_none)]
    pub fn none() -> (r: Prefix)
        ensures
            r == Prefix::Metric(0i32),
    {
        Prefix::Metric(0i32)
    }

    pub open spec fn spec_is_metric(&self) -> bool {
        self is Metric
    }

    #[verifier::when_used_as_spec(spec_is_metric)]
    pub fn is_metric(&self) -> (r: bool)
        ensures
            r == (self is Metric),
    {
        match self {
            Prefix::Metric(_) => true,
            Prefix::Binary(_) => false,
        }
    }

    pub open spec fn spec_is_binary(&self) -> bool {
        self is Binary
    }

    #[verifier::when_used_as_spec(spec_is_binary)]
    pub fn is_binary(&self) -> (r: bool)
        ensures
            r == (self is Binary),
    {
        match self {
            Prefix::Metric(_) => false,
            Prefix::Binary(_) => true,
        }
    }
}

/// One entry of the prefix vocabulary: the spelling, whether it is the long
/// form (`kilo`) or a short one (`k`), and the prefix it stands for.
#[derive(Clone, Copy, Debug)]
pub struct PrefixToken {
    pub text: &'static str,
    pub long: bool,
    pub prefix: Prefix,
}

/// The number of entries of the prefix vocabulary.
pub const TOKEN_COUNT: usize = 65;

/// The spelling of the vocabulary's entry `i`.
pub open spec fn token_text(i: int) -> Seq<char> {
    if i == 0 {
        "quecto"@
    } else if i == 1 {
        "q"@
    } else if i == 2 {
        "ronto"@
    } else if i == 3 {
        "r"@
    } else if i == 4 {
        "yocto"@
    } else if i == 5 {
        "y"@
    } else if i == 6 {
        "zepto"@
    } else if i == 7 {
        "z"@
    } else if i == 8 {
        "atto"@
    } else if i == 9 {
        "a"@
    } else if i == 10 {
        "femto"@
    } else if i == 11 {
        "f"@
    } else if i == 12 {
        "pico"@
    } else if i == 13 {
        "p"@
    } else if i == 14 {
        "nano"@
    } else if i == 15 {
        "n"@
    } else if i == 16 {
        "micro"@
    } else if i == 17 {
        "µ"@
    } else if i == 18 {
        "μ"@
    } else if i == 19 {
        "milli"@
    } else if i == 20 {
        "m"@
    } else if i == 21 {
        "centi"@
    } else if i == 22 {
        "c"@
    } else if i == 23 {
        "deci"@
    } else if i == 24 {
        "d"@
    } else if i == 25 {
        "deca"@
    } else if i == 26 {
        "da"@
    } else if i == 27 {
        "hecto"@
    } else if i == 28 {
        "h"@
    } else if i == 29 {
        "kilo"@
    } else if i == 30 {
        "k"@
    } else if i == 31 {
        "mega"@
    } else if i == 32 {
        "M"@
    } else if i == 33 {
        "giga"@
    } else if i == 34 {
        "G"@
    } else if i == 35 {
        "tera"@
    } else if i == 36 {
        "T"@
    } else if i == 37 {
        "peta"@
    } else if i == 38 {
        "P"@
    } else if i == 39 {
        "exa"@
    } else if i == 40 {
        "E"@
    } else if i == 41 {
        "zetta"@
    } else if i == 42 {
        "Z"@
    } else if i == 43 {
        "yotta"@
    } else if i == 44 {
        "Y"@
    } else if i == 45 {
        "ronna"@
    } else if i == 46 {
        "R"@
    } else if i == 47 {
        "quetta"@
    } else if i == 48 {
        "Q"@
    } else if i == 49 {
        "kibi"@
    } else if i == 50 {
        "Ki"@
    } else if i == 51 {
        "mebi"@
    } else if i == 52 {
        "Mi"@
    } else if i == 53 {
        "gibi"@
    } else if i == 54 {
        "Gi"@
    } else if i == 55 {
        "tebi"@
    } else if i == 56 {
        "Ti"@
    } else if i == 57 {
        "pebi"@
    } else if i == 58 {
        "Pi"@
    } else if i == 59 {
        "exbi"@
    } else if i == 60 {
        "Ei"@
    } else if i == 61 {
        "zebi"@
    } else if i == 62 {
        "Zi"@
    } else if i == 63 {
        "yobi"@
    } else if i == 64 {
        "Yi"@
    } else {
        Seq::empty()
    }
}

/// Whether the vocabulary's entry `i` is a long form.
pub open spec fn token_long(i: int) -> bool {
    if i == 0 {
        true
    } else if i == 1 {
        false
    } else if i == 2 {
        true
    } else if i == 3 {
        false
    } else if i == 4 {
        true
    } else if i == 5 {
        false
    } else if i == 6 {
        true
    } else if i == 7 {
        false
    } else if i == 8 {
        true
    } else if i == 9 {
        false
    } else if i == 10 {
        true
    } else if i == 11 {
        false
    } else if i == 12 {
        true
    } else if i == 13 {
        false
    } else if i == 14 {
        true
    } else if i == 15 {
        false
    } else if i == 16 {
        true
    } else if i == 17 {
        false
    } else if i == 18 {
        false
    } else if i == 19 {
        true
    } else if i == 20 {
        false
    } else if i == 21 {
        true
    } else if i == 22 {
        false
    } else if i == 23 {
        true
    } else if i == 24 {
        false
    } else if i == 25 {
        true
    } else if i == 26 {
        false
    } else if i == 27 {
        true
    } else if i == 28 {
        false
    } else if i == 29 {
        true
    } else if i == 30 {
        false
    } else if i == 31 {
        true
    } else if i == 32 {
        false
    } else if i == 33 {
        true
    } else if i == 34 {
        false
    } else if i == 35 {
        true
    } else if i == 36 {
        false
    } else if i == 37 {
        true
    } else if i == 38 {
        false
    } else if i == 39 {
        true
    } else if i == 40 {
        false
    } else if i == 41 {
        true
    } else if i == 42 {
        false
    } else if i == 43 {
        true
    } else if i == 44 {
        false
    } else if i == 45 {
        true
    } else if i == 46 {
        false
    } else if i == 47 {
        true
    } else if i == 48 {
        false
    } else if i == 49 {
        true
    } else if i == 50 {
        false
    } else if i == 51 {
        true
    } else if i == 52 {
        false
    } else if i == 53 {
        true
    } else if i == 54 {
        false
    } else if i == 55 {
        true
    } else if i == 56 {
        false
    } else if i == 57 {
        true
    } else if i == 58 {
        false
    } else if i == 59 {
        true
    } else if i == 60 {
        false
    } else if i == 61 {
        true
    } else if i == 62 {
        false
    } else if i == 63 {
        true
    } else if i == 64 {
        false
    } else {
        false
    }
}

/// The prefix that the vocabulary's entry `i` stands for.
pub open spec fn token_prefix(i: int) -> Prefix {
    if i == 0 {
        Prefix::Metric(-30i32)
    } else if i == 1 {
        Prefix::Metric(-30i32)
    } else if i == 2 {
        Prefix::Metric(-27i32)
    } else if i == 3 {
        Prefix::Metric(-27i32)
    } else if i == 4 {
        Prefix::Metric(-24i32)
    } else if i == 5 {
        Prefix::Metric(-24i32)
    } else if i == 6 {
        Prefix::Metric(-21i32)
    } else if i == 7 {
        Prefix::Metric(-21i32)
    } else if i == 8 {
        Prefix::Metric(-18i32)
    } else if i == 9 {
        Prefix::Metric(-18i32)
    } else if i == 10 {
        Prefix::Metric(-15i32)
    } else if i == 11 {
        Prefix::Metric(-15i32)
    } else if i == 12 {
        Prefix::Metric(-12i32)
    } else if i == 13 {
        Prefix::Metric(-12i32)
    } else if i == 14 {
        Prefix::Metric(-9i32)
    } else if i == 15 {
        Prefix::Metric(-9i32)
    } else if i == 16 {
        Prefix::Metric(-6i32)
    } else if i == 17 {
        Prefix::Metric(-6i32)
    } else if i == 18 {
        Prefix::Metric(-6i32)
    } else if i == 19 {
        Prefix::Metric(-3i32)
    } else if i == 20 {
        Prefix::Metric(-3i32)
    } else if i == 21 {
        Prefix::Metric(-2i32)
    } else if i == 22 {
        Prefix::Metric(-2i32)
    } else if i == 23 {
        Prefix::Metric(-1i32)
    } else if i == 24 {
        Prefix::Metric(-1i32)
    } else if i == 25 {
        Prefix::Metric(1i32)
    } else if i == 26 {
        Prefix::Metric(1i32)
    } else if i == 27 {
        Prefix::Metric(2i32)
    } else if i == 28 {
        Prefix::Metric(2i32)
    } else if i == 29 {
        Prefix::Metric(3i32)
    } else if i == 30 {
        Prefix::Metric(3i32)
    } else if i == 31 {
        Prefix::Metric(6i32)
    } else if i == 32 {
        Prefix::Metric(6i32)
    } else if i == 33 {
        Prefix::Metric(9i32)
    } else if i == 34 {
        Prefix::Metric(9i32)
    } else if i == 35 {
        Prefix::Metric(12i32)
    } else if i == 36 {
        Prefix::Metric(12i32)
    } else if i == 37 {
        Prefix::Metric(15i32)
    } else if i == 38 {
        Prefix::Metric(15i32)
    } else if i == 39 {
        Prefix::Metric(18i32)
    } else if i == 40 {
        Prefix::Metric(18i32)
    } else if i == 41 {
        Prefix::Metric(21i32)
    } else if i == 42 {
        Prefix::Metric(21i32)
    } else if i == 43 {
        Prefix::Metric(24i32)
    } else if i == 44 {
        Prefix::Metric(24i32)
    } else if i == 45 {
        Prefix::Metric(27i32)
    } else if i == 46 {
        Prefix::Metric(27i32)
    } else if i == 47 {
        Prefix::Metric(30i32)
    } else if i == 48 {
        Prefix::Metric(30i32)
    } else if i == 49 {
        Prefix::Binary(10i32)
    } else if i == 50 {
        Prefix::Binary(10i32)
    } else if i == 51 {
        Prefix::Binary(20i32)
    } else if i == 52 {
        Prefix::Binary(20i32)
    } else if i == 53 {
        Prefix::Binary(30i32)
    } else if i == 54 {
        Prefix::Binary(30i32)
    } else if i == 55 {
        Prefix::Binary(40i32)
    } else if i == 56 {
        Prefix::Binary(40i32)
    } else if i == 57 {
        Prefix::Binary(50i32)
    } else if i == 58 {
        Prefix::Binary(50i32)
    } else if i == 59 {
        Prefix::Binary(60i32)
    } else if i == 60 {
        Prefix::Binary(60i32)
    } else if i == 61 {
        Prefix::Binary(70i32)
    } else if i == 62 {
        Prefix::Binary(70i32)
    } else if i == 63 {
        Prefix::Binary(80i32)
    } else if i == 64 {
        Prefix::Binary(80i32)
    } else {
        Prefix::Metric(0i32)
    }
}

/// The vocabulary's entry `i`: metric prefixes first, then binary ones, each
/// long form followed by its short forms.
pub fn token(i: usize) -> (r: PrefixToken)
    requires
        i < TOKEN_COUNT,
    ensures
        r.text@ == token_text(i as int),
        r.long == token_long(i as int),
        r.prefix == token_prefix(i as int),
{
    if i == 0 {
        PrefixToken { text: "quecto", long: true, prefix: Prefix::Metric(-30i32) }
    } else if i == 1 {
        PrefixToken { text: "q", long: false, prefix: Prefix::Metric(-30i32) }
    } else if i == 2 {
        PrefixToken { text: "ronto", long: true, prefix: Prefix::Metric(-27i32) }
    } else if i == 3 {
        PrefixToken { text: "r", long: false, prefix: Prefix::Metric(-27i32) }
    } else if i == 4 {
        PrefixToken { text: "yocto", long: true, prefix: Prefix::Metric(-24i32) }
    } else if i == 5 {
        PrefixToken { text: "y", long: false, prefix: Prefix::Metric(-24i32) }
    } else if i == 6 {
        PrefixToken { text: "zepto", long: true, prefix: Prefix::Metric(-21i32) }
    } else if i == 7 {
        PrefixToken { text: "z", long: false, prefix: Prefix::Metric(-21i32) }
    } else if i == 8 {
        PrefixToken { text: "atto", long: true, prefix: Prefix::Metric(-18i32) }
    } else if i == 9 {
        PrefixToken { text: "a", long: false, prefix: Prefix::Metric(-18i32) }
    } else if i == 10 {
        PrefixToken { text: "femto", long: true, prefix: Prefix::Metric(-15i32) }
    } else if i == 11 {
        PrefixToken { text: "f", long: false, prefix: Prefix::Metric(-15i32) }
    } else if i == 12 {
        PrefixToken { text: "pico", long: true, prefix: Prefix::Metric(-12i32) }
    } else if i == 13 {
        PrefixToken { text: "p", long: false, prefix: Prefix::Metric(-12i32) }
    } else if i == 14 {
        PrefixToken { text: "nano", long: true, prefix: Prefix::Metric(-9i32) }
    } else if i == 15 {
        PrefixToken { text: "n", long: false, prefix: Prefix::Metric(-9i32) }
    } else if i == 16 {
        PrefixToken { text: "micro", long: true, prefix: Prefix::Metric(-6i32) }
    } else if i == 17 {
        PrefixToken { text: "µ", long: false, prefix: Prefix::Metric(-6i32) }
    } else if i == 18 {
        PrefixToken { text: "μ", long: false, prefix: Prefix::Metric(-6i32) }
    } else if i == 19 {
        PrefixToken { text: "milli", long: true, prefix: Prefix::Metric(-3i32) }
    } else if i == 20 {
        PrefixToken { text: "m", long: false, prefix: Prefix::Metric(-3i32) }
    } else if i == 21 {
        PrefixToken { text: "centi", long: true, prefix: Prefix::Metric(-2i32) }
    } else if i == 22 {
        PrefixToken { text: "c", long: false, prefix: Prefix::Metric(-2i32) }
    } else if i == 23 {
        PrefixToken { text: "deci", long: true, prefix: Prefix::Metric(-1i32) }
    } else if i == 24 {
        PrefixToken { text: "d", long: false, prefix: Prefix::Metric(-1i32) }
    } else if i == 25 {
        PrefixToken { text: "deca", long: true, prefix: Prefix::Metric(1i32) }
    } else if i == 26 {
        PrefixToken { text: "da", long: false, prefix: Prefix::Metric(1i32) }
    } else if i == 27 {
        PrefixToken { text: "hecto", long: true, prefix: Prefix::Metric(2i32) }
    } else if i == 28 {
        PrefixToken { text: "h", long: false, prefix: Prefix::Metric(2i32) }
    } else if i == 29 {
        PrefixToken { text: "kilo", long: true, prefix: Prefix::Metric(3i32) }
    } else if i == 30 {
        PrefixToken { text: "k", long: false, prefix: Prefix::Metric(3i32) }
    } else if i == 31 {
        PrefixToken { text: "mega", long: true, prefix: Prefix::Metric(6i32) }
    } else if i == 32 {
        PrefixToken { text: "M", long: false, prefix: Prefix::Metric(6i32) }
    } else if i == 33 {
        PrefixToken { text: "giga", long: true, prefix: Prefix::Metric(9i32) }
    } else if i == 34 {
        PrefixToken { text: "G", long: false, prefix: Prefix::Metric(9i32) }
    } else if i == 35 {
        PrefixToken { text: "tera", long: true, prefix: Prefix::Metric(12i32) }
    } else if i == 36 {
        PrefixToken { text: "T", long: false, prefix: Prefix::Metric(12i32) }
    } else if i == 37 {
        PrefixToken { text: "peta", long: true, prefix: Prefix::Metric(15i32) }
    } else if i == 38 {
        PrefixToken { text: "P", long: false, prefix: Prefix::Metric(15i32) }
    } else if i == 39 {
        PrefixToken { text: "exa", long: true, prefix: Prefix::Metric(18i32) }
    } else if i == 40 {
        PrefixToken { text: "E", long: false, prefix: Prefix::Metric(18i32) }
    } else if i == 41 {
        PrefixToken { text: "zetta", long: true, prefix: Prefix::Metric(21i32) }
    } else if i == 42 {
        PrefixToken { text: "Z", long: false, prefix: Prefix::Metric(21i32) }
    } else if i == 43 {
        PrefixToken { text: "yotta", long: true, prefix: Prefix::Metric(24i32) }
    } else if i == 44 {
        PrefixToken { text: "Y", long: false, prefix: Prefix::Metric(24i32) }
    } else if i == 45 {
        PrefixToken { text: "ronna", long: true, prefix: Prefix::Metric(27i32) }
    } else if i == 46 {
        PrefixToken { text: "R", long: false, prefix: Prefix::Metric(27i32) }
    } else if i == 47 {
        PrefixToken { text: "quetta", long: true, prefix: Prefix::Metric(30i32) }
    } else if i == 48 {
        PrefixToken { text: "Q", long: false, prefix: Prefix::Metric(30i32) }
    } else if i == 49 {
        PrefixToken { text: "kibi", long: true, prefix: Prefix::Binary(10i32) }
    } else if i == 50 {
        PrefixToken { text: "Ki", long: false, prefix: Prefix::Binary(10i32) }
    } else if i == 51 {
        PrefixToken { text: "mebi", long: true, prefix: Prefix::Binary(20i32) }
    } else if i == 52 {
        PrefixToken { text: "Mi", long: false, prefix: Prefix::Binary(20i32) }
    } else if i == 53 {
        PrefixToken { text: "gibi", long: true, prefix: Prefix::Binary(30i32) }
    } else if i == 54 {
        PrefixToken { text: "Gi", long: false, prefix: Prefix::Binary(30i32) }
    } else if i == 55 {
        PrefixToken { text: "tebi", long: true, prefix: Prefix::Binary(40i32) }
    } else if i == 56 {
        PrefixToken { text: "Ti", long: false, prefix: Prefix::Binary(40i32) }
    } else if i == 57 {
        PrefixToken { text: "pebi", long: true, prefix: Prefix::Binary(50i32) }
    } else if i == 58 {
        PrefixToken { text: "Pi", long: false, prefix: Prefix::Binary(50i32) }
    } else if i == 59 {
        PrefixToken { text: "exbi", long: true, prefix: Prefix::Binary(60i32) }
    } else if i == 60 {
        PrefixToken { text: "Ei", long: false, prefix: Prefix::Binary(60i32) }
    } else if i == 61 {
        PrefixToken { text: "zebi", long: true, prefix: Prefix::Binary(70i32) }
    } else if i == 62 {
        PrefixToken { text: "Zi", long: false, prefix: Prefix::Binary(70i32) }
    } else if i == 63 {
        PrefixToken { text: "yobi", long: true, prefix: Prefix::Binary(80i32) }
    } else if i == 64 {
        PrefixToken { text: "Yi", long: false, prefix: Prefix::Binary(80i32) }
    } else {
        PrefixToken { text: "", long: false, prefix: Prefix::Metric(0i32) }
    }
}

} // verus!
