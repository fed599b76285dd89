use vstd::prelude::*;
use vstd::string::*;
use crate::text::same_text;

verus! {

/// The number of keywords.
pub const KEYWORD_COUNT: usize = 17;

/// Entry `i` of the keywords, each as it is completed: with the blank or
/// the bracket that follows it.
pub open spec fn keyword_text(i: int) -> Seq<char> {
    if i == 0 {
        "per "@
    } else if i == 1 {
        "to "@
    } else if i == 2 {
        "let "@
    } else if i == 3 {
        "fn "@
    } else if i == 4 {
        "dimension "@
    } else if i == 5 {
        "unit "@
    } else if i == 6 {
        "use "@
    } else if i == 7 {
        "long"@
    } else if i == 8 {
        "short"@
    } else if i == 9 {
        "both"@
    } else if i == 10 {
        "none"@
    } else if i == 11 {
        "print("@
    } else if i == 12 {
        "assert_eq("@
    } else if i == 13 {
        "type("@
    } else if i == 14 {
        "metric_prefixes"@
    } else if i == 15 {
        "binary_prefixes"@
    } else if i == 16 {
        "aliases("@
    } else {
        Seq::empty()
    }
}

/// Entry `i` of the keywords.
pub fn keyword(i: usize) -> (r: &'static str)
    requires
        i < KEYWORD_COUNT,
    ensures
        r@ == keyword_text(i as int),
{
    if i == 0 {
        "per "
    } else if i == 1 {
        "to "
    } else if i == 2 {
        "let "
    } else if i == 3 {
        "fn "
    } else if i == 4 {
        "dimension "
    } else if i == 5 {
        "unit "
    } else if i == 6 {
        "use "
    } else if i == 7 {
        "long"
    } else if i == 8 {
        "short"
    } else if i == 9 {
        "both"
    } else if i == 10 {
        "none"
    } else if i == 11 {
        "print("
    } else if i == 12 {
        "assert_eq("
    } else if i == 13 {
        "type("
    } else if i == 14 {
        "metric_prefixes"
    } else if i == 15 {
        "binary_prefixes"
    } else if i == 16 {
        "aliases("
    } else {
        ""
    }
}

/// Whether `text` is a keyword.
pub open spec fn names_keyword(text: Seq<char>) -> bool {
    exists|i: int| 0 <= i < KEYWORD_COUNT && #[trigger] keyword_text(i) == text
}

/// Whether `text` is a keyword.
pub fn is_keyword(text: &str) -> (r: bool)
    ensures
        r == names_keyword(text@),
{
    let mut i: usize = 0;
    while i < KEYWORD_COUNT
        invariant
            i <= KEYWORD_COUNT,
            forall|j: int| 0 <= j < i ==> #[trigger] keyword_text(j) != text@,
        decreases KEYWORD_COUNT - i,
    {
        if same_text(keyword(i), text) {
            return true;
        }
        i += 1;
    }
    false
}

} // verus!
