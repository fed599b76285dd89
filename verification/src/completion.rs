use vstd::prelude::*;
use vstd::string::*;
use crate::keywords::{keyword, keyword_text, names_keyword, KEYWORD_COUNT};
use crate::prefix_transformer::{groups_of, Transformer, TransformerView};
use crate::text::{contains_text, sort_names, starts_with, text_le, text_starts_with, texts, texts_sorted};

verus! {

/// What a function's name is completed to: the name and an opening
/// bracket.
pub open spec fn call_text(name: Seq<char>) -> Seq<char> {
    name + "("@
}

/// The keywords, in their order.
pub open spec fn keyword_texts() -> Seq<Seq<char>> {
    Seq::new(KEYWORD_COUNT as nat, |i: int| keyword_text(i))
}

/// What the names of functions are completed to.
pub open spec fn call_texts(names: Seq<Seq<char>>) -> Seq<Seq<char>> {
    Seq::new(names.len(), |i: int| call_text(names[i]))
}

/// Whether `word` is offered as a completion: a keyword, the name of a
/// variable, a function's name with its bracket, a dimension, or one of
/// the names of a unit.
pub open spec fn completes(state: TransformerView, word: Seq<char>) -> bool {
    ||| names_keyword(word)
    ||| state.variable_names.contains(word)
    ||| call_texts(state.function_names).contains(word)
    ||| state.dimension_names.contains(word)
    ||| exists|g: int| 0 <= g < state.unit_groups.len() && (#[trigger] state.unit_groups[g]).count(word) > 0
}

/// A word stands in two lists laid end to end where it stands in one.
pub proof fn lemma_contains_concat(a: Seq<Seq<char>>, b: Seq<Seq<char>>, w: Seq<char>)
    ensures
        (a + b).contains(w) <==> a.contains(w) || b.contains(w),
{
    if a.contains(w) {
        let i = choose|i: int| 0 <= i < a.len() && a[i] == w;
        assert((a + b)[i] == w);
    }
    if b.contains(w) {
        let i = choose|i: int| 0 <= i < b.len() && b[i] == w;
        assert((a + b)[a.len() + i] == w);
    }
    if (a + b).contains(w) {
        let i = choose|i: int| 0 <= i < (a + b).len() && (a + b)[i] == w;
        if i < a.len() {
            assert(a[i] == w);
        } else {
            assert(b[i - a.len()] == w);
        }
    }
}

/// Whether `w` stands in one of the first `upto` groups.
pub open spec fn in_groups(groups: Seq<Vec<String>>, upto: int, w: Seq<char>) -> bool {
    exists|h: int| 0 <= h < upto && texts(#[trigger] groups[h]@).contains(w)
}

/// Puts copies of `names` at the end of `words`.
fn append_names(words: &mut Vec<String>, names: &Vec<String>)
    ensures
        texts(final(words)@) == texts(old(words)@) + texts(names@),
{
    let mut i: usize = 0;
    assert(texts(words@) =~= texts(old(words)@) + texts(names@).subrange(0, 0));
    while i < names.len()
        invariant
            i <= names.len(),
            texts(words@) == texts(old(words)@) + texts(names@).subrange(0, i as int),
        decreases names.len() - i,
    {
        let ghost held = words@;
        words.push(names[i].clone());
        assert(texts(words@) =~= texts(held).push(names@[i as int]@));
        assert(texts(words@) =~= texts(old(words)@) + texts(names@).subrange(0, i + 1));
        i += 1;
    }
    assert(texts(names@).subrange(0, i as int) =~= texts(names@));
}

/// Puts each of `names`, with an opening bracket, at the end of `words`.
fn append_calls(words: &mut Vec<String>, names: &Vec<String>)
    ensures
        texts(final(words)@) == texts(old(words)@) + call_texts(texts(names@)),
{
    let mut i: usize = 0;
    assert(texts(words@) =~= texts(old(words)@) + call_texts(texts(names@)).subrange(0, 0));
    while i < names.len()
        invariant
            i <= names.len(),
            texts(words@) == texts(old(words)@) + call_texts(texts(names@)).subrange(0, i as int),
        decreases names.len() - i,
    {
        let ghost held = words@;
        let mut call = names[i].clone();
        call.append("(");
        words.push(call);
        assert(texts(words@) =~= texts(held).push(call_text(names@[i as int]@)));
        assert(texts(words@) =~= texts(old(words)@) + call_texts(texts(names@)).subrange(
            0,
            i + 1,
        ));
        i += 1;
    }
    assert(call_texts(texts(names@)).subrange(0, i as int) =~= call_texts(texts(names@)));
}

/// Puts the keywords at the end of `words`.
fn append_keywords(words: &mut Vec<String>)
    ensures
        texts(final(words)@) == texts(old(words)@) + keyword_texts(),
{
    let mut i: usize = 0;
    assert(texts(words@) =~= texts(old(words)@) + keyword_texts().subrange(0, 0));
    while i < KEYWORD_COUNT
        invariant
            i <= KEYWORD_COUNT,
            texts(words@) == texts(old(words)@) + keyword_texts().subrange(0, i as int),
        decreases KEYWORD_COUNT - i,
    {
        let ghost held = words@;
        words.push(keyword(i).to_owned());
        assert(texts(words@) =~= texts(held).push(keyword_text(i as int)));
        assert(texts(words@) =~= texts(old(words)@) + keyword_texts().subrange(0, i + 1));
        i += 1;
    }
    assert(keyword_texts().subrange(0, i as int) =~= keyword_texts());
}

/// Every word that is offered as a completion, in no order, some more than
/// once.
fn candidates(transformer: &Transformer) -> (words: Vec<String>)
    requires
        transformer.wf(),
    ensures
        forall|w: Seq<char>| #[trigger] texts(words@).contains(w) <==> completes(transformer@, w),
{
    let ghost state = transformer@;
    let mut words: Vec<String> = Vec::new();
    append_keywords(&mut words);
    let ghost w1 = texts(words@);
    append_names(&mut words, transformer.variable_names());
    let ghost w2 = texts(words@);
    append_calls(&mut words, transformer.function_names());
    let ghost w3 = texts(words@);
    append_names(&mut words, transformer.dimension_names());
    let ghost w4 = texts(words@);
    let groups = transformer.unit_names();
    proof {
        assert(w1 =~= keyword_texts());
        assert forall|w: Seq<char>| #[trigger] w4.contains(w) <==> (names_keyword(w)
            || state.variable_names.contains(w) || call_texts(state.function_names).contains(w)
            || state.dimension_names.contains(w)) by {
            lemma_contains_concat(w3, state.dimension_names, w);
            lemma_contains_concat(w2, call_texts(state.function_names), w);
            lemma_contains_concat(w1, state.variable_names, w);
            if names_keyword(w) {
                let i = choose|i: int| 0 <= i < KEYWORD_COUNT && #[trigger] keyword_text(i) == w;
                assert(keyword_texts()[i] == w);
            }
        }
    }
    let mut g: usize = 0;
    while g < groups.len()
        invariant
            g <= groups.len(),
            groups_of(groups@) == state.unit_groups,
            forall|w: Seq<char>| #[trigger]
                texts(words@).contains(w) <==> (w4.contains(w) || in_groups(groups@, g as int, w)),
        decreases groups.len() - g,
    {
        let ghost held = texts(words@);
        append_names(&mut words, &groups[g]);
        proof {
            assert forall|w: Seq<char>| #[trigger]
                texts(words@).contains(w) <==> (w4.contains(w) || in_groups(groups@, g + 1, w)) by {
                let last = texts(groups@[g as int]@);
                assert(texts(words@) == held + last);
                lemma_contains_concat(held, last, w);
                assert((held + last).contains(w) <==> held.contains(w) || last.contains(w));
                assert(held.contains(w) <==> (w4.contains(w) || in_groups(groups@, g as int, w)));
                if in_groups(groups@, g as int, w) {
                    let h = choose|h: int| 0 <= h < g && texts(#[trigger] groups@[h]@).contains(w);
                    assert(0 <= h < g + 1 && texts(groups@[h]@).contains(w));
                }
                if texts(groups@[g as int]@).contains(w) {
                    assert(in_groups(groups@, g + 1, w));
                }
                if in_groups(groups@, g + 1, w) {
                    let h = choose|h: int| 0 <= h < g + 1 && texts(#[trigger] groups@[h]@).contains(w);
                    if h < g {
                        assert(in_groups(groups@, g as int, w));
                    }
                }
            }
        }
        g += 1;
    }
    proof {
        assert forall|w: Seq<char>| #[trigger] texts(words@).contains(w) <==> completes(state, w) by {
            assert(w4.contains(w) <==> (names_keyword(w) || state.variable_names.contains(w)
                || call_texts(state.function_names).contains(w) || state.dimension_names.contains(
                w,
            )));
            if in_groups(groups@, groups@.len() as int, w) {
                let h = choose|h: int| 0 <= h < groups@.len() && texts(#[trigger] groups@[h]@).contains(w);
                texts(groups@[h]@).to_multiset_ensures();
                assert(groups_of(groups@)[h].count(w) > 0);
                assert(state.unit_groups[h].count(w) > 0);
            }
            if exists|k: int| 0 <= k < state.unit_groups.len() && (#[trigger] state.unit_groups[k]).count(w) > 0 {
                let k = choose|k: int| 0 <= k < state.unit_groups.len() && (#[trigger] state.unit_groups[k]).count(w) > 0;
                texts(groups@[k]@).to_multiset_ensures();
                assert(groups_of(groups@)[k] == texts(groups@[k]@).to_multiset());
                assert(texts(groups@[k]@).contains(w));
                assert(in_groups(groups@, groups@.len() as int, w));
            }
        }
    }
    words
}

/// The completions of `word_part`: each word on offer that begins with it,
/// once, in lexical order.
pub fn completions(transformer: &Transformer, word_part: &str) -> (r: Vec<String>)
    requires
        transformer.wf(),
    ensures
        texts_sorted(texts(r@)),
        forall|i: int, j: int| 0 <= i < j < r@.len() ==> r@[i]@ != r@[j]@,
        forall|w: Seq<char>| #[trigger]
            texts(r@).contains(w) <==> completes(transformer@, w) && text_starts_with(w, word_part@),
{
    let mut words = candidates(transformer);
    let ghost unsorted = texts(words@);
    sort_names(&mut words);
    proof {
        unsorted.to_multiset_ensures();
        texts(words@).to_multiset_ensures();
    }
    let mut out: Vec<String> = Vec::new();
    let ghost mut from: Seq<int> = Seq::empty();
    let mut i: usize = 0;
    while i < words.len()
        invariant
            i <= words.len(),
            texts_sorted(texts(words@)),
            texts(words@).to_multiset() == unsorted.to_multiset(),
            forall|w: Seq<char>| #[trigger] unsorted.contains(w) <==> completes(transformer@, w),
            from.len() == out@.len(),
            forall|k: int| 0 <= k < from.len() ==> 0 <= #[trigger] from[k] < i,
            forall|k: int, l: int| 0 <= k < l < from.len() ==> from[k] < from[l],
            forall|k: int| 0 <= k < from.len() ==> (#[trigger] out@[k])@ == words@[from[k]]@,
            forall|k: int| 0 <= k < out@.len() ==> text_starts_with((#[trigger] out@[k])@, word_part@),
            forall|k: int, l: int| 0 <= k < l < out@.len() ==> out@[k]@ != out@[l]@,
            forall|j: int|
                0 <= j < i && text_starts_with((#[trigger] words@[j])@, word_part@) ==> texts(
                    out@,
                ).contains(words@[j]@),
        decreases words.len() - i,
    {
        let ghost held = out@;
        if starts_with(words[i].as_str(), word_part) && !contains_text(&out, words[i].as_str()) {
            out.push(words[i].clone());
            proof {
                from = from.push(i as int);
                assert forall|k: int, l: int| 0 <= k < l < out@.len() implies out@[k]@ != out@[l]@ by {
                    if l == out@.len() - 1 {
                        assert(texts(held)[k] == held[k]@);
                    }
                }
                assert(texts(out@)[out@.len() - 1] == words@[i as int]@);
            }
        }
        proof {
            assert forall|j: int|
                0 <= j < i + 1 && text_starts_with((#[trigger] words@[j])@, word_part@) implies texts(
                out@,
            ).contains(words@[j]@) by {
                if texts(held).contains(words@[j]@) {
                    let k = choose|k: int| 0 <= k < texts(held).len() && texts(held)[k] == words@[j]@;
                    assert(texts(out@)[k] == words@[j]@);
                }
            }
        }
        i += 1;
    }
    proof {
        unsorted.to_multiset_ensures();
        texts(words@).to_multiset_ensures();
        assert forall|a: int, b: int| 0 <= a < b < texts(out@).len() implies text_le(
            #[trigger] texts(out@)[a],
            #[trigger] texts(out@)[b],
        ) by {
            assert(out@[a]@ == words@[from[a]]@);
            assert(out@[b]@ == words@[from[b]]@);
            assert(text_le(texts(words@)[from[a]], texts(words@)[from[b]]));
        }
        assert forall|w: Seq<char>| #[trigger]
            texts(out@).contains(w) <==> completes(transformer@, w) && text_starts_with(
                w,
                word_part@,
            ) by {
            assert(unsorted.contains(w) <==> unsorted.to_multiset().count(w) > 0);
            assert(texts(words@).contains(w) <==> texts(words@).to_multiset().count(w) > 0);
            assert(unsorted.contains(w) <==> completes(transformer@, w));
            if texts(out@).contains(w) {
                let k = choose|k: int| 0 <= k < texts(out@).len() && texts(out@)[k] == w;
                assert(out@[k]@ == w);
                assert(texts(words@)[from[k]] == w);
                assert(texts(words@).contains(w));
            }
            if completes(transformer@, w) && text_starts_with(w, word_part@) {
                assert(unsorted.contains(w));
                assert(texts(words@).contains(w));
                let j = choose|j: int| 0 <= j < texts(words@).len() && texts(words@)[j] == w;
                assert(words@[j]@ == w);
            }
        }
    }
    out
}

} // verus!
