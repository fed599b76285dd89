use vstd::prelude::*;
use vstd::string::*;

verus! {

/// The character sequences of a sequence of strings.
pub open spec fn texts(names: Seq<String>) -> Seq<Seq<char>> {
    Seq::new(names.len(), |i: int| names[i]@)
}

/// The character sequences of a sequence of groups of strings.
pub open spec fn grouped_texts(groups: Seq<Vec<String>>) -> Seq<Seq<Seq<char>>> {
    Seq::new(groups.len(), |i: int| texts(groups[i]@))
}

/// Lexical order of two texts: character by character, by code point; a
/// proper prefix comes before the longer text.
pub open spec fn text_le(a: Seq<char>, b: Seq<char>) -> bool
    decreases a.len(),
{
    if a.len() == 0 {
        true
    } else if b.len() == 0 {
        false
    } else if a[0] != b[0] {
        (a[0] as int) < (b[0] as int)
    } else {
        text_le(a.drop_first(), b.drop_first())
    }
}

/// Whether `part` is a prefix of `word`.
pub open spec fn text_starts_with(word: Seq<char>, part: Seq<char>) -> bool {
    part.len() <= word.len() && word.subrange(0, part.len() as int) == part
}

/// Whether each text of `names` is lexically at most each later one.
pub open spec fn texts_sorted(names: Seq<Seq<char>>) -> bool {
    forall|i: int, j: int| 0 <= i < j < names.len() ==> text_le(#[trigger] names[i], #[trigger] names[j])
}

/// `names` without repeats: each name once, where it first stands.
pub open spec fn distinct(names: Seq<Seq<char>>) -> Seq<Seq<char>>
    decreases names.len(),
{
    if names.len() == 0 {
        Seq::empty()
    } else if distinct(names.drop_last()).contains(names.last()) {
        distinct(names.drop_last())
    } else {
        distinct(names.drop_last()).push(names.last())
    }
}

/// `distinct(names)` holds the names of `names`, and none twice.
pub proof fn lemma_distinct_holds_each_once(names: Seq<Seq<char>>)
    ensures
        distinct(names).no_duplicates(),
        forall|x: Seq<char>| #[trigger] distinct(names).contains(x) <==> names.contains(x),
    decreases names.len(),
{
    if names.len() > 0 {
        let front = names.drop_last();
        let last = names.last();
        lemma_distinct_holds_each_once(front);
        let d = distinct(front);
        assert forall|x: Seq<char>| #[trigger] distinct(names).contains(x) <==> names.contains(x) by {
            if names.contains(x) {
                let i = choose|i: int| 0 <= i < names.len() && names[i] == x;
                if i < names.len() - 1 {
                    assert(front[i] == x);
                    assert(front.contains(x));
                    assert(d.contains(x));
                    if !d.contains(last) {
                        let k = choose|k: int| 0 <= k < d.len() && d[k] == x;
                        assert(d.push(last)[k] == x);
                    }
                } else if !d.contains(last) {
                    assert(d.push(last)[d.len() as int] == x);
                }
            }
            if distinct(names).contains(x) {
                let k = choose|k: int| 0 <= k < distinct(names).len() && distinct(names)[k] == x;
                if k < d.len() {
                    assert(d[k] == x);
                    assert(d.contains(x));
                    let i = choose|i: int| 0 <= i < front.len() && front[i] == x;
                    assert(names[i] == x);
                } else {
                    assert(names[names.len() - 1] == x);
                }
            }
        }
    }
}

/// Names that do not repeat are their own `distinct`.
pub proof fn lemma_distinct_of_distinct(names: Seq<Seq<char>>)
    requires
        names.no_duplicates(),
    ensures
        distinct(names) == names,
    decreases names.len(),
{
    if names.len() > 0 {
        let front = names.drop_last();
        lemma_distinct_of_distinct(front);
        if front.contains(names.last()) {
            let i = choose|i: int| 0 <= i < front.len() && front[i] == names.last();
            assert(names[i] == names[names.len() - 1]);
        }
        assert(front.push(names.last()) =~= names);
    } else {
        assert(names =~= Seq::<Seq<char>>::empty());
    }
}

/// Whether two strings hold the same characters.
pub fn same_text(a: &str, b: &str) -> (r: bool)
    ensures
        r == (a@ == b@),
{
    let x: String = a.to_owned();
    let y: String = b.to_owned();
    x == y
}

/// Whether `word` begins with `part`.
pub fn starts_with(word: &str, part: &str) -> (r: bool)
    ensures
        r == text_starts_with(word@, part@),
{
    let n: usize = part.unicode_len();
    let m: usize = word.unicode_len();
    if m < n {
        false
    } else {
        same_text(word.substring_char(0, n), part)
    }
}

/// A copy of a list of names.
pub fn copy_names(names: &Vec<String>) -> (r: Vec<String>)
    ensures
        r@ == names@,
{
    let mut out: Vec<String> = Vec::new();
    let mut i: usize = 0;
    while i < names.len()
        invariant
            i <= names.len(),
            out@ == names@.subrange(0, i as int),
        decreases names.len() - i,
    {
        out.push(names[i].clone());
        assert(out@ =~= names@.subrange(0, i + 1));
        i += 1;
    }
    assert(out@ =~= names@);
    out
}

/// Whether `names` holds a string with the characters of `name`.
pub fn contains_text(names: &Vec<String>, name: &str) -> (r: bool)
    ensures
        r == texts(names@).contains(name@),
{
    let mut i: usize = 0;
    while i < names.len()
        invariant
            i <= names.len(),
            forall|j: int| 0 <= j < i ==> names@[j]@ != name@,
        decreases names.len() - i,
    {
        if same_text(names[i].as_str(), name) {
            assert(texts(names@)[i as int] == name@);
            return true;
        }
        i += 1;
    }
    false
}

/// Whether `a` comes lexically at or before `b`.
pub fn text_at_most(a: &str, b: &str) -> (r: bool)
    ensures
        r == text_le(a@, b@),
{
    let n: usize = a.unicode_len();
    let m: usize = b.unicode_len();
    let mut i: usize = 0;
    assert(a@.subrange(0, n as int) =~= a@);
    assert(b@.subrange(0, m as int) =~= b@);
    while i < n && i < m
        invariant
            i <= n,
            i <= m,
            n == a@.len(),
            m == b@.len(),
            text_le(a@, b@) == text_le(a@.subrange(i as int, n as int), b@.subrange(i as int, m as int)),
        decreases n - i,
    {
        let x = a.get_char(i);
        let y = b.get_char(i);
        let ghost rest_a = a@.subrange(i as int, n as int);
        let ghost rest_b = b@.subrange(i as int, m as int);
        assert(rest_a[0] == x && rest_b[0] == y);
        if x != y {
            return (x as u32) < (y as u32);
        }
        assert(rest_a.drop_first() =~= a@.subrange(i + 1, n as int));
        assert(rest_b.drop_first() =~= b@.subrange(i + 1, m as int));
        i += 1;
    }
    i == n
}

/// Of two texts one comes at or before the other.
pub proof fn lemma_text_le_total(a: Seq<char>, b: Seq<char>)
    ensures
        text_le(a, b) || text_le(b, a),
    decreases a.len(),
{
    if a.len() > 0 && b.len() > 0 {
        if a[0] == b[0] {
            lemma_text_le_total(a.drop_first(), b.drop_first());
        } else {
            assert((a[0] as int) != (b[0] as int));
        }
    }
}

/// The lexical order is transitive.
pub proof fn lemma_text_le_transitive(a: Seq<char>, b: Seq<char>, c: Seq<char>)
    requires
        text_le(a, b),
        text_le(b, c),
    ensures
        text_le(a, c),
    decreases a.len(),
{
    if a.len() > 0 && a[0] == b[0] && b[0] == c[0] {
        lemma_text_le_transitive(a.drop_first(), b.drop_first(), c.drop_first());
    }
}

/// Sorts a list of strings lexically: it holds the same strings as before,
/// each as often as before, each at or before every later one.
pub fn sort_names(names: &mut Vec<String>)
    ensures
        final(names)@.len() == old(names)@.len(),
        texts(final(names)@).to_multiset() == texts(old(names)@).to_multiset(),
        texts_sorted(texts(final(names)@)),
{
    let mut out: Vec<String> = Vec::new();
    let mut i: usize = 0;
    assert(texts(names@.subrange(0, 0)) =~= texts(out@));
    while i < names.len()
        invariant
            i <= names.len(),
            names@ == old(names)@,
            out@.len() == i,
            texts_sorted(texts(out@)),
            texts(out@).to_multiset() == texts(names@.subrange(0, i as int)).to_multiset(),
        decreases names.len() - i,
    {
        let ghost x = names@[i as int]@;
        let ghost held = texts(out@);
        let mut p: usize = 0;
        while p < out.len() && text_at_most(out[p].as_str(), names[i].as_str())
            invariant
                p <= out@.len(),
                i < names@.len(),
                x == names@[i as int]@,
                forall|k: int| 0 <= k < p ==> text_le(#[trigger] texts(out@)[k], x),
            decreases out@.len() - p,
        {
            assert(texts(out@)[p as int] == out@[p as int]@);
            p += 1;
        }
        out.insert(p, names[i].clone());
        proof {
            assert(texts(out@) =~= held.insert(p as int, x));
            assert forall|a: int, b: int| 0 <= a < b < texts(out@).len() implies text_le(
                #[trigger] texts(out@)[a],
                #[trigger] texts(out@)[b],
            ) by {
                if b == p {
                    assert(texts(out@)[a] == held[a]);
                } else if a == p {
                    assert(texts(out@)[b] == held[b - 1]);
                    lemma_text_le_total(held[p as int], x);
                    if b - 1 > p {
                        lemma_text_le_transitive(x, held[p as int], held[b - 1]);
                    }
                } else {
                    let a0 = if a < p { a } else { a - 1 };
                    let b0 = if b < p { b } else { b - 1 };
                    assert(texts(out@)[a] == held[a0]);
                    assert(texts(out@)[b] == held[b0]);
                }
            }
            let before = texts(names@.subrange(0, i as int));
            assert(texts(names@.subrange(0, i + 1)) =~= before.push(x));
            vstd::seq_lib::to_multiset_insert(held, p as int, x);
            vstd::seq_lib::to_multiset_build(before, x);
        }
        i += 1;
    }
    assert(names@.subrange(0, i as int) =~= names@);
    *names = out;
}

/// Lexical order of two groups of texts: text by text, a proper prefix
/// before the longer group.
pub open spec fn group_le(a: Seq<Seq<char>>, b: Seq<Seq<char>>) -> bool
    decreases a.len(),
{
    if a.len() == 0 {
        true
    } else if b.len() == 0 {
        false
    } else if a[0] != b[0] {
        text_le(a[0], b[0])
    } else {
        group_le(a.drop_first(), b.drop_first())
    }
}

/// Whether each group of `groups` is lexically at most each later one.
pub open spec fn groups_in_order(groups: Seq<Seq<Seq<char>>>) -> bool {
    forall|i: int, j: int|
        0 <= i < j < groups.len() ==> group_le(#[trigger] groups[i], #[trigger] groups[j])
}

/// Whether `sorted` holds what `names` holds, in lexical order.
pub open spec fn sorted_copy(sorted: Seq<Seq<char>>, names: Seq<Seq<char>>) -> bool {
    texts_sorted(sorted) && sorted.to_multiset() == names.to_multiset()
}

/// Whether `sorted` holds the groups that `groups` holds, in lexical order.
pub open spec fn sorted_groups_copy(sorted: Seq<Seq<Seq<char>>>, groups: Seq<Seq<Seq<char>>>) -> bool {
    groups_in_order(sorted) && sorted.to_multiset() == groups.to_multiset()
}

/// A copy of a list of groups of names.
pub fn copy_groups(groups: &Vec<Vec<String>>) -> (r: Vec<Vec<String>>)
    ensures
        grouped_texts(r@) == grouped_texts(groups@),
{
    let mut out: Vec<Vec<String>> = Vec::new();
    let mut i: usize = 0;
    while i < groups.len()
        invariant
            i <= groups.len(),
            out@.len() == i,
            forall|j: int| 0 <= j < i ==> (#[trigger] out@[j])@ == groups@[j]@,
        decreases groups.len() - i,
    {
        out.push(copy_names(&groups[i]));
        i += 1;
    }
    assert(grouped_texts(out@) =~= grouped_texts(groups@));
    out
}

/// A copy of `names` in lexical order.
pub fn sorted_names(names: &Vec<String>) -> (r: Vec<String>)
    ensures
        sorted_copy(texts(r@), texts(names@)),
{
    let mut out = copy_names(names);
    sort_names(&mut out);
    out
}

/// Two texts of which each comes at or before the other are the same.
pub proof fn lemma_text_le_antisymmetric(a: Seq<char>, b: Seq<char>)
    requires
        text_le(a, b),
        text_le(b, a),
    ensures
        a == b,
    decreases a.len(),
{
    if a.len() > 0 {
        lemma_text_le_antisymmetric(a.drop_first(), b.drop_first());
        assert(a =~= seq![a[0]] + a.drop_first());
        assert(b =~= seq![b[0]] + b.drop_first());
    } else {
        assert(a =~= b);
    }
}

/// Sorted lists that hold the same names, each as often, are the same
/// list: what a sorted list holds says what it is.
pub proof fn lemma_sorted_copy_unique(a: Seq<Seq<char>>, b: Seq<Seq<char>>)
    requires
        texts_sorted(a),
        texts_sorted(b),
        a.to_multiset() == b.to_multiset(),
    ensures
        a == b,
    decreases a.len(),
{
    a.to_multiset_ensures();
    b.to_multiset_ensures();
    if a.len() == 0 {
        assert(a =~= b);
    } else {
        assert(a.contains(a[0]));
        assert(b.to_multiset().count(a[0]) > 0);
        assert(b.contains(a[0]));
        let j = choose|j: int| 0 <= j < b.len() && b[j] == a[0];
        assert(b.contains(b[0]));
        assert(a.to_multiset().count(b[0]) > 0);
        assert(a.contains(b[0]));
        let i = choose|i: int| 0 <= i < a.len() && a[i] == b[0];
        if i != 0 && j != 0 {
            assert(text_le(a[0], a[i]));
            assert(text_le(b[0], b[j]));
            lemma_text_le_antisymmetric(a[0], b[0]);
        }
        assert(a[0] == b[0]);
        let rest_a = a.drop_first();
        let rest_b = b.drop_first();
        assert(a.remove(0) =~= rest_a);
        assert(b.remove(0) =~= rest_b);
        assert(rest_a.to_multiset() == rest_b.to_multiset());
        assert forall|k: int, l: int| 0 <= k < l < rest_a.len() implies text_le(
            #[trigger] rest_a[k],
            #[trigger] rest_a[l],
        ) by {
            assert(text_le(a[k + 1], a[l + 1]));
        }
        assert forall|k: int, l: int| 0 <= k < l < rest_b.len() implies text_le(
            #[trigger] rest_b[k],
            #[trigger] rest_b[l],
        ) by {
            assert(text_le(b[k + 1], b[l + 1]));
        }
        lemma_sorted_copy_unique(rest_a, rest_b);
        assert(a =~= seq![a[0]] + rest_a);
        assert(b =~= seq![b[0]] + rest_b);
    }
}

/// Of two groups one comes at or before the other.
pub proof fn lemma_group_le_total(a: Seq<Seq<char>>, b: Seq<Seq<char>>)
    ensures
        group_le(a, b) || group_le(b, a),
    decreases a.len(),
{
    if a.len() > 0 && b.len() > 0 {
        if a[0] == b[0] {
            lemma_group_le_total(a.drop_first(), b.drop_first());
        } else {
            lemma_text_le_total(a[0], b[0]);
        }
    }
}

/// The lexical order of groups is transitive.
pub proof fn lemma_group_le_transitive(a: Seq<Seq<char>>, b: Seq<Seq<char>>, c: Seq<Seq<char>>)
    requires
        group_le(a, b),
        group_le(b, c),
    ensures
        group_le(a, c),
    decreases a.len(),
{
    if a.len() > 0 {
        if a[0] == b[0] && b[0] == c[0] {
            lemma_group_le_transitive(a.drop_first(), b.drop_first(), c.drop_first());
        } else if a[0] != b[0] && b[0] != c[0] {
            lemma_text_le_transitive(a[0], b[0], c[0]);
            if a[0] == c[0] {
                lemma_text_le_antisymmetric(a[0], b[0]);
            }
        }
    }
}

/// Whether the group `a` comes lexically at or before the group `b`.
pub fn group_at_most(a: &Vec<String>, b: &Vec<String>) -> (r: bool)
    ensures
        r == group_le(texts(a@), texts(b@)),
{
    let n: usize = a.len();
    let m: usize = b.len();
    let mut i: usize = 0;
    assert(texts(a@).subrange(0, n as int) =~= texts(a@));
    assert(texts(b@).subrange(0, m as int) =~= texts(b@));
    while i < n && i < m
        invariant
            i <= n,
            i <= m,
            n == a@.len(),
            m == b@.len(),
            group_le(texts(a@), texts(b@)) == group_le(
                texts(a@).subrange(i as int, n as int),
                texts(b@).subrange(i as int, m as int),
            ),
        decreases n - i,
    {
        let ghost rest_a = texts(a@).subrange(i as int, n as int);
        let ghost rest_b = texts(b@).subrange(i as int, m as int);
        assert(rest_a[0] == a@[i as int]@ && rest_b[0] == b@[i as int]@);
        if !same_text(a[i].as_str(), b[i].as_str()) {
            return text_at_most(a[i].as_str(), b[i].as_str());
        }
        assert(rest_a.drop_first() =~= texts(a@).subrange(i + 1, n as int));
        assert(rest_b.drop_first() =~= texts(b@).subrange(i + 1, m as int));
        i += 1;
    }
    i == n
}

/// Sorts a list of groups lexically: it holds the same groups as before,
/// each as often as before, each at or before every later one.
pub fn sort_groups(groups: &mut Vec<Vec<String>>)
    ensures
        final(groups)@.len() == old(groups)@.len(),
        grouped_texts(final(groups)@).to_multiset() == grouped_texts(old(groups)@).to_multiset(),
        groups_in_order(grouped_texts(final(groups)@)),
{
    let mut out: Vec<Vec<String>> = Vec::new();
    let mut i: usize = 0;
    assert(grouped_texts(groups@.subrange(0, 0)) =~= grouped_texts(out@));
    while i < groups.len()
        invariant
            i <= groups.len(),
            groups@ == old(groups)@,
            out@.len() == i,
            groups_in_order(grouped_texts(out@)),
            grouped_texts(out@).to_multiset() == grouped_texts(groups@.subrange(0, i as int)).to_multiset(),
        decreases groups.len() - i,
    {
        let ghost x = texts(groups@[i as int]@);
        let ghost held = grouped_texts(out@);
        let mut p: usize = 0;
        while p < out.len() && group_at_most(&out[p], &groups[i])
            invariant
                p <= out@.len(),
                i < groups@.len(),
                x == texts(groups@[i as int]@),
                forall|k: int| 0 <= k < p ==> group_le(#[trigger] grouped_texts(out@)[k], x),
            decreases out@.len() - p,
        {
            assert(grouped_texts(out@)[p as int] == texts(out@[p as int]@));
            p += 1;
        }
        out.insert(p, copy_names(&groups[i]));
        proof {
            assert(grouped_texts(out@) =~= held.insert(p as int, x));
            assert forall|a: int, b: int| 0 <= a < b < grouped_texts(out@).len() implies group_le(
                #[trigger] grouped_texts(out@)[a],
                #[trigger] grouped_texts(out@)[b],
            ) by {
                if b == p {
                    assert(grouped_texts(out@)[a] == held[a]);
                } else if a == p {
                    assert(grouped_texts(out@)[b] == held[b - 1]);
                    lemma_group_le_total(held[p as int], x);
                    if b - 1 > p {
                        lemma_group_le_transitive(x, held[p as int], held[b - 1]);
                    }
                } else {
                    let a0 = if a < p { a } else { a - 1 };
                    let b0 = if b < p { b } else { b - 1 };
                    assert(grouped_texts(out@)[a] == held[a0]);
                    assert(grouped_texts(out@)[b] == held[b0]);
                }
            }
            let before = grouped_texts(groups@.subrange(0, i as int));
            assert(grouped_texts(groups@.subrange(0, i + 1)) =~= before.push(x));
            vstd::seq_lib::to_multiset_insert(held, p as int, x);
            vstd::seq_lib::to_multiset_build(before, x);
        }
        i += 1;
    }
    assert(groups@.subrange(0, i as int) =~= groups@);
    *groups = out;
}

} // verus!
