use vstd::prelude::*;
use vstd::string::*;
use crate::text::{grouped_texts, texts};

verus! {

/// How a piece of output is to be shown.
#[derive(Clone, Copy, Debug, PartialEq, Eq, Structural)]
pub enum FormatType {
    Whitespace,
    Text,
    Identifier,
    TypeIdentifier,
    Unit,
}

/// A piece of output: how it is shown, and its text.
#[derive(Clone, Debug)]
pub struct FormattedString(pub FormatType, pub String);

/// Output made of pieces.
#[derive(Debug)]
pub struct Markup(pub Vec<FormattedString>);

/// The mathematical value of a piece of output.
pub type Part = (FormatType, Seq<char>);

/// The mathematical value of a sequence of pieces.
pub open spec fn parts(pieces: Seq<FormattedString>) -> Seq<Part> {
    Seq::new(pieces.len(), |i: int| (pieces[i].0, pieces[i].1@))
}

/// `items` with `separator` between each two neighbours.
pub open spec fn interspersed(items: Seq<Part>, separator: Part) -> Seq<Part> {
    Seq::new(
        if items.len() == 0 {
            0nat
        } else {
            (2 * items.len() - 1) as nat
        },
        |i: int|
            if i % 2 == 0 {
                items[i / 2]
            } else {
                separator
            },
    )
}

/// The end of a line.
pub open spec fn newline() -> Part {
    (FormatType::Whitespace, "\n"@)
}

/// A title on a line of its own.
pub open spec fn heading(title: Seq<char>) -> Seq<Part> {
    seq![(FormatType::Text, title), newline()]
}

/// One name on a line of its own, indented.
pub open spec fn line(kind: FormatType, name: Seq<char>) -> Seq<Part> {
    seq![(FormatType::Whitespace, "  "@), (kind, name), newline()]
}

/// Each of `names` on a line of its own.
pub open spec fn lines(kind: FormatType, names: Seq<Seq<char>>) -> Seq<Part>
    decreases names.len(),
{
    if names.len() == 0 {
        Seq::empty()
    } else {
        lines(kind, names.drop_last()) + line(kind, names.last())
    }
}

/// The names of a unit as pieces.
pub open spec fn unit_parts(names: Seq<Seq<char>>) -> Seq<Part> {
    Seq::new(names.len(), |i: int| (FormatType::Unit, names[i]))
}

/// The names of one unit on a line, indented, with commas between them.
pub open spec fn unit_line(names: Seq<Seq<char>>) -> Seq<Part> {
    seq![(FormatType::Whitespace, "  "@)] + interspersed(
        unit_parts(names),
        (FormatType::Text, ", "@),
    ) + seq![newline()]
}

/// Each group of unit names on a line of its own.
pub open spec fn unit_lines(groups: Seq<Seq<Seq<char>>>) -> Seq<Part>
    decreases groups.len(),
{
    if groups.len() == 0 {
        Seq::empty()
    } else {
        unit_lines(groups.drop_last()) + unit_line(groups.last())
    }
}

/// The listing of an environment: four titled lists, with an empty line
/// after each of the first three.
pub open spec fn environment(
    functions: Seq<Seq<char>>,
    dimensions: Seq<Seq<char>>,
    units: Seq<Seq<Seq<char>>>,
    variables: Seq<Seq<char>>,
) -> Seq<Part> {
    heading("List of functions:"@) + lines(FormatType::Identifier, functions) + seq![newline()]
        + heading("List of dimensions:"@) + lines(FormatType::TypeIdentifier, dimensions)
        + seq![newline()] + heading("List of units:"@) + unit_lines(units) + seq![newline()]
        + heading("List of variables:"@) + lines(FormatType::Identifier, variables)
}

/// Calls `intersperse` of the crate itertools on a list of pieces and
/// collects what it yields: the pieces in their order, with a copy of
/// `separator` between each two neighbours and none at either end.
#[verifier::external_body]
fn intersperse_parts(items: Vec<FormattedString>, separator: FormattedString) -> (r: Vec<
    FormattedString,
>)
    ensures
        parts(r@) == interspersed(parts(items@), (separator.0, separator.1@)),
{
    itertools::intersperse(items, separator).collect()
}

/// A piece of output.
fn piece(kind: FormatType, text: &str) -> (r: FormattedString)
    ensures
        r.0 == kind,
        r.1@ == text@,
{
    FormattedString(kind, text.to_owned())
}

/// Puts `more` at the end of `out`.
fn append_parts(out: &mut Vec<FormattedString>, more: Vec<FormattedString>)
    ensures
        parts(final(out)@) == parts(old(out)@) + parts(more@),
{
    let mut rest = more;
    let mut reversed: Vec<FormattedString> = Vec::new();
    while rest.len() > 0
        invariant
            rest@.len() + reversed@.len() == more@.len(),
            forall|i: int| 0 <= i < rest@.len() ==> rest@[i] == more@[i],
            forall|k: int|
                0 <= k < reversed@.len() ==> #[trigger] reversed@[k] == more@[more@.len() - 1 - k],
        decreases rest@.len(),
    {
        let last = rest.pop().unwrap();
        reversed.push(last);
    }
    assert(parts(out@) =~= parts(old(out)@) + parts(more@).subrange(0, 0));
    while reversed.len() > 0
        invariant
            reversed@.len() <= more@.len(),
            forall|k: int|
                0 <= k < reversed@.len() ==> #[trigger] reversed@[k] == more@[more@.len() - 1 - k],
            parts(out@) == parts(old(out)@) + parts(more@).subrange(
                0,
                more@.len() - reversed@.len(),
            ),
        decreases reversed@.len(),
    {
        let ghost done = more@.len() - reversed@.len();
        let ghost held = out@;
        let ghost stack = reversed@;
        let next = reversed.pop().unwrap();
        assert(next == stack[stack.len() - 1]);
        assert(next == more@[done]);
        assert(forall|k: int| 0 <= k < reversed@.len() ==> reversed@[k] == stack[k]);
        out.push(next);
        assert(parts(out@) =~= parts(held).push(parts(more@)[done]));
        assert(parts(out@) =~= parts(old(out)@) + parts(more@).subrange(0, done + 1));
    }
    assert(parts(more@).subrange(0, more@.len() as int) =~= parts(more@));
}

/// Puts each of `names` at the end of `out`, on a line of its own.
fn append_lines(out: &mut Vec<FormattedString>, kind: FormatType, names: &Vec<String>)
    ensures
        parts(final(out)@) == parts(old(out)@) + lines(kind, texts(names@)),
{
    let mut i: usize = 0;
    assert(texts(names@).subrange(0, 0) =~= Seq::<Seq<char>>::empty());
    assert(parts(out@) =~= parts(old(out)@) + lines(kind, texts(names@).subrange(0, 0)));
    while i < names.len()
        invariant
            i <= names.len(),
            parts(out@) == parts(old(out)@) + lines(kind, texts(names@).subrange(0, i as int)),
        decreases names.len() - i,
    {
        let ghost held = parts(out@);
        let ghost next = texts(names@).subrange(0, i + 1);
        assert(next.drop_last() =~= texts(names@).subrange(0, i as int));
        assert(next.last() == names@[i as int]@);
        let mut row: Vec<FormattedString> = Vec::new();
        row.push(piece(FormatType::Whitespace, "  "));
        row.push(piece(kind, names[i].as_str()));
        row.push(piece(FormatType::Whitespace, "\n"));
        assert(parts(row@) =~= line(kind, names@[i as int]@));
        append_parts(out, row);
        assert(parts(out@) =~= parts(old(out)@) + lines(kind, next));
        i += 1;
    }
    assert(texts(names@).subrange(0, i as int) =~= texts(names@));
}

/// Puts each group of `groups` at the end of `out`, on a line of its own.
fn append_unit_lines(out: &mut Vec<FormattedString>, groups: &Vec<Vec<String>>)
    ensures
        parts(final(out)@) == parts(old(out)@) + unit_lines(grouped_texts(groups@)),
{
    let mut g: usize = 0;
    assert(grouped_texts(groups@).subrange(0, 0) =~= Seq::<Seq<Seq<char>>>::empty());
    assert(parts(out@) =~= parts(old(out)@) + unit_lines(grouped_texts(groups@).subrange(0, 0)));
    while g < groups.len()
        invariant
            g <= groups.len(),
            parts(out@) == parts(old(out)@) + unit_lines(
                grouped_texts(groups@).subrange(0, g as int),
            ),
        decreases groups.len() - g,
    {
        let ghost next = grouped_texts(groups@).subrange(0, g + 1);
        assert(next.drop_last() =~= grouped_texts(groups@).subrange(0, g as int));
        assert(next.last() == texts(groups@[g as int]@));
        let names = &groups[g];
        let mut units: Vec<FormattedString> = Vec::new();
        let mut i: usize = 0;
        while i < names.len()
            invariant
                i <= names.len(),
                units@.len() == i,
                forall|j: int| 0 <= j < i ==> (#[trigger] units@[j]).0 == FormatType::Unit,
                forall|j: int| 0 <= j < i ==> (#[trigger] units@[j]).1@ == names@[j]@,
            decreases names.len() - i,
        {
            units.push(piece(FormatType::Unit, names[i].as_str()));
            i += 1;
        }
        assert(parts(units@) =~= unit_parts(texts(names@)));
        let between = intersperse_parts(units, piece(FormatType::Text, ", "));
        let ghost before = parts(out@);
        out.push(piece(FormatType::Whitespace, "  "));
        assert(parts(out@) =~= before + seq![(FormatType::Whitespace, "  "@)]);
        append_parts(out, between);
        let ghost middle = parts(out@);
        out.push(piece(FormatType::Whitespace, "\n"));
        assert(parts(out@) =~= middle + seq![newline()]);
        assert(parts(out@) =~= before + unit_line(texts(names@)));
        assert(parts(out@) =~= parts(old(out)@) + unit_lines(next));
        g += 1;
    }
    assert(grouped_texts(groups@).subrange(0, g as int) =~= grouped_texts(groups@));
}

/// Puts a title at the end of `out`, on a line of its own.
fn append_heading(out: &mut Vec<FormattedString>, title: &str)
    ensures
        parts(final(out)@) == parts(old(out)@) + heading(title@),
{
    let ghost held = parts(out@);
    out.push(piece(FormatType::Text, title));
    out.push(piece(FormatType::Whitespace, "\n"));
    assert(parts(out@) =~= held + heading(title@));
}

/// Puts the end of a line at the end of `out`.
fn append_newline(out: &mut Vec<FormattedString>)
    ensures
        parts(final(out)@) == parts(old(out)@) + seq![newline()],
{
    let ghost held = parts(out@);
    out.push(piece(FormatType::Whitespace, "\n"));
    assert(parts(out@) =~= held + seq![newline()]);
}

/// The listing of an environment: the functions, the dimensions, the
/// units (the names of each on one line, with commas between them) and the
/// variables, each list under its title and in the order given.
pub fn environment_markup(
    functions: &Vec<String>,
    dimensions: &Vec<String>,
    units: &Vec<Vec<String>>,
    variables: &Vec<String>,
) -> (r: Markup)
    ensures
        parts(r.0@) == environment(
            texts(functions@),
            texts(dimensions@),
            grouped_texts(units@),
            texts(variables@),
        ),
{
    let mut out: Vec<FormattedString> = Vec::new();
    assert(parts(out@) =~= Seq::<Part>::empty());
    append_heading(&mut out, "List of functions:");
    assert(parts(out@) =~= heading("List of functions:"@));
    append_lines(&mut out, FormatType::Identifier, functions);
    append_newline(&mut out);
    append_heading(&mut out, "List of dimensions:");
    append_lines(&mut out, FormatType::TypeIdentifier, dimensions);
    append_newline(&mut out);
    append_heading(&mut out, "List of units:");
    append_unit_lines(&mut out, units);
    append_newline(&mut out);
    append_heading(&mut out, "List of variables:");
    append_lines(&mut out, FormatType::Identifier, variables);
    Markup(out)
}

} // verus!
