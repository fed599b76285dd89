use vstd::prelude::*;
use vstd::string::*;

verus! {

/// The kinds of tokens that the formatter tells apart; every other kind is
/// `Other`.
#[derive(Clone, Copy, Debug, PartialEq, Eq, Structural)]
pub enum TokenKind {
    Plus,
    Minus,
    Multiply,
    Power,
    Divide,
    Per,
    Equal,
    Identifier,
    Arrow,
    Comma,
    Fn,
    Colon,
    LeftParen,
    RightParen,
    Newline,
    Other,
}

/// A token: its kind, and its text.
#[derive(Debug)]
pub struct Token {
    pub kind: TokenKind,
    pub lexeme: String,
}

/// The kinds that are written with a blank on either side.
pub open spec fn spaced(kind: TokenKind) -> bool {
    kind is Plus || kind is Minus || kind is Multiply || kind is Power || kind is Divide
        || kind is Per || kind is Equal || kind is Identifier || kind is Arrow
}

/// The kinds that are written with a blank after them.
pub open spec fn followed(kind: TokenKind) -> bool {
    kind is Comma || kind is Fn || kind is Colon
}

/// `text` without the blanks at its end.
pub open spec fn trimmed(text: Seq<char>) -> Seq<char>
    decreases text.len(),
{
    if text.len() > 0 && text.last() == ' ' {
        trimmed(text.drop_last())
    } else {
        text
    }
}

/// Whether `text` ends in `c`.
pub open spec fn ends_in(text: Seq<char>, c: char) -> bool {
    text.len() > 0 && text.last() == c
}

/// The output after one more token. An operator or identifier stands
/// between blanks, without a second blank after a blank or an opening
/// bracket; a comma, `fn` or a colon is followed by a blank; a bracket
/// and the end of a line take the blanks before them away; a line that
/// ends in `=` is followed by an indented one.
pub open spec fn written(output: Seq<char>, kind: TokenKind, lexeme: Seq<char>) -> Seq<char> {
    if spaced(kind) {
        if ends_in(output, ' ') || ends_in(output, '(') {
            output + lexeme + seq![' ']
        } else {
            output + seq![' '] + lexeme + seq![' ']
        }
    } else if followed(kind) {
        output + lexeme + seq![' ']
    } else if kind is LeftParen || kind is RightParen {
        trimmed(output) + lexeme
    } else if kind is Newline {
        if ends_in(trimmed(output), '=') {
            trimmed(output) + seq!['\n'] + seq![' ', ' ', ' ', ' ']
        } else {
            trimmed(output) + seq!['\n']
        }
    } else {
        output + lexeme
    }
}

/// The formatted text of a sequence of tokens.
pub open spec fn formatted(tokens: Seq<Token>) -> Seq<char>
    decreases tokens.len(),
{
    if tokens.len() == 0 {
        Seq::empty()
    } else {
        written(formatted(tokens.drop_last()), tokens.last().kind, tokens.last().lexeme@)
    }
}

/// Whether `text` ends in `c`.
fn ends_with_char(text: &String, c: char) -> (r: bool)
    ensures
        r == ends_in(text@, c),
{
    let n: usize = text.as_str().unicode_len();
    n > 0 && text.as_str().get_char(n - 1) == c
}

/// Takes the blanks at the end of `text` away.
fn trim_end(text: &mut String)
    ensures
        final(text)@ == trimmed(old(text)@),
{
    let mut n: usize = text.as_str().unicode_len();
    assert(text@.subrange(0, n as int) =~= text@);
    while n > 0 && text.as_str().get_char(n - 1) == ' '
        invariant
            n <= text@.len(),
            text@ == old(text)@,
            trimmed(text@) == trimmed(text@.subrange(0, n as int)),
        decreases n,
    {
        assert(text@.subrange(0, n as int).drop_last() =~= text@.subrange(0, n - 1));
        n -= 1;
    }
    let kept = text.as_str().substring_char(0, n).to_owned();
    *text = kept;
}

/// Formats a sequence of tokens.
pub fn run_formatter(tokens: &Vec<Token>) -> (r: String)
    ensures
        r@ == formatted(tokens@),
{
    let mut ret = String::new();
    let mut i: usize = 0;
    assert(tokens@.subrange(0, 0) =~= Seq::<Token>::empty());
    while i < tokens.len()
        invariant
            i <= tokens.len(),
            ret@ == formatted(tokens@.subrange(0, i as int)),
        decreases tokens.len() - i,
    {
        proof {
            let next = tokens@.subrange(0, i + 1);
            assert(next.drop_last() =~= tokens@.subrange(0, i as int));
            assert(next.last() == tokens@[i as int]);
            reveal_strlit(" ");
            reveal_strlit("\n");
            reveal_strlit("    ");
            assert(" "@ =~= seq![' ']);
            assert("\n"@ =~= seq!['\n']);
            assert("    "@ =~= seq![' ', ' ', ' ', ' ']);
        }
        let token = &tokens[i];
        match token.kind {
            TokenKind::Plus
            | TokenKind::Minus
            | TokenKind::Multiply
            | TokenKind::Power
            | TokenKind::Divide
            | TokenKind::Per
            | TokenKind::Equal
            | TokenKind::Identifier
            | TokenKind::Arrow => {
                if !(ends_with_char(&ret, ' ') || ends_with_char(&ret, '(')) {
                    ret.append(" ");
                }
                ret.append(token.lexeme.as_str());
                ret.append(" ");
            },
            TokenKind::Comma | TokenKind::Fn | TokenKind::Colon => {
                ret.append(token.lexeme.as_str());
                ret.append(" ");
            },
            TokenKind::LeftParen | TokenKind::RightParen => {
                trim_end(&mut ret);
                ret.append(token.lexeme.as_str());
            },
            TokenKind::Newline => {
                trim_end(&mut ret);
                if ends_with_char(&ret, '=') {
                    ret.append("\n");
                    ret.append("    ");
                } else {
                    ret.append("\n");
                }
            },
            TokenKind::Other => {
                ret.append(token.lexeme.as_str());
            },
        }
        i += 1;
    }
    assert(tokens@.subrange(0, i as int) =~= tokens@);
    ret
}

} // verus!
