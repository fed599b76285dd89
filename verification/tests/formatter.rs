use numbat::formatter::{run_formatter, Token, TokenKind};

fn tokens(list: &[(TokenKind, &str)]) -> Vec<Token> {
    list.iter().map(|(kind, lexeme)| Token { kind: *kind, lexeme: lexeme.to_string() }).collect()
}

#[test]
fn nothing_formats_to_nothing() {
    assert_eq!(run_formatter(&vec![]), "");
}

#[test]
fn a_function_definition_over_two_lines() {
    let input = tokens(&[
        (TokenKind::Fn, "fn"),
        (TokenKind::Identifier, "f"),
        (TokenKind::LeftParen, "("),
        (TokenKind::Identifier, "x"),
        (TokenKind::RightParen, ")"),
        (TokenKind::Equal, "="),
        (TokenKind::Newline, "\n"),
        (TokenKind::Identifier, "x"),
        (TokenKind::Plus, "+"),
        (TokenKind::Other, "1"),
    ]);
    assert_eq!(run_formatter(&input), "fn f(x) =\n    x + 1");
}

#[test]
fn an_operator_at_the_start_gets_a_blank_before_it() {
    let input = tokens(&[(TokenKind::Minus, "-"), (TokenKind::Other, "2")]);
    assert_eq!(run_formatter(&input), " - 2");
}

#[test]
fn commas_and_colons_are_followed_by_a_blank() {
    let input = tokens(&[
        (TokenKind::Identifier, "f"),
        (TokenKind::LeftParen, "("),
        (TokenKind::Identifier, "a"),
        (TokenKind::Comma, ","),
        (TokenKind::Identifier, "b"),
        (TokenKind::Colon, ":"),
        (TokenKind::Other, "L"),
        (TokenKind::RightParen, ")"),
    ]);
    assert_eq!(run_formatter(&input), " f(a , b : L)");
}

#[test]
fn the_end_of_a_line_takes_blanks_away() {
    let input = tokens(&[
        (TokenKind::Identifier, "a"),
        (TokenKind::Newline, "\n"),
        (TokenKind::Newline, "\n"),
        (TokenKind::Other, "1"),
        (TokenKind::Arrow, "->"),
        (TokenKind::Other, "m"),
    ]);
    assert_eq!(run_formatter(&input), " a\n\n1 -> m");
}

#[test]
fn every_operator_is_spaced() {
    for (kind, lexeme) in [
        (TokenKind::Multiply, "*"),
        (TokenKind::Power, "^"),
        (TokenKind::Divide, "/"),
        (TokenKind::Per, "per"),
    ] {
        let input = tokens(&[(TokenKind::Other, "1"), (kind, lexeme), (TokenKind::Other, "2")]);
        assert_eq!(run_formatter(&input), format!("1 {} 2", lexeme));
    }
}
