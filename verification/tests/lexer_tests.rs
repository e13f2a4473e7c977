use lyra::errors::CompileError;
use lyra::lexer::get_tokens;
use lyra::tokens::{Keyword, Literal, SpecialCharacter, Token};

fn tokens_of(line: &str) -> (Vec<Token>, usize) {
    get_tokens(line).expect("line should lex")
}

#[test]
fn lexes_let_binding() {
    let (toks, depth) = tokens_of("let x = 5");
    assert_eq!(depth, 0);
    assert_eq!(toks.len(), 4);
    assert!(matches!(toks[0], Token::Keyword(Keyword::Let)));
    if let Token::Identifier(name) = &toks[1] {
        assert_eq!(name, "x");
    } else {
        panic!("expected an identifier");
    }
    assert!(matches!(
        toks[2],
        Token::SpecialCharacter(SpecialCharacter::Equals)
    ));
    if let Token::Literal(Literal::Number(n)) = &toks[3] {
        assert_eq!(n, "5");
    } else {
        panic!("expected a number literal");
    }
}

#[test]
fn tab_counts_one_depth_unit() {
    let (_, depth) = tokens_of("\tfoo = 1");
    assert_eq!(depth, 1);
}

#[test]
fn four_spaces_count_one_depth_unit() {
    let (_, depth) = tokens_of("    foo = 1");
    assert_eq!(depth, 1);
}

#[test]
fn mixed_indentation_counts_total_columns() {
    // Two spaces, a tab and two more spaces make eight columns: depth 2.
    let (_, depth) = tokens_of("  \t  foo = 1");
    assert_eq!(depth, 2);
}

#[test]
fn comment_only_line_has_no_tokens() {
    let (toks, _) = tokens_of("# nothing here");
    assert!(toks.is_empty());
}

#[test]
fn comment_discards_rest_of_line() {
    let (toks, _) = tokens_of("break # stop here");
    assert_eq!(toks.len(), 1);
    assert!(matches!(toks[0], Token::Keyword(Keyword::Break)));
}

#[test]
fn string_literal_keeps_characters() {
    let (toks, _) = tokens_of("\"a b\"");
    assert_eq!(toks.len(), 1);
    if let Token::Literal(Literal::Str(s)) = &toks[0] {
        assert_eq!(s, "a b");
    } else {
        panic!("expected a string literal");
    }
}

#[test]
fn backslash_escapes_following_quote() {
    let (toks, _) = tokens_of("\"a\\\"b\"");
    if let Token::Literal(Literal::Str(s)) = &toks[0] {
        assert_eq!(s, "a\"b");
    } else {
        panic!("expected a string literal");
    }
}

#[test]
fn character_literal_single_char() {
    let (toks, _) = tokens_of("'a'");
    if let Token::Literal(Literal::Character(c)) = &toks[0] {
        assert_eq!(c, "a");
    } else {
        panic!("expected a character literal");
    }
}

#[test]
fn character_literal_newline_escape() {
    let (toks, _) = tokens_of("'\\n'");
    if let Token::Literal(Literal::Character(c)) = &toks[0] {
        assert_eq!(c, "\n");
    } else {
        panic!("expected a character literal");
    }
}

#[test]
fn number_with_decimal_point() {
    let (toks, _) = tokens_of("3.14");
    if let Token::Literal(Literal::Number(n)) = &toks[0] {
        assert_eq!(n, "3.14");
    } else {
        panic!("expected a number literal");
    }
}

#[test]
fn number_keeps_original_spelling() {
    let (toks, _) = tokens_of("007");
    if let Token::Literal(Literal::Number(n)) = &toks[0] {
        assert_eq!(n, "007");
    } else {
        panic!("expected a number literal");
    }
}

#[test]
fn identifier_with_digits_and_underscore() {
    let (toks, _) = tokens_of("x_2");
    if let Token::Identifier(name) = &toks[0] {
        assert_eq!(name, "x_2");
    } else {
        panic!("expected an identifier");
    }
}

#[test]
fn all_keywords_lex_as_keywords() {
    let line = "let const method return import if else loop in true false null break continue and or not";
    let (toks, _) = tokens_of(line);
    assert_eq!(toks.len(), 17);
    for t in &toks {
        assert!(matches!(t, Token::Keyword(_)));
    }
}

#[test]
fn unterminated_string_fails() {
    assert!(matches!(
        get_tokens("\"abc"),
        Err(CompileError::UnterminatedStringLiteral)
    ));
}

#[test]
fn unterminated_character_fails() {
    assert!(matches!(
        get_tokens("'a"),
        Err(CompileError::UnterminatedCharacterLiteral)
    ));
}

#[test]
fn invalid_escape_fails() {
    assert!(matches!(
        get_tokens("'\\x'"),
        Err(CompileError::InvalidEscapeSequence)
    ));
}

#[test]
fn unexpected_token_fails() {
    assert!(matches!(get_tokens("a@b"), Err(CompileError::UnexpectedToken)));
}

#[test]
fn range_with_spaces_lexes_two_dots() {
    let (toks, _) = tokens_of("3 .. 10");
    assert_eq!(toks.len(), 4);
    assert!(matches!(
        toks[1],
        Token::SpecialCharacter(SpecialCharacter::Dot)
    ));
    assert!(matches!(
        toks[2],
        Token::SpecialCharacter(SpecialCharacter::Dot)
    ));
}

#[test]
fn special_characters_lex_individually() {
    let (toks, _) = tokens_of("( ) [ ] { } + - * / % > < = ! . : ,");
    assert_eq!(toks.len(), 18);
    for t in &toks {
        assert!(matches!(t, Token::SpecialCharacter(_)));
    }
}

#[test]
fn word_parsing_as_float_is_a_number() {
    // The number check follows the standard library's float grammar, so
    // exponent forms count as numbers and keep their spelling.
    let (toks, _) = tokens_of("1e5");
    if let Token::Literal(Literal::Number(n)) = &toks[0] {
        assert_eq!(n, "1e5");
    } else {
        panic!("expected a number literal");
    }
}

#[test]
fn word_with_two_points_is_rejected() {
    // The second point does not join the number: it lexes as a special
    // character, and what follows it must stand on its own.
    let (toks, _) = tokens_of("1.2 . x");
    assert_eq!(toks.len(), 3);
    assert!(matches!(toks[1], Token::SpecialCharacter(SpecialCharacter::Dot)));
}

#[test]
fn comment_sign_ends_a_word() {
    // Outside string and character literals a comment sign starts a
    // comment, even straight after a word.
    let (toks, _) = tokens_of("a#b");
    assert_eq!(toks.len(), 1);
    if let Token::Identifier(name) = &toks[0] {
        assert_eq!(name, "a");
    } else {
        panic!("expected an identifier");
    }
}

#[test]
fn quote_character_literal_holds_a_quote() {
    let (toks, _) = tokens_of("'''");
    if let Token::Literal(Literal::Character(c)) = &toks[0] {
        assert_eq!(c, "'");
    } else {
        panic!("expected a character literal");
    }
}
