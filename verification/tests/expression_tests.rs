use lyra::errors::CompileError;
use lyra::expression::{
    generate_args, generate_expression, generate_iterator, generate_params, to_operation_sign,
};
use lyra::tokens::{Keyword, Literal, SpecialCharacter, Token};

fn ident(name: &str) -> Token {
    Token::Identifier(name.to_string())
}

fn num(text: &str) -> Token {
    Token::Literal(Literal::Number(text.to_string()))
}

fn sp(c: SpecialCharacter) -> Token {
    Token::SpecialCharacter(c)
}

fn expr(tokens: Vec<Token>) -> Result<String, CompileError> {
    let n = tokens.len();
    generate_expression(&tokens, 0, n)
}

fn iter(tokens: Vec<Token>) -> Result<String, CompileError> {
    let n = tokens.len();
    generate_iterator(&tokens, 0, n)
}

#[test]
fn plain_identifier_is_kept() {
    assert_eq!(expr(vec![ident("foo")]).unwrap(), "foo");
}

#[test]
fn reserved_name_print_is_escaped() {
    // A user variable named like the print built-in gets a distinct
    // spelling, so both names stay resolvable.
    assert_eq!(expr(vec![ident("print")]).unwrap(), "_print");
}

#[test]
fn all_builtin_names_are_escaped() {
    for name in [
        "print", "type", "len", "exit", "null", "int", "float", "bool", "char", "string", "list",
    ] {
        let got = expr(vec![ident(name)]).unwrap();
        assert_eq!(got, format!("_{}", name));
    }
}

#[test]
fn number_literal_becomes_value() {
    assert_eq!(expr(vec![num("5")]).unwrap(), "Value(5)");
}

#[test]
fn number_literal_keeps_formatting() {
    assert_eq!(expr(vec![num("2.50")]).unwrap(), "Value(2.50)");
}

#[test]
fn string_literal_becomes_value() {
    let t = Token::Literal(Literal::Str("hi".to_string()));
    assert_eq!(expr(vec![t]).unwrap(), "Value(\"hi\")");
}

#[test]
fn character_literal_becomes_value() {
    let t = Token::Literal(Literal::Character("c".to_string()));
    assert_eq!(expr(vec![t]).unwrap(), "Value('c')");
}

#[test]
fn dot_access_becomes_method_table_lookup() {
    // The call-site half of dynamic dispatch: a dot is an indexed lookup
    // into the receiver's method table, not a static member access.
    let got = expr(vec![ident("a"), sp(SpecialCharacter::Dot), ident("size")]).unwrap();
    assert_eq!(got, "a[\"size\"]");
}

#[test]
fn dot_without_identifier_fails() {
    let r = expr(vec![ident("a"), sp(SpecialCharacter::Dot)]);
    assert!(matches!(r, Err(CompileError::UnexpectedTokenSequence)));
}

#[test]
fn braces_become_list_construction() {
    let got = expr(vec![
        sp(SpecialCharacter::OpenBrace),
        num("1"),
        sp(SpecialCharacter::Comma),
        num("2"),
        sp(SpecialCharacter::CloseBrace),
    ])
    .unwrap();
    assert_eq!(got, "Value(std::vector<Value>{Value(1), Value(2)})");
}

#[test]
fn boolean_keywords_and_operators() {
    let got = expr(vec![
        Token::Keyword(Keyword::True),
        Token::Keyword(Keyword::And),
        Token::Keyword(Keyword::Not),
        Token::Keyword(Keyword::False),
    ])
    .unwrap();
    assert_eq!(got, "Value(true)&&!Value(false)");
}

#[test]
fn statement_keyword_in_expression_fails() {
    let r = expr(vec![ident("a"), Token::Keyword(Keyword::Let)]);
    assert!(matches!(r, Err(CompileError::UnexpectedTokenSequence)));
}

#[test]
fn empty_expression_fails() {
    assert!(matches!(expr(vec![]), Err(CompileError::EmptyExpression)));
}

#[test]
fn comparison_and_arithmetic_operators() {
    let got = expr(vec![
        ident("a"),
        sp(SpecialCharacter::Plus),
        num("1"),
        sp(SpecialCharacter::SmallerThan),
        ident("b"),
        sp(SpecialCharacter::Percent),
        num("2"),
    ])
    .unwrap();
    assert_eq!(got, "a+Value(1)<b%Value(2)");
}

#[test]
fn range_with_open_start_defaults_to_zero() {
    let got = iter(vec![sp(SpecialCharacter::Dot), sp(SpecialCharacter::Dot), num("5")]).unwrap();
    assert_eq!(got, "Range(Value(0), Value(5))");
}

#[test]
fn range_with_open_end_defaults_to_max_int32() {
    let got = iter(vec![num("3"), sp(SpecialCharacter::Dot), sp(SpecialCharacter::Dot)]).unwrap();
    assert_eq!(got, "Range(Value(3), Value(2147483647))");
}

#[test]
fn range_with_both_bounds() {
    let got = iter(vec![
        num("2"),
        sp(SpecialCharacter::Dot),
        sp(SpecialCharacter::Dot),
        num("7"),
    ])
    .unwrap();
    assert_eq!(got, "Range(Value(2), Value(7))");
}

#[test]
fn iterator_without_range_is_plain_expression() {
    assert_eq!(iter(vec![ident("xs")]).unwrap(), "xs");
}

#[test]
fn empty_iterator_fails() {
    assert!(matches!(iter(vec![]), Err(CompileError::EmptyExpression)));
}

#[test]
fn params_declare_values() {
    let tokens = vec![ident("a"), sp(SpecialCharacter::Comma), ident("b")];
    let got = generate_params(&tokens, 0, 3).unwrap();
    assert_eq!(got, "Value a, Value b");
}

#[test]
fn empty_params_are_empty() {
    let tokens: Vec<Token> = vec![];
    assert_eq!(generate_params(&tokens, 0, 0).unwrap(), "");
}

#[test]
fn params_reject_leading_comma() {
    let tokens = vec![sp(SpecialCharacter::Comma), ident("a")];
    let r = generate_params(&tokens, 0, 2);
    assert!(matches!(r, Err(CompileError::UnexpectedTokenSequence)));
}

#[test]
fn args_forwarding_lists_each_argument_once() {
    assert_eq!(generate_args(0), "");
    assert_eq!(generate_args(1), "args[0]");
    assert_eq!(generate_args(3), "args[0], args[1], args[2]");
}

#[test]
fn args_forwarding_two_digit_indices() {
    let got = generate_args(11);
    assert!(got.ends_with("args[10]"));
    assert_eq!(got.matches("args[").count(), 11);
}

#[test]
fn operation_signs() {
    assert_eq!(to_operation_sign(&SpecialCharacter::Plus), "+");
    assert_eq!(to_operation_sign(&SpecialCharacter::Minus), "-");
    assert_eq!(to_operation_sign(&SpecialCharacter::Asterisk), "*");
    assert_eq!(to_operation_sign(&SpecialCharacter::Slash), "/");
}
