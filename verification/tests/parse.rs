use simple_test_case::syntax::{ExpandError, Lit, Token};
use simple_test_case::test_case::TestCase;

fn str_lit(s: &str) -> Token {
    Token::Lit(Lit::Str(s.to_string()))
}

fn int_lit(n: u64) -> Token {
    Token::Lit(Lit::Int(n))
}

fn bool_lit(b: bool) -> Token {
    Token::Lit(Lit::Bool(b))
}

// `"this", 1, true; "name here"`
fn declaration_tokens() -> Vec<Token> {
    vec![
        str_lit("this"),
        Token::Punct(','),
        int_lit(1),
        Token::Punct(','),
        bool_lit(true),
        Token::Punct(';'),
        str_lit("name here"),
    ]
}

#[test]
fn lib_parse_test_case() {
    let input = declaration_tokens();

    let parsed: TestCase = TestCase::parse(&input, 0).unwrap();

    match &parsed.args[0][0] {
        Token::Lit(Lit::Str(s)) => assert_eq!(s, "this"),
        other => panic!("expected LitStr, got {:?}", other),
    }

    match &parsed.args[1][0] {
        Token::Lit(Lit::Int(n)) => assert_eq!(*n, 1),
        other => panic!("expected LitInt, got {:?}", other),
    }

    match &parsed.args[2][0] {
        Token::Lit(Lit::Bool(b)) => assert!(*b),
        other => panic!("expected LitBool, got {:?}", other),
    }

    assert_eq!(parsed.name, "name here");
}

#[test]
fn test_case_parse_test_case() {
    let input = declaration_tokens();

    let parsed: TestCase = TestCase::parse(&input, 0).unwrap();

    match &parsed.args[0][0] {
        Token::Lit(Lit::Str(s)) => assert_eq!(s, "this"),
        other => panic!("expected LitStr, got {:?}", other),
    }

    match &parsed.args[1][0] {
        Token::Lit(Lit::Int(n)) => assert_eq!(*n, 1),
        other => panic!("expected LitInt, got {:?}", other),
    }

    match &parsed.args[2][0] {
        Token::Lit(Lit::Bool(b)) => assert!(*b),
        other => panic!("expected LitBool, got {:?}", other),
    }

    assert_eq!(parsed.name, "name here");
}

#[test]
fn multi_token_arguments_are_kept_whole() {
    // `a + b, 2; "sum"` has one two-or-more-token argument
    let input = vec![
        Token::Ident("a".to_string()),
        Token::Punct('+'),
        Token::Ident("b".to_string()),
        Token::Punct(','),
        int_lit(2),
        Token::Punct(';'),
        str_lit("sum"),
    ];
    let parsed = TestCase::parse(&input, 3).unwrap();
    assert_eq!(parsed.args.len(), 2);
    assert_eq!(parsed.args[0].len(), 3);
    assert_eq!(parsed.args[1], vec![int_lit(2)]);
    assert_eq!(parsed.name, "sum");
    assert_eq!(parsed.span, 3);
}

#[test]
fn missing_semicolon_is_a_parse_error() {
    let input = vec![int_lit(1), Token::Punct(','), int_lit(2)];
    assert_eq!(TestCase::parse(&input, 7), Err(ExpandError::Parse(7)));
}

#[test]
fn missing_name_is_a_parse_error() {
    let input = vec![int_lit(1), Token::Punct(';')];
    assert_eq!(TestCase::parse(&input, 7), Err(ExpandError::Parse(7)));
}

#[test]
fn non_string_name_is_a_parse_error() {
    let input = vec![int_lit(1), Token::Punct(';'), int_lit(2)];
    assert_eq!(TestCase::parse(&input, 7), Err(ExpandError::Parse(7)));
}

#[test]
fn empty_argument_list_is_a_parse_error() {
    let input = vec![Token::Punct(';'), str_lit("no args")];
    assert_eq!(TestCase::parse(&input, 7), Err(ExpandError::Parse(7)));
}

#[test]
fn empty_argument_between_commas_is_a_parse_error() {
    let input = vec![int_lit(1), Token::Punct(','), Token::Punct(','), int_lit(2), Token::Punct(
        ';',
    ), str_lit("gap")];
    assert_eq!(TestCase::parse(&input, 7), Err(ExpandError::Parse(7)));
}

#[test]
fn tokens_after_the_name_are_a_parse_error() {
    let input = vec![int_lit(1), Token::Punct(';'), str_lit("x"), int_lit(9)];
    assert_eq!(TestCase::parse(&input, 7), Err(ExpandError::Parse(7)));
}

#[test]
fn empty_declaration_is_a_parse_error() {
    let input: Vec<Token> = vec![];
    assert_eq!(TestCase::parse(&input, 7), Err(ExpandError::Parse(7)));
}
