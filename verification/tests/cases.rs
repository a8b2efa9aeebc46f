use simple_test_case::syntax::{Attr, ExpandError, FnArg, Function, Lit, Param, Stmt, Token};
use simple_test_case::test_case;

fn ident(s: &str) -> Token {
    Token::Ident(s.to_string())
}

fn str_lit(s: &str) -> Token {
    Token::Lit(Lit::Str(s.to_string()))
}

fn int_lit(n: u64) -> Token {
    Token::Lit(Lit::Int(n))
}

fn bool_lit(b: bool) -> Token {
    Token::Lit(Lit::Bool(b))
}

fn param(pat: &str, ty: &str) -> FnArg {
    FnArg::Typed(Param {
        pat: vec![ident(pat)],
        ty: vec![ident(ty)],
        attrs: vec![],
        span: 0,
    })
}

fn test_attr() -> Attr {
    Attr { path: vec!["test".to_string()], args: vec![], span: 0 }
}

/// `args.., ; "name"` as a token stream, each argument a single token.
fn decl(args: Vec<Token>, name: &str) -> Vec<Token> {
    let mut toks = Vec::new();
    for (i, a) in args.into_iter().enumerate() {
        if i > 0 {
            toks.push(Token::Punct(','));
        }
        toks.push(a);
    }
    toks.push(Token::Punct(';'));
    toks.push(str_lit(name));
    toks
}

fn case_attr(args: Vec<Token>, name: &str, span: u32) -> Attr {
    Attr { path: vec!["test_case".to_string()], args: decl(args, name), span }
}

/// The three-parameter comparison function the stacked cases apply to.
fn simple_fn(output: Option<Vec<Token>>) -> Function {
    Function {
        attrs: vec![
            case_attr(vec![int_lit(100), int_lit(200), bool_lit(true)], "large and true", 2),
            case_attr(vec![int_lit(2), int_lit(1), bool_lit(false)], "small and false", 3),
            case_attr(vec![int_lit(200), int_lit(100), bool_lit(false)], "large and false", 4),
            test_attr(),
        ],
        is_async: false,
        name: "simple".to_string(),
        inputs: vec![param("a", "usize"), param("b", "usize"), param("a_less_b", "bool")],
        output,
        body: vec![Stmt::Verbatim(vec![ident("compare_a_and_b")])],
    }
}

/// Read the three bound values of one generated case back out of its body.
fn bound_values(f: &Function) -> (u64, u64, bool) {
    assert!(f.inputs.is_empty());
    let a = match &f.body[0] {
        Stmt::Binding { pat, ty, expr } => {
            assert_eq!(pat, &vec![ident("a")]);
            assert_eq!(ty, &vec![ident("usize")]);
            match &expr[0] {
                Token::Lit(Lit::Int(n)) => *n,
                other => panic!("expected an integer binding, got {:?}", other),
            }
        }
        other => panic!("expected a binding, got {:?}", other),
    };
    let b = match &f.body[1] {
        Stmt::Binding { expr, .. } => match &expr[0] {
            Token::Lit(Lit::Int(n)) => *n,
            other => panic!("expected an integer binding, got {:?}", other),
        },
        other => panic!("expected a binding, got {:?}", other),
    };
    let a_less_b = match &f.body[2] {
        Stmt::Binding { expr, .. } => match &expr[0] {
            Token::Lit(Lit::Bool(v)) => *v,
            other => panic!("expected a boolean binding, got {:?}", other),
        },
        other => panic!("expected a binding, got {:?}", other),
    };
    (a, b, a_less_b)
}

#[test]
fn simple() {
    let primary = decl(vec![int_lit(1), int_lit(2), bool_lit(true)], "small and true");
    let m = test_case(primary, 1, simple_fn(None)).unwrap();

    assert_eq!(m.name, "simple");
    assert_eq!(m.fns.len(), 4);
    let names: Vec<&str> = m.fns.iter().map(|f| f.name.as_str()).collect();
    assert_eq!(
        names,
        vec!["small_and_true", "large_and_true", "small_and_false", "large_and_false"]
    );

    for f in &m.fns {
        assert_eq!(f.attrs, vec![test_attr()]);
        assert!(!f.is_async);
        assert_eq!(f.body.len(), 4);
        assert_eq!(f.body[3], Stmt::Verbatim(vec![ident("compare_a_and_b")]));
        let (a, b, a_less_b) = bound_values(f);
        if a_less_b {
            assert!(a < b);
        } else {
            assert!(!(a < b));
        }
    }
}

const FAIL_RESULT_TEST: bool = false;

#[test]
fn returning_a_result() {
    let output = Some(vec![
        ident("Result"),
        Token::Punct('<'),
        ident("u32"),
        Token::Punct(','),
        ident("u32"),
        Token::Punct('>'),
    ]);
    let primary = decl(vec![int_lit(1), int_lit(2), bool_lit(true)], "small and true");
    let m = test_case(primary, 1, simple_fn(output.clone())).unwrap();

    assert_eq!(m.fns.len(), 4);
    for f in &m.fns {
        // the return type is carried through unchanged
        assert_eq!(f.output, output);
        let (a, b, a_less_b) = bound_values(f);
        if a_less_b {
            assert!(a < b);
        } else {
            assert!(!(a < b));
        }
        let r: Result<(), ()> = if FAIL_RESULT_TEST { Err(()) } else { Ok(()) };
        assert_eq!(r, Ok(()));
    }
}

#[test]
fn two_cases_give_two_zero_parameter_functions() {
    let f = Function {
        attrs: vec![
            case_attr(vec![int_lit(100), int_lit(200)], "large example", 2),
            test_attr(),
        ],
        is_async: false,
        name: "example".to_string(),
        inputs: vec![param("a", "usize"), param("b", "usize")],
        output: None,
        body: vec![Stmt::Verbatim(vec![ident("assert_a_less_b")])],
    };
    let primary = decl(vec![int_lit(1), int_lit(2)], "small example");
    let m = test_case(primary, 1, f).unwrap();

    assert_eq!(m.name, "example");
    assert_eq!(m.fns.len(), 2);

    assert_eq!(m.fns[0].name, "small_example");
    assert!(m.fns[0].inputs.is_empty());
    assert_eq!(
        m.fns[0].body,
        vec![
            Stmt::Binding {
                pat: vec![ident("a")],
                ty: vec![ident("usize")],
                expr: vec![int_lit(1)],
            },
            Stmt::Binding {
                pat: vec![ident("b")],
                ty: vec![ident("usize")],
                expr: vec![int_lit(2)],
            },
            Stmt::Verbatim(vec![ident("assert_a_less_b")]),
        ]
    );

    assert_eq!(m.fns[1].name, "large_example");
    assert!(m.fns[1].inputs.is_empty());
    assert_eq!(
        m.fns[1].body,
        vec![
            Stmt::Binding {
                pat: vec![ident("a")],
                ty: vec![ident("usize")],
                expr: vec![int_lit(100)],
            },
            Stmt::Binding {
                pat: vec![ident("b")],
                ty: vec![ident("usize")],
                expr: vec![int_lit(200)],
            },
            Stmt::Verbatim(vec![ident("assert_a_less_b")]),
        ]
    );
}

fn two_param_fn(attrs: Vec<Attr>) -> Function {
    Function {
        attrs,
        is_async: false,
        name: "f".to_string(),
        inputs: vec![param("a", "usize"), param("b", "usize")],
        output: None,
        body: vec![],
    }
}

#[test]
fn three_arguments_on_a_two_parameter_function_is_an_arity_error() {
    let primary = decl(vec![int_lit(1), int_lit(2), int_lit(3)], "too many");
    let r = test_case(primary, 11, two_param_fn(vec![test_attr()]));
    assert_eq!(r, Err(ExpandError::Arity(11)));
}

#[test]
fn arity_error_points_at_the_offending_case() {
    // the primary case is fine; the stacked one has too few arguments
    let bad = case_attr(vec![int_lit(1)], "too few", 42);
    let primary = decl(vec![int_lit(1), int_lit(2)], "fine");
    let r = test_case(primary, 11, two_param_fn(vec![bad, test_attr()]));
    assert_eq!(r, Err(ExpandError::Arity(42)));
}

#[test]
fn receiver_parameter_is_rejected() {
    let f = Function {
        attrs: vec![test_attr()],
        is_async: false,
        name: "f".to_string(),
        inputs: vec![FnArg::Receiver(5), param("b", "usize")],
        output: None,
        body: vec![],
    };
    let primary = decl(vec![int_lit(1), int_lit(2)], "case");
    assert_eq!(test_case(primary, 1, f), Err(ExpandError::ReceiverNotAllowed(5)));
}

#[test]
fn parameter_attributes_are_rejected() {
    let f = Function {
        attrs: vec![test_attr()],
        is_async: false,
        name: "f".to_string(),
        inputs: vec![FnArg::Typed(Param {
            pat: vec![ident("a")],
            ty: vec![ident("usize")],
            attrs: vec![test_attr()],
            span: 6,
        })],
        output: None,
        body: vec![],
    };
    let primary = decl(vec![int_lit(1)], "case");
    assert_eq!(test_case(primary, 1, f), Err(ExpandError::UnsupportedAttribute(6)));
}

#[test]
fn malformed_stacked_declaration_is_a_parse_error() {
    // missing `; "name"` in the stacked attribute
    let bad = Attr { path: vec!["test_case".to_string()], args: vec![int_lit(1)], span: 33 };
    let primary = decl(vec![int_lit(1), int_lit(2)], "fine");
    let r = test_case(primary, 11, two_param_fn(vec![bad]));
    assert_eq!(r, Err(ExpandError::Parse(33)));
}

#[test]
fn attributes_other_than_case_declarations_pass_through() {
    let panic_attr = Attr {
        path: vec!["should_panic".to_string()],
        args: vec![ident("expected"), Token::Punct('='), str_lit("this works")],
        span: 9,
    };
    let qualified = Attr {
        path: vec!["simple_test_case".to_string(), "test_case".to_string()],
        args: decl(vec![int_lit(3), int_lit(4)], "second"),
        span: 2,
    };
    let f = two_param_fn(vec![qualified, test_attr(), panic_attr.clone()]);
    let primary = decl(vec![int_lit(1), int_lit(2)], "first");
    let m = test_case(primary, 1, f).unwrap();

    // both spellings of the declaration are collected, and stripped
    assert_eq!(m.fns.len(), 2);
    let names: Vec<&str> = m.fns.iter().map(|f| f.name.as_str()).collect();
    assert_eq!(names, vec!["first", "second"]);
    for f in &m.fns {
        assert_eq!(f.attrs, vec![test_attr(), panic_attr.clone()]);
    }
}

#[test]
fn async_marker_passes_through() {
    let mut f = two_param_fn(vec![test_attr()]);
    f.is_async = true;
    let primary = decl(vec![int_lit(1), int_lit(2)], "case");
    let m = test_case(primary, 1, f).unwrap();
    assert!(m.fns[0].is_async);
}
