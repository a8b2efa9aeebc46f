//! The case-resolution core: parsing case declarations, collecting the
//! declarations stacked below the primary one, and resolving each case
//! against the annotated function.

use vstd::prelude::*;
use vstd::string::*;
use crate::syntax::{
    Attr, AttrView, ExpandError, FnArg, FnArgView, Function, FunctionView, Lit, LitView,
    ParamView, Span, Stmt, StmtView, TokView, Token, clone_attr, clone_token, clone_tokens,
};
use crate::util::{slug_of, slugify_path};

verus! {

/// One test case declaration: the argument expressions (each an opaque token
/// run), the display name, and where the declaration stands in the source.
#[derive(Debug, Clone, PartialEq, Eq)]
pub struct TestCase {
    pub args: Vec<Vec<Token>>,
    pub name: String,
    pub span: Span,
}

#[verifier::ext_equal]
pub struct TestCaseView {
    pub args: Seq<Seq<TokView>>,
    pub name: Seq<char>,
    pub span: Span,
}

impl View for TestCase {
    type V = TestCaseView;

    open spec fn view(&self) -> TestCaseView {
        TestCaseView { args: self.args.deep_view(), name: self.name@, span: self.span }
    }
}

impl DeepView for TestCase {
    type V = TestCaseView;

    open spec fn deep_view(&self) -> TestCaseView {
        self.view()
    }
}

// --- the declaration grammar, mathematically ----------------------------

pub open spec fn is_comma(t: TokView) -> bool {
    t == TokView::Punct(',')
}

pub open spec fn is_semi(t: TokView) -> bool {
    t == TokView::Punct(';')
}

pub open spec fn is_str_lit(t: TokView) -> bool {
    t is Lit && t->Lit_0 is Str
}

pub open spec fn str_lit_value(t: TokView) -> Seq<char> {
    t->Lit_0->Str_0
}

/// The argument tokens of a declaration: everything before the closing
/// `; "name"`.
pub open spec fn args_region(s: Seq<TokView>) -> Seq<TokView> {
    s.subrange(0, s.len() - 2)
}

/// A well-formed comma-separated argument region: non-empty, no semicolon,
/// and commas only strictly between argument tokens.
pub open spec fn valid_args_region(s: Seq<TokView>) -> bool {
    &&& s.len() > 0
    &&& !is_comma(s[0])
    &&& !is_comma(s[s.len() - 1])
    &&& (forall|i: int| 0 <= i < s.len() ==> !is_semi(#[trigger] s[i]))
    &&& (forall|i: int| 0 <= i && i + 1 < s.len() ==> !(is_comma(#[trigger] s[i]) && is_comma(s[i + 1])))
}

/// The declaration grammar `expr (',' expr)* ';' string_literal`, read off a
/// token sequence: a comma-separated argument region, one semicolon, and a
/// final string literal carrying the display name.
pub open spec fn wf_case_tokens(s: Seq<TokView>) -> bool {
    &&& s.len() >= 3
    &&& is_semi(s[s.len() - 2])
    &&& is_str_lit(s[s.len() - 1])
    &&& valid_args_region(args_region(s))
}

/// One parsed argument: a non-empty token run free of top-level commas and
/// semicolons.
pub open spec fn valid_arg(a: Seq<TokView>) -> bool {
    a.len() > 0 && (forall|i: int| 0 <= i < a.len() ==> !is_comma(#[trigger] a[i]) && !is_semi(a[i]))
}

/// The token text an argument list came from: the arguments joined by
/// commas.
pub open spec fn join_args(args: Seq<Seq<TokView>>) -> Seq<TokView>
    decreases args.len(),
{
    if args.len() == 0 {
        Seq::empty()
    } else if args.len() == 1 {
        args[0]
    } else {
        join_args(args.drop_last()).push(TokView::Punct(',')) + args.last()
    }
}

/// The display name a well-formed declaration carries.
pub open spec fn case_name(s: Seq<TokView>) -> Seq<char> {
    str_lit_value(s[s.len() - 1])
}

/// How a parsed case relates to the declaration tokens it came from: the
/// name and origin are the declaration's, and the arguments are exactly the
/// comma-separated runs of the argument region.
pub open spec fn case_from_tokens(c: TestCaseView, s: Seq<TokView>, span: Span) -> bool {
    &&& c.span == span
    &&& c.name == case_name(s)
    &&& c.args.len() >= 1
    &&& (forall|i: int| 0 <= i < c.args.len() ==> valid_arg(#[trigger] c.args[i]))
    &&& join_args(c.args) == args_region(s)
}

proof fn lemma_join_push_token(args: Seq<Seq<TokView>>, cur: Seq<TokView>, t: TokView)
    ensures
        join_args(args.push(cur.push(t))) == join_args(args.push(cur)).push(t),
{
    if args.len() == 0 {
        assert(join_args(args.push(cur.push(t))) == cur.push(t));
        assert(join_args(args.push(cur)) == cur);
    } else {
        assert(args.push(cur.push(t)).drop_last() =~= args);
        assert(args.push(cur).drop_last() =~= args);
        assert(join_args(args.push(cur.push(t))) == join_args(args).push(TokView::Punct(','))
            + cur.push(t));
        assert(join_args(args.push(cur)) == join_args(args).push(TokView::Punct(',')) + cur);
        assert(join_args(args).push(TokView::Punct(',')) + cur.push(t) =~= (join_args(args).push(
            TokView::Punct(','),
        ) + cur).push(t));
    }
}

proof fn lemma_join_start_arg(args: Seq<Seq<TokView>>, t: TokView)
    requires
        args.len() > 0,
    ensures
        join_args(args.push(seq![t])) == join_args(args).push(TokView::Punct(',')).push(t),
{
    assert(args.push(seq![t]).drop_last() =~= args);
    assert(join_args(args.push(seq![t])) == join_args(args).push(TokView::Punct(',')) + seq![t]);
    assert(join_args(args).push(TokView::Punct(',')) + seq![t] =~= join_args(args).push(
        TokView::Punct(','),
    ).push(t));
}

impl TestCase {
    /// Parse one case declaration's tokens, `expr (',' expr)* ';' "name"`.
    /// Succeeds exactly on well-formed declarations; `span` is the
    /// declaration's own location, used for the error and kept as the case's
    /// origin.
    pub fn parse(tokens: &Vec<Token>, span: Span) -> (r: Result<TestCase, ExpandError>)
        ensures
            match r {
                Ok(tc) => wf_case_tokens(tokens.deep_view()) && case_from_tokens(
                    tc@,
                    tokens.deep_view(),
                    span,
                ),
                Err(e) => !wf_case_tokens(tokens.deep_view()) && e == ExpandError::Parse(span),
            },
    {
        let ghost s = tokens.deep_view();
        let n = tokens.len();
        let mut args: Vec<Vec<Token>> = Vec::new();
        let mut cur: Vec<Token> = Vec::new();
        let mut i: usize = 0;
        while i < n
            invariant
                s == tokens.deep_view(),
                n == s.len(),
                i <= n,
                forall|k: int| 0 <= k < i as int ==> !is_semi(#[trigger] s[k]),
                i as int > 0 ==> !is_comma(s[0]),
                forall|k: int|
                    0 <= k && k + 1 < i as int ==> !(is_comma(#[trigger] s[k]) && is_comma(
                        s[k + 1],
                    )),
                forall|k: int|
                    0 <= k < args.deep_view().len() ==> valid_arg(#[trigger] args.deep_view()[k]),
                forall|k: int|
                    0 <= k < cur.deep_view().len() ==> !is_comma(#[trigger] cur.deep_view()[k])
                        && !is_semi(cur.deep_view()[k]),
                cur@.len() > 0 ==> i as int > 0 && s[i as int - 1] == cur.deep_view().last(),
                cur@.len() > 0 ==> join_args(args.deep_view().push(cur.deep_view())) == s.subrange(
                    0,
                    i as int,
                ),
                cur@.len() == 0 && i as int == 0 ==> args.deep_view().len() == 0,
                cur@.len() == 0 && i as int > 0 ==> args.deep_view().len() > 0 && is_comma(
                    s[i as int - 1],
                ) && join_args(args.deep_view()) == s.subrange(0, i as int - 1),
            decreases n - i,
        {
            let ghost args_old = args.deep_view();
            let ghost cur_old = cur.deep_view();
            let t = &tokens[i];
            let (is_sep, is_end) = match t {
                Token::Punct(c) => (*c == ',', *c == ';'),
                _ => (false, false),
            };
            proof {
                assert(t@ == s[i as int]);
                assert(is_sep == is_comma(s[i as int]));
                assert(is_end == is_semi(s[i as int]));
            }
            if is_end {
                if cur.len() == 0 {
                    proof {
                        if wf_case_tokens(s) {
                            // the semicolon must be the one at `n - 2`, since
                            // the region admits none
                            assert(valid_args_region(args_region(s)));
                            if (i as int) < n - 2 {
                                assert(!is_semi(args_region(s)[i as int]));
                            }
                            assert(i as int == n - 2);
                            if i as int == 0 {
                                assert(args_region(s).len() == 0);
                            } else {
                                assert(args_region(s)[i as int - 1] == s[i as int - 1]);
                            }
                            assert(false);
                        }
                    }
                    return Err(ExpandError::Parse(span));
                }
                args.push(cur);
                proof {
                    assert(args.deep_view() =~= args_old.push(cur_old));
                    assert(join_args(args.deep_view()) == s.subrange(0, i as int));
                }
                if n - i != 2 {
                    proof {
                        if wf_case_tokens(s) {
                            if (i as int) < n - 2 {
                                assert(!is_semi(args_region(s)[i as int]));
                            }
                            assert(!is_semi(s[n - 1]));
                            assert(false);
                        }
                    }
                    return Err(ExpandError::Parse(span));
                }
                match &tokens[i + 1] {
                    Token::Lit(Lit::Str(nm)) => {
                        let tc = TestCase { args, name: nm.clone(), span };
                        proof {
                            assert(s[n - 1] == tokens.deep_view()[i as int + 1]);
                            assert(is_str_lit(s[n - 1]));
                            assert(args_region(s) =~= s.subrange(0, i as int));
                            let region = args_region(s);
                            assert(region.len() == i as int);
                            assert(!is_comma(region[0]));
                            assert(region[region.len() - 1] == s[i as int - 1]);
                            assert(!is_comma(region[region.len() - 1]));
                            assert(forall|k: int| 0 <= k < region.len() ==> !is_semi(
                                #[trigger] region[k],
                            ));
                            assert(forall|k: int|
                                0 <= k && k + 1 < region.len() ==> !(is_comma(#[trigger] region[k])
                                    && is_comma(region[k + 1])));
                            assert(wf_case_tokens(s));
                            assert(case_from_tokens(tc@, s, span));
                        }
                        return Ok(tc);
                    },
                    _ => {
                        proof {
                            assert(s[n - 1] == tokens.deep_view()[i as int + 1]);
                            assert(!is_str_lit(s[n - 1]));
                        }
                        return Err(ExpandError::Parse(span));
                    },
                }
            } else if is_sep {
                if cur.len() == 0 {
                    proof {
                        if wf_case_tokens(s) {
                            assert(!is_comma(s[n - 2]));
                            assert(!is_comma(s[n - 1]));
                            assert((i as int) < n - 2 || i as int == n - 2 || i as int == n - 1);
                            if i as int == 0 {
                                assert(args_region(s)[0] == s[0]);
                            } else {
                                assert(is_comma(s[i as int - 1]));
                                assert(!(is_comma(args_region(s)[i as int - 1]) && is_comma(
                                    args_region(s)[i as int],
                                )));
                            }
                            assert(false);
                        }
                    }
                    return Err(ExpandError::Parse(span));
                }
                args.push(cur);
                cur = Vec::new();
                i = i + 1;
                proof {
                    assert(args.deep_view() =~= args_old.push(cur_old));
                    assert(join_args(args.deep_view()) == s.subrange(0, i as int - 1));
                }
            } else {
                cur.push(clone_token(t));
                i = i + 1;
                proof {
                    assert(cur.deep_view() =~= cur_old.push(s[i as int - 1]));
                    if cur_old.len() > 0 {
                        lemma_join_push_token(args_old, cur_old, s[i as int - 1]);
                        assert(join_args(args_old.push(cur_old)).push(s[i as int - 1]) =~= s
                            .subrange(0, i as int));
                    } else if i as int - 1 == 0 {
                        assert(join_args(args.deep_view().push(cur.deep_view())) == cur.deep_view());
                        assert(cur.deep_view() =~= s.subrange(0, i as int));
                    } else {
                        lemma_join_start_arg(args_old, s[i as int - 1]);
                        assert(cur.deep_view() =~= seq![s[i as int - 1]]);
                        assert(join_args(args_old).push(TokView::Punct(',')).push(
                            s[i as int - 1],
                        ) =~= s.subrange(0, i as int));
                    }
                }
            }
        }
        // ran out of tokens before any semicolon
        proof {
            if wf_case_tokens(s) {
                assert(is_semi(s[n - 2]));
                assert(false);
            }
        }
        Err(ExpandError::Parse(span))
    }
}

// --- case resolution ----------------------------------------------------

/// A parameter the resolver can bind: an ordinary typed parameter without
/// attributes of its own.
pub open spec fn input_ok(a: FnArgView) -> bool {
    a is Typed && a->Typed_0.attrs.len() == 0
}

pub open spec fn inputs_ok(inputs: Seq<FnArgView>) -> bool {
    forall|i: int| 0 <= i < inputs.len() ==> input_ok(#[trigger] inputs[i])
}

/// The error an unsupported parameter draws.
pub open spec fn input_err(a: FnArgView) -> ExpandError {
    match a {
        FnArgView::Receiver(sp) => ExpandError::ReceiverNotAllowed(sp),
        FnArgView::Typed(p) => ExpandError::UnsupportedAttribute(p.span),
    }
}

/// When a case resolves against a function: the argument count matches the
/// parameter count and every parameter can be bound.
pub open spec fn resolve_ok(f: FunctionView, c: TestCaseView) -> bool {
    c.args.len() == f.inputs.len() && inputs_ok(f.inputs)
}

/// The diagnostic a failed resolution draws: an arity mismatch is reported
/// at the case's own origin before the parameters are examined; otherwise
/// the first unsupported parameter, in order, names the error.
pub open spec fn resolve_failure_err(f: FunctionView, c: TestCaseView, e: ExpandError) -> bool {
    if c.args.len() != f.inputs.len() {
        e == ExpandError::Arity(c.span)
    } else {
        exists|i: int|
            {
                &&& 0 <= i < f.inputs.len()
                &&& !input_ok(#[trigger] f.inputs[i])
                &&& (forall|j: int| 0 <= j < i ==> input_ok(#[trigger] f.inputs[j]))
                &&& e == input_err(f.inputs[i])
            }
    }
}

/// The binding statement for one parameter: `let <pat>: <ty> = <arg>;`.
pub open spec fn binding_of(p: ParamView, arg: Seq<TokView>) -> StmtView {
    StmtView::Binding { pat: p.pat, ty: p.ty, expr: arg }
}

/// The function a successful resolution produces: the original with its
/// parameter list emptied, one binding per parameter prepended to the body
/// in parameter order, its name replaced by the sanitized display name, and
/// everything else (attributes, asyncness, return type, body) unchanged.
pub open spec fn resolved_view(f: FunctionView, c: TestCaseView) -> FunctionView {
    FunctionView {
        attrs: f.attrs,
        is_async: f.is_async,
        name: slug_of(c.name),
        inputs: Seq::empty(),
        output: f.output,
        body: Seq::new(f.inputs.len() as nat, |i: int| binding_of(f.inputs[i]->Typed_0, c.args[i]))
            + f.body,
    }
}

/// Resolve one case against (a private copy of) the annotated function.
/// Succeeds exactly when the case's argument count equals the function's
/// parameter count and no parameter is a receiver or carries attributes.
#[verifier::loop_isolation(false)]
pub fn resolve_test_case(f: Function, case: &TestCase) -> (r: Result<Function, ExpandError>)
    ensures
        match r {
            Ok(rf) => resolve_ok(f@, case@) && rf@ == resolved_view(f@, case@),
            Err(e) => !resolve_ok(f@, case@) && resolve_failure_err(f@, case@, e),
        },
{
    let ghost fv = f@;
    let ghost cv = case@;
    if case.args.len() != f.inputs.len() {
        return Err(ExpandError::Arity(case.span));
    }
    let Function { attrs, is_async, name: _, inputs, output, body } = f;
    let n = inputs.len();
    let mut stmts: Vec<Stmt> = Vec::new();
    let mut i: usize = 0;
    while i < n
        invariant
            fv.inputs == inputs.deep_view(),
            cv == case@,
            n == inputs@.len(),
            i <= n,
            cv.args.len() == n,
            forall|j: int| 0 <= j < i as int ==> input_ok(#[trigger] fv.inputs[j]),
            stmts@.len() == i,
            forall|j: int|
                0 <= j < i as int ==> stmts@[j].deep_view() == binding_of(
                    #[trigger] fv.inputs[j]->Typed_0,
                    cv.args[j],
                ),
        decreases n - i,
    {
        proof {
            assert(inputs.deep_view()[i as int] == inputs@[i as int].deep_view());
        }
        match &inputs[i] {
            FnArg::Receiver(sp) => {
                proof {
                    assert(fv.inputs[i as int] == FnArgView::Receiver(*sp));
                    assert(!input_ok(fv.inputs[i as int]));
                    assert(!inputs_ok(fv.inputs));
                    assert(input_err(fv.inputs[i as int]) == ExpandError::ReceiverNotAllowed(*sp));
                    assert(resolve_failure_err(fv, cv, ExpandError::ReceiverNotAllowed(*sp))) by {
                        let ii = i as int;
                        assert(0 <= ii < fv.inputs.len() && !input_ok(fv.inputs[ii]) && (forall|
                            j: int,
                        | 0 <= j < ii ==> input_ok(#[trigger] fv.inputs[j]))
                            && ExpandError::ReceiverNotAllowed(*sp) == input_err(fv.inputs[ii]));
                    }
                }
                return Err(ExpandError::ReceiverNotAllowed(*sp));
            },
            FnArg::Typed(p) => {
                if p.attrs.len() > 0 {
                    proof {
                        assert(fv.inputs[i as int] == FnArgView::Typed(p@));
                        assert(!input_ok(fv.inputs[i as int]));
                        assert(!inputs_ok(fv.inputs));
                        assert(input_err(fv.inputs[i as int]) == ExpandError::UnsupportedAttribute(
                            p.span,
                        ));
                        assert(resolve_failure_err(fv, cv, ExpandError::UnsupportedAttribute(
                            p.span,
                        ))) by {
                            let ii = i as int;
                            assert(0 <= ii < fv.inputs.len() && !input_ok(fv.inputs[ii]) && (
                            forall|j: int| 0 <= j < ii ==> input_ok(#[trigger] fv.inputs[j]))
                                && ExpandError::UnsupportedAttribute(p.span) == input_err(
                                fv.inputs[ii],
                            ));
                        }
                    }
                    return Err(ExpandError::UnsupportedAttribute(p.span));
                }
                stmts.push(
                    Stmt::Binding {
                        pat: clone_tokens(&p.pat),
                        ty: clone_tokens(&p.ty),
                        expr: clone_tokens(&case.args[i]),
                    },
                );
            },
        }
        i = i + 1;
    }
    let mut rest = body;
    stmts.append(&mut rest);
    let rf = Function {
        attrs,
        is_async,
        name: slugify_path(case.name.as_str()),
        inputs: Vec::new(),
        output,
        body: stmts,
    };
    proof {
        assert(rf@.body =~= resolved_view(fv, cv).body);
        assert(rf@ =~= resolved_view(fv, cv));
    }
    Ok(rf)
}

// --- collecting the stacked case declarations ---------------------------

/// Whether an attribute is a case declaration: its path is the plain or the
/// fully qualified spelling of the annotation.
pub open spec fn is_case_attr(a: AttrView) -> bool {
    a.path == seq!["test_case"@] || a.path == seq!["simple_test_case"@, "test_case"@]
}

/// The case-declaration attributes, in source order.
pub open spec fn case_attrs(attrs: Seq<AttrView>) -> Seq<AttrView> {
    attrs.filter(|a: AttrView| is_case_attr(a))
}

/// The attributes that are not case declarations, in source order: what the
/// generated functions keep.
pub open spec fn other_attrs(attrs: Seq<AttrView>) -> Seq<AttrView> {
    attrs.filter(|a: AttrView| !is_case_attr(a))
}

pub proof fn lemma_case_attrs_push(s: Seq<AttrView>, a: AttrView)
    ensures
        case_attrs(s.push(a)) == if is_case_attr(a) {
            case_attrs(s).push(a)
        } else {
            case_attrs(s)
        },
        other_attrs(s.push(a)) == if !is_case_attr(a) {
            other_attrs(s).push(a)
        } else {
            other_attrs(s)
        },
{
    reveal(Seq::filter);
    assert(s.push(a).drop_last() =~= s);
    assert(s.push(a).last() == a);
}

pub(crate) fn is_case_attr_exec(a: &Attr) -> (r: bool)
    ensures
        r == is_case_attr(a@),
{
    if a.path.len() == 1 {
        let r = a.path[0] == String::from_str("test_case");
        proof {
            if r {
                assert(a@.path =~= seq!["test_case"@]);
            } else {
                assert(a@.path[0] == a.path@[0]@);
                assert(a@.path != seq!["test_case"@]) by {
                    if a@.path == seq!["test_case"@] {
                        assert(a@.path[0] == seq!["test_case"@][0]);
                    }
                }
                assert(a@.path.len() != 2);
            }
        }
        r
    } else if a.path.len() == 2 {
        let r = a.path[0] == String::from_str("simple_test_case") && a.path[1] == String::from_str(
            "test_case",
        );
        proof {
            if r {
                assert(a@.path =~= seq!["simple_test_case"@, "test_case"@]);
            } else {
                assert(a@.path[0] == a.path@[0]@);
                assert(a@.path[1] == a.path@[1]@);
                assert(a@.path != seq!["simple_test_case"@, "test_case"@]) by {
                    if a@.path == seq!["simple_test_case"@, "test_case"@] {
                        assert(a@.path[0] == seq!["simple_test_case"@, "test_case"@][0]);
                        assert(a@.path[1] == seq!["simple_test_case"@, "test_case"@][1]);
                    }
                }
                assert(a@.path.len() != 1);
            }
        }
        r
    } else {
        proof {
            assert(a@.path.len() != 1 && a@.path.len() != 2);
        }
        false
    }
}

/// Collect the case declarations stacked below the primary one, in source
/// order, and the filtered attribute list the generated functions keep.
/// Fails with the first declaration whose argument tokens are malformed.
pub fn extract_other_cases(attrs: &Vec<Attr>) -> (r: Result<(Vec<TestCase>, Vec<Attr>), ExpandError>)
    ensures
        match r {
            Ok(p) => {
                &&& p.0.deep_view().len() == case_attrs(attrs.deep_view()).len()
                &&& (forall|i: int|
                    0 <= i < p.0.deep_view().len() ==> wf_case_tokens(
                        #[trigger] case_attrs(attrs.deep_view())[i].args,
                    ) && case_from_tokens(
                        p.0.deep_view()[i],
                        case_attrs(attrs.deep_view())[i].args,
                        case_attrs(attrs.deep_view())[i].span,
                    ))
                &&& p.1.deep_view() == other_attrs(attrs.deep_view())
            },
            Err(e) => bad_case_attr_err(attrs.deep_view(), e),
        },
{
    let ghost av = attrs.deep_view();
    let mut cases: Vec<TestCase> = Vec::new();
    let mut kept: Vec<Attr> = Vec::new();
    let mut i: usize = 0;
    while i < attrs.len()
        invariant
            av == attrs.deep_view(),
            i <= attrs@.len(),
            cases.deep_view().len() == case_attrs(av.subrange(0, i as int)).len(),
            forall|k: int|
                0 <= k < cases.deep_view().len() ==> wf_case_tokens(
                    #[trigger] case_attrs(av.subrange(0, i as int))[k].args,
                ) && case_from_tokens(
                    cases.deep_view()[k],
                    case_attrs(av.subrange(0, i as int))[k].args,
                    case_attrs(av.subrange(0, i as int))[k].span,
                ),
            kept.deep_view() == other_attrs(av.subrange(0, i as int)),
            forall|j: int|
                0 <= j < i as int && is_case_attr(#[trigger] av[j]) ==> wf_case_tokens(av[j].args),
        decreases attrs@.len() - i,
    {
        let ghost prefix = av.subrange(0, i as int);
        let a = &attrs[i];
        proof {
            assert(a@ == av[i as int]);
            assert(av.subrange(0, i as int + 1) =~= prefix.push(av[i as int]));
            lemma_case_attrs_push(prefix, av[i as int]);
        }
        if is_case_attr_exec(a) {
            match TestCase::parse(&a.args, a.span) {
                Ok(tc) => {
                    cases.push(tc);
                },
                Err(e) => {
                    proof {
                        let ii = i as int;
                        assert(bad_case_attr_err(av, e)) by {
                            assert(0 <= ii < av.len() && is_case_attr(av[ii]) && !wf_case_tokens(
                                av[ii].args,
                            ) && (forall|j: int|
                                0 <= j < ii && is_case_attr(#[trigger] av[j]) ==> wf_case_tokens(
                                    av[j].args,
                                )) && e == ExpandError::Parse(av[ii].span));
                        }
                    }
                    return Err(e);
                },
            }
        } else {
            kept.push(clone_attr(a));
        }
        i = i + 1;
    }
    proof {
        assert(av.subrange(0, av.len() as int) =~= av);
    }
    Ok((cases, kept))
}

/// A malformed case declaration among the attributes: the first one, with
/// the error it draws.
pub open spec fn bad_case_attr_err(attrs: Seq<AttrView>, e: ExpandError) -> bool {
    exists|i: int|
        {
            &&& 0 <= i < attrs.len()
            &&& is_case_attr(#[trigger] attrs[i])
            &&& !wf_case_tokens(attrs[i].args)
            &&& (forall|j: int|
                0 <= j < i && is_case_attr(#[trigger] attrs[j]) ==> wf_case_tokens(attrs[j].args))
            &&& e == ExpandError::Parse(attrs[i].span)
        }
}

/// Every declaration resolved: some list of parsed cases, one per
/// declaration, whose resolutions against `base` are exactly `fns`.
pub open spec fn module_resolves(
    ds: Seq<(Seq<TokView>, Span)>,
    base: FunctionView,
    fns: Seq<FunctionView>,
) -> bool {
    exists|cs: Seq<TestCaseView>|
        {
            &&& #[trigger] cs.len() == ds.len()
            &&& (forall|i: int|
                #![trigger cs[i]]
                0 <= i < ds.len() ==> case_from_tokens(cs[i], ds[i].0, ds[i].1) && resolve_ok(
                    base,
                    cs[i],
                ) && fns[i] == resolved_view(base, cs[i]))
        }
}

/// Some declaration's case failed to resolve, every declaration before it
/// resolving fine, and `e` is that failure's diagnostic.
pub open spec fn failed_case_err(
    ds: Seq<(Seq<TokView>, Span)>,
    base: FunctionView,
    e: ExpandError,
) -> bool {
    exists|i: int, c: TestCaseView, cs: Seq<TestCaseView>|
        {
            &&& 0 <= i < ds.len()
            &&& #[trigger] case_from_tokens(c, ds[i].0, ds[i].1)
            &&& !resolve_ok(base, c)
            &&& resolve_failure_err(base, c, e)
            &&& #[trigger] cs.len() >= i
            &&& (forall|j: int|
                #![trigger cs[j]]
                0 <= j < i ==> case_from_tokens(cs[j], ds[j].0, ds[j].1) && resolve_ok(
                    base,
                    cs[j],
                ))
        }
}

/// The number of top-level commas among some declaration tokens.
pub open spec fn comma_count(s: Seq<TokView>) -> nat {
    s.filter(|t: TokView| is_comma(t)).len()
}

proof fn lemma_comma_free_count(a: Seq<TokView>)
    requires
        forall|i: int| 0 <= i < a.len() ==> !is_comma(#[trigger] a[i]),
    ensures
        comma_count(a) == 0,
    decreases a.len(),
{
    reveal(Seq::filter);
    if a.len() > 0 {
        lemma_comma_free_count(a.drop_last());
    }
}

proof fn lemma_join_comma_count(args: Seq<Seq<TokView>>)
    requires
        args.len() >= 1,
        forall|i: int| 0 <= i < args.len() ==> valid_arg(#[trigger] args[i]),
    ensures
        comma_count(join_args(args)) == args.len() - 1,
    decreases args.len(),
{
    if args.len() == 1 {
        lemma_comma_free_count(args[0]);
    } else {
        broadcast use Seq::filter_distributes_over_add;

        lemma_join_comma_count(args.drop_last());
        lemma_comma_free_count(args.last());
        reveal(Seq::filter);
        let left = join_args(args.drop_last()).push(TokView::Punct(','));
        assert(join_args(args) == left + args.last());
        assert(left.drop_last() =~= join_args(args.drop_last()));
        assert(comma_count(left) == comma_count(join_args(args.drop_last())) + 1);
    }
}

/// Arity is a property of the declaration text alone: every case parsed from
/// the same declaration has one argument more than the argument region has
/// top-level commas. Together with the resolver's contract this pins exactly
/// which declarations fail with an arity error against a given function.
pub proof fn lemma_case_arg_count(c: TestCaseView, s: Seq<TokView>, span: Span)
    requires
        case_from_tokens(c, s, span),
    ensures
        c.args.len() == 1 + comma_count(args_region(s)),
{
    lemma_join_comma_count(c.args);
}

/// The declarations a list of case attributes carries: each one's argument
/// tokens with its location.
pub open spec fn attr_decls(ca: Seq<AttrView>) -> Seq<(Seq<TokView>, Span)> {
    ca.map_values(|a: AttrView| (a.args, a.span))
}

pub proof fn lemma_case_attrs_empty()
    ensures
        case_attrs(Seq::<AttrView>::empty()) == Seq::<AttrView>::empty(),
        other_attrs(Seq::<AttrView>::empty()) == Seq::<AttrView>::empty(),
{
    reveal(Seq::filter);
}

/// Filtering distributes over concatenation, for both attribute filters.
pub proof fn lemma_case_attrs_concat(a: Seq<AttrView>, b: Seq<AttrView>)
    ensures
        case_attrs(a + b) == case_attrs(a) + case_attrs(b),
        other_attrs(a + b) == other_attrs(a) + other_attrs(b),
{
    broadcast use vstd::seq_lib::group_seq_lib_default;
    broadcast use Seq::filter_distributes_over_add;

    assert(case_attrs(a + b) == case_attrs(a) + case_attrs(b));
    assert(other_attrs(a + b) == other_attrs(a) + other_attrs(b));
}

/// A stretch of attributes none of which is a case declaration filters to
/// nothing, and is kept whole.
pub proof fn lemma_case_attrs_none(s: Seq<AttrView>)
    requires
        forall|i: int| 0 <= i < s.len() ==> !is_case_attr(#[trigger] s[i]),
    ensures
        case_attrs(s) == Seq::<AttrView>::empty(),
        other_attrs(s) == s,
    decreases s.len(),
{
    if s.len() == 0 {
        lemma_case_attrs_empty();
        assert(s =~= Seq::<AttrView>::empty());
    } else {
        lemma_case_attrs_none(s.drop_last());
        lemma_case_attrs_push(s.drop_last(), s.last());
        assert(s.drop_last().push(s.last()) =~= s);
        assert(other_attrs(s) == s.drop_last().push(s.last()));
    }
}

/// A single case-declaration attribute filters to itself.
pub proof fn lemma_case_attrs_one(a: AttrView)
    requires
        is_case_attr(a),
    ensures
        case_attrs(seq![a]) == seq![a],
        other_attrs(seq![a]) == Seq::<AttrView>::empty(),
{
    lemma_case_attrs_empty();
    lemma_case_attrs_push(Seq::<AttrView>::empty(), a);
    assert(seq![a] =~= Seq::<AttrView>::empty().push(a));
    assert(case_attrs(seq![a]) == case_attrs(Seq::<AttrView>::empty().push(a)));
    assert(Seq::<AttrView>::empty().push(a) =~= seq![a]);
}

/// The declarations one annotated function carries, in resolution order:
/// the primary declaration's tokens first, then the argument tokens of the
/// stacked case attributes, top to bottom, each with its origin.
pub open spec fn case_decls(primary: Seq<TokView>, pspan: Span, attrs: Seq<AttrView>) -> Seq<
    (Seq<TokView>, Span),
> {
    seq![(primary, pspan)] + case_attrs(attrs).map_values(|a: AttrView| (a.args, a.span))
}

/// The function the generated cases are copies of: the annotated function
/// with its case-declaration attributes stripped.
pub open spec fn base_fn(f: FunctionView) -> FunctionView {
    FunctionView {
        attrs: other_attrs(f.attrs),
        is_async: f.is_async,
        name: f.name,
        inputs: f.inputs,
        output: f.output,
        body: f.body,
    }
}

} // verus!
