//! Generation of parameterised test functions from case declarations.
//!
//! A case declaration names one test case: a list of argument expressions
//! together with a display name, written `expr (',' expr)* ';' "name"`.
//! Resolving a case against an annotated function produces a standalone
//! zero-parameter copy of that function whose body first binds every original
//! parameter to the case's argument expression for it; all resolved cases for
//! one function are gathered into a module named after the function. A second
//! entry point synthesises one case per regular file of a directory, handing
//! each generated test the file's relative path and contents.
//!
//! Syntax travels through the crate as plain data (`syntax` module); the
//! expansion host that produces and consumes real token streams sits outside
//! this crate and converts at its boundary.

pub mod dir_cases;
pub mod syntax;
pub mod test_case;
pub mod util;

pub use util::slugify_path;

use vstd::prelude::*;
use crate::syntax::{Attr, CaseModule, ExpandError, Function, Span, Token, clone_function};
use crate::test_case::{
    TestCase, attr_decls, bad_case_attr_err, base_fn, case_attrs, case_decls,
    case_from_tokens, case_name, extract_other_cases, failed_case_err, is_case_attr,
    is_case_attr_exec, lemma_case_attrs_concat, lemma_case_attrs_none, lemma_case_attrs_one,
    module_resolves, other_attrs, resolve_failure_err, resolve_ok, resolve_test_case,
    resolved_view, wf_case_tokens,
};
use crate::util::slug_of;

verus! {

/// Expand one annotated function: parse the primary case declaration's
/// tokens, collect the case declarations stacked below it, resolve every
/// case in declaration order against a copy of the function stripped of
/// those declarations, and wrap the generated functions in a module named
/// after the function.
///
/// Succeeds exactly when every declaration is well-formed and every case
/// resolves; the first failure, in that order, is the error. The generated
/// functions appear in declaration order, each named by the sanitized
/// display name of its case and carrying the stripped attribute list
/// unchanged.
#[verifier::loop_isolation(false)]
pub fn test_case(args: Vec<Token>, args_span: Span, input: Function) -> (r: Result<
    CaseModule,
    ExpandError,
>)
    ensures
        match r {
            Ok(m) => {
                let ds = case_decls(args.deep_view(), args_span, input@.attrs);
                &&& (forall|i: int| 0 <= i < ds.len() ==> wf_case_tokens((#[trigger] ds[i]).0))
                &&& m@.name == input@.name
                &&& m@.fns.len() == ds.len()
                &&& module_resolves(ds, base_fn(input@), m@.fns)
                &&& (forall|i: int|
                    0 <= i < ds.len() ==> (#[trigger] m@.fns[i]).name == slug_of(
                        case_name(ds[i].0),
                    ))
                &&& (forall|i: int|
                    0 <= i < ds.len() ==> (#[trigger] m@.fns[i]).attrs == other_attrs(
                        input@.attrs,
                    ))
            },
            Err(e) => {
                let ds = case_decls(args.deep_view(), args_span, input@.attrs);
                ||| (!wf_case_tokens(args.deep_view()) && e == ExpandError::Parse(args_span))
                ||| bad_case_attr_err(input@.attrs, e)
                ||| ((forall|j: int| 0 <= j < ds.len() ==> wf_case_tokens((#[trigger] ds[j]).0))
                    && failed_case_err(ds, base_fn(input@), e))
            },
        },
{
    let ghost iv = input@;
    let ghost ds = case_decls(args.deep_view(), args_span, iv.attrs);
    let primary = match TestCase::parse(&args, args_span) {
        Ok(c) => c,
        Err(e) => {
            return Err(e);
        },
    };
    let (others, kept) = match extract_other_cases(&input.attrs) {
        Ok(p) => p,
        Err(e) => {
            return Err(e);
        },
    };
    let mut others = others;
    let Function { attrs: _, is_async, name, inputs, output, body } = input;
    let module_name = name.clone();
    let base = Function { attrs: kept, is_async, name, inputs, output, body };
    proof {
        assert(base@ =~~= base_fn(iv));
        assert(base@ == base_fn(iv));
    }
    let mut cases: Vec<TestCase> = Vec::new();
    cases.push(primary);
    cases.append(&mut others);
    proof {
        assert(ds.len() == 1 + case_attrs(iv.attrs).len());
        assert(cases.deep_view().len() == ds.len());
        assert(forall|k: int| 0 <= k < ds.len() ==> wf_case_tokens((#[trigger] ds[k]).0)) by {
            assert(forall|k: int|
                0 <= k < case_attrs(iv.attrs).len() ==> (#[trigger] ds[k + 1]).0 == case_attrs(
                    iv.attrs,
                )[k].args && ds[k + 1].1 == case_attrs(iv.attrs)[k].span);
        }
        assert(forall|k: int|
            0 <= k < ds.len() ==> case_from_tokens(
                #[trigger] cases.deep_view()[k],
                ds[k].0,
                ds[k].1,
            )) by {
            assert(forall|k: int|
                0 <= k < case_attrs(iv.attrs).len() ==> (#[trigger] ds[k + 1]).0 == case_attrs(
                    iv.attrs,
                )[k].args && ds[k + 1].1 == case_attrs(iv.attrs)[k].span);
        }
    }
    let mut fns: Vec<Function> = Vec::new();
    let mut i: usize = 0;
    while i < cases.len()
        invariant
            i <= cases@.len(),
            fns@.len() == i,
            forall|k: int|
                0 <= k < i as int ==> resolve_ok(base@, #[trigger] cases.deep_view()[k])
                    && fns.deep_view()[k] == resolved_view(base@, cases.deep_view()[k]),
        decreases cases@.len() - i,
    {
        let copy = clone_function(&base);
        match resolve_test_case(copy, &cases[i]) {
            Ok(rf) => {
                fns.push(rf);
                proof {
                    assert(cases.deep_view()[i as int] == cases@[i as int]@);
                    assert(fns.deep_view()[i as int] == rf@);
                }
            },
            Err(e) => {
                proof {
                    let ii = i as int;
                    let cs = cases.deep_view();
                    let c = cs[ii];
                    assert(0 <= ii < ds.len() && case_from_tokens(c, ds[ii].0, ds[ii].1)
                        && !resolve_ok(base_fn(iv), c) && resolve_failure_err(base_fn(iv), c, e)
                        && cs.len() >= ii && (forall|j: int|
                        #![trigger cs[j]]
                        0 <= j < ii ==> case_from_tokens(cs[j], ds[j].0, ds[j].1) && resolve_ok(
                            base_fn(iv),
                            cs[j],
                        )));
                    assert(failed_case_err(ds, base_fn(iv), e));
                }
                return Err(e);
            },
        }
        i = i + 1;
    }
    let m = CaseModule { name: module_name, fns };
    proof {
        let cs = cases.deep_view();
        assert(cs.len() == ds.len() && (forall|i: int|
            #![trigger cs[i]]
            0 <= i < ds.len() ==> case_from_tokens(cs[i], ds[i].0, ds[i].1) && resolve_ok(
                base_fn(iv),
                cs[i],
            ) && m@.fns[i] == resolved_view(base_fn(iv), cs[i])));
        assert(module_resolves(ds, base_fn(iv), m@.fns));
        assert forall|k: int| 0 <= k < ds.len() implies (#[trigger] m@.fns[k]).name == slug_of(
            case_name(ds[k].0),
        ) && m@.fns[k].attrs == other_attrs(iv.attrs) by {
            assert(m@.fns[k] == resolved_view(base_fn(iv), cs[k]));
            assert(cs[k].name == case_name(ds[k].0));
        }
    }
    Ok(m)
}

/// Expand a function the way the host sees it: find the first
/// case-declaration attribute, take it as the primary declaration, and
/// expand. Returns `None` when no attribute is a case declaration, in which
/// case the function is left for the host to compile as written.
#[verifier::loop_isolation(false)]
pub fn expand_attributed(input: Function) -> (r: Result<Option<CaseModule>, ExpandError>)
    ensures
        match r {
            Ok(opt) => match opt {
                None => case_attrs(input@.attrs).len() == 0,
                Some(m) => {
                    let ca = case_attrs(input@.attrs);
                    &&& ca.len() > 0
                    &&& (forall|i: int|
                        0 <= i < ca.len() ==> wf_case_tokens((#[trigger] ca[i]).args))
                    &&& m@.name == input@.name
                    &&& m@.fns.len() == ca.len()
                    &&& module_resolves(attr_decls(ca), base_fn(input@), m@.fns)
                    &&& (forall|i: int|
                        0 <= i < ca.len() ==> (#[trigger] m@.fns[i]).name == slug_of(
                            case_name(ca[i].args),
                        ))
                    &&& (forall|i: int|
                        0 <= i < ca.len() ==> (#[trigger] m@.fns[i]).attrs == other_attrs(
                            input@.attrs,
                        ))
                },
            },
            Err(e) => {
                ||| (exists|i: int|
                    {
                        &&& 0 <= i < input@.attrs.len()
                        &&& is_case_attr(#[trigger] input@.attrs[i])
                        &&& !wf_case_tokens(input@.attrs[i].args)
                        &&& e == ExpandError::Parse(input@.attrs[i].span)
                    })
                ||| failed_case_err(attr_decls(case_attrs(input@.attrs)), base_fn(input@), e)
            },
        },
{
    let ghost iv = input@;
    let ghost av = input@.attrs;
    let n = input.attrs.len();
    let mut first_idx: usize = n;
    let mut i: usize = 0;
    while i < n
        invariant
            i <= n,
            first_idx <= n,
            first_idx == n ==> (forall|j: int| 0 <= j < i as int ==> !is_case_attr(
                #[trigger] av[j],
            )),
            first_idx < n ==> is_case_attr(av[first_idx as int]) && (forall|j: int|
                0 <= j < first_idx as int ==> !is_case_attr(#[trigger] av[j])),
        decreases n - i,
    {
        if first_idx == n && is_case_attr_exec(&input.attrs[i]) {
            first_idx = i;
        }
        i = i + 1;
    }
    if first_idx == n {
        proof {
            lemma_case_attrs_none(av);
        }
        return Ok(None);
    }
    let ghost fi = first_idx as int;
    let ghost pre = av.subrange(0, fi);
    let ghost post = av.subrange(fi + 1, av.len() as int);
    let mut input = input;
    let a = input.attrs.remove(first_idx);
    let Attr { path: _, args, span } = a;
    proof {
        assert(av =~= (pre + seq![av[fi]]) + post);
        lemma_case_attrs_none(pre);
        lemma_case_attrs_one(av[fi]);
        lemma_case_attrs_concat(pre, seq![av[fi]]);
        lemma_case_attrs_concat(pre + seq![av[fi]], post);
        assert(case_attrs(av) == seq![av[fi]] + case_attrs(post));
        lemma_case_attrs_concat(pre, post);
        assert(input.attrs.deep_view() =~= pre + post);
        assert(other_attrs(av) == other_attrs(pre + post));
        assert(args.deep_view() == av[fi].args && span == av[fi].span);
        assert(base_fn(input@) =~~= base_fn(iv));
        assert(base_fn(input@) == base_fn(iv));
        assert(case_decls(args.deep_view(), span, input@.attrs) =~= attr_decls(case_attrs(av)));
    }
    let ghost inner_input = input@;
    let ghost ds_inner = case_decls(args.deep_view(), span, inner_input.attrs);
    match test_case(args, span, input) {
        Ok(m) => {
            proof {
                let ca = case_attrs(av);
                assert(ds_inner == attr_decls(ca));
                assert(m@.fns.len() == ca.len());
                assert forall|k: int| 0 <= k < ca.len() implies wf_case_tokens(
                    (#[trigger] ca[k]).args,
                ) && m@.fns[k].name == slug_of(case_name(ca[k].args)) && m@.fns[k].attrs
                    == other_attrs(av) by {
                    assert(ds_inner[k] == ((ca[k]).args, (ca[k]).span));
                    assert(wf_case_tokens(ds_inner[k].0));
                    assert(m@.fns[k].name == slug_of(case_name(ds_inner[k].0)));
                    assert(m@.fns[k].attrs == other_attrs(inner_input.attrs));
                }
                assert(module_resolves(attr_decls(ca), base_fn(iv), m@.fns));
            }
            Ok(Some(m))
        },
        Err(e) => {
            proof {
                if !wf_case_tokens(ds_inner[0].0) && e == ExpandError::Parse(span) {
                    assert(0 <= fi < av.len() && is_case_attr(av[fi]) && !wf_case_tokens(
                        av[fi].args,
                    ) && e == ExpandError::Parse(av[fi].span));
                } else if bad_case_attr_err(inner_input.attrs, e) {
                    let i2 = choose|i2: int|
                        {
                            &&& 0 <= i2 < inner_input.attrs.len()
                            &&& is_case_attr(#[trigger] inner_input.attrs[i2])
                            &&& !wf_case_tokens(inner_input.attrs[i2].args)
                            &&& (forall|j: int|
                                0 <= j < i2 && is_case_attr(#[trigger] inner_input.attrs[j])
                                    ==> wf_case_tokens(inner_input.attrs[j].args))
                            &&& e == ExpandError::Parse(inner_input.attrs[i2].span)
                        };
                    assert(inner_input.attrs == pre + post);
                    if i2 < fi {
                        assert(inner_input.attrs[i2] == av[i2]);
                        assert(false);
                    }
                    assert(inner_input.attrs[i2] == av[i2 + 1]);
                    assert(0 <= i2 + 1 < av.len() && is_case_attr(av[i2 + 1]) && !wf_case_tokens(
                        av[i2 + 1].args,
                    ) && e == ExpandError::Parse(av[i2 + 1].span));
                } else {
                    assert(failed_case_err(ds_inner, base_fn(inner_input), e));
                    assert(failed_case_err(attr_decls(case_attrs(av)), base_fn(iv), e));
                }
            }
            Err(e)
        },
    }
}

} // verus!
