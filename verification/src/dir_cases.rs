//! Directory-discovered cases: one synthesized case declaration per regular
//! file of a directory, handing each generated test the file's relative path
//! and full contents.

use vstd::prelude::*;
use vstd::string::*;
use crate::syntax::{
    Attr, AttrView, ExpandError, FnArg, FnArgView, Function, Lit, LitView, Span, TokView, Token,
};
use crate::test_case::{is_str_lit, str_lit_value};
use crate::util::{slug_of, slugify_path};

verus! {

/// A directory-case declaration: the directory whose files become cases,
/// and where the declaration stands in the source.
#[derive(Debug, Clone, PartialEq, Eq)]
pub struct DirCases {
    pub span: Span,
    pub dir: String,
}

/// The directory-case declaration grammar: exactly one string literal, the
/// directory path.
pub open spec fn wf_dir_tokens(s: Seq<TokView>) -> bool {
    s.len() == 1 && is_str_lit(s[0])
}

impl DirCases {
    /// Parse a directory-case declaration's tokens. Succeeds exactly on a
    /// single string literal; `span` is the declaration's own location.
    pub fn parse(tokens: &Vec<Token>, span: Span) -> (r: Result<DirCases, ExpandError>)
        ensures
            match r {
                Ok(dc) => wf_dir_tokens(tokens.deep_view()) && dc.span == span && dc.dir@
                    == str_lit_value(tokens.deep_view()[0]),
                Err(e) => !wf_dir_tokens(tokens.deep_view()) && e == ExpandError::Parse(span),
            },
    {
        if tokens.len() != 1 {
            return Err(ExpandError::Parse(span));
        }
        match &tokens[0] {
            Token::Lit(Lit::Str(d)) => Ok(DirCases { span, dir: d.clone() }),
            _ => Err(ExpandError::Parse(span)),
        }
    }
}

/// One directory entry, as the caller doing the reading hands it over: the
/// leaf name, whether it is a regular file, and for a regular file its full
/// text.
#[derive(Debug, Clone, PartialEq, Eq)]
pub struct DirEntry {
    pub name: String,
    pub is_regular_file: bool,
    pub contents: String,
}

#[verifier::ext_equal]
pub struct DirEntryView {
    pub name: Seq<char>,
    pub is_regular_file: bool,
    pub contents: Seq<char>,
}

impl View for DirEntry {
    type V = DirEntryView;

    open spec fn view(&self) -> DirEntryView {
        DirEntryView {
            name: self.name@,
            is_regular_file: self.is_regular_file,
            contents: self.contents@,
        }
    }
}

impl DeepView for DirEntry {
    type V = DirEntryView;

    open spec fn deep_view(&self) -> DirEntryView {
        self.view()
    }
}

/// The case one regular file yields: its directory-relative path, its
/// contents, and the case name sanitized from its leaf name. (Sanitizing the
/// full relative path instead would also guard against equal leaf names in
/// different directories; the leaf name is what a case list over one
/// directory needs.)
pub open spec fn file_case(dir: Seq<char>, e: DirEntryView) -> (Seq<char>, Seq<char>, Seq<char>) {
    (dir + seq!['/'] + e.name, e.contents, slug_of(e.name))
}

/// The cases a directory listing yields: one per regular file, in listing
/// order; every other kind of entry is skipped.
pub open spec fn dir_case_list(dir: Seq<char>, entries: Seq<DirEntryView>) -> Seq<
    (Seq<char>, Seq<char>, Seq<char>),
> {
    entries.filter(|e: DirEntryView| e.is_regular_file).map_values(
        |e: DirEntryView| file_case(dir, e),
    )
}

proof fn lemma_dir_case_push(dir: Seq<char>, s: Seq<DirEntryView>, e: DirEntryView)
    ensures
        dir_case_list(dir, s.push(e)) == if e.is_regular_file {
            dir_case_list(dir, s).push(file_case(dir, e))
        } else {
            dir_case_list(dir, s)
        },
{
    reveal(Seq::filter);
    let p = |x: DirEntryView| x.is_regular_file;
    assert(s.push(e).drop_last() =~= s);
    assert(s.push(e).last() == e);
    if e.is_regular_file {
        assert(s.push(e).filter(p) == s.filter(p).push(e));
        assert(s.filter(p).push(e).map_values(|x: DirEntryView| file_case(dir, x)) =~= s.filter(
            p,
        ).map_values(|x: DirEntryView| file_case(dir, x)).push(file_case(dir, e)));
    }
}

/// Build the case for every regular file among the directory's entries, in
/// entry order. The result has exactly one case per regular file, however
/// many entries of other kinds (subdirectories and the like) the listing
/// holds; those are skipped silently.
pub fn get_cases(dir: &str, entries: &Vec<DirEntry>) -> (r: Vec<(String, String, String)>)
    ensures
        r.deep_view() == dir_case_list(dir@, entries.deep_view()),
        r@.len() == entries.deep_view().filter(|e: DirEntryView| e.is_regular_file).len(),
{
    let ghost ev = entries.deep_view();
    let mut r: Vec<(String, String, String)> = Vec::new();
    let mut i: usize = 0;
    while i < entries.len()
        invariant
            ev == entries.deep_view(),
            i <= entries@.len(),
            r.deep_view() == dir_case_list(dir@, ev.subrange(0, i as int)),
        decreases entries@.len() - i,
    {
        let ghost prefix = ev.subrange(0, i as int);
        let e = &entries[i];
        proof {
            assert(e@ == ev[i as int]);
            assert(ev.subrange(0, i as int + 1) =~= prefix.push(ev[i as int]));
            lemma_dir_case_push(dir@, prefix, ev[i as int]);
        }
        if e.is_regular_file {
            let mut rel = String::from_str(dir);
            rel.append("/");
            rel.append(e.name.as_str());
            let case = slugify_path(e.name.as_str());
            let contents = e.contents.clone();
            r.push((rel, contents, case));
            proof {
                reveal_strlit("/");
                assert(rel@ =~= dir@ + seq!['/'] + ev[i as int].name);
                assert(r.deep_view() =~= dir_case_list(dir@, ev.subrange(0, i as int + 1)));
            }
        }
        i = i + 1;
    }
    proof {
        assert(ev.subrange(0, ev.len() as int) =~= ev);
    }
    r
}

/// The borrowed-text-slice type a directory-case consumer's parameters must
/// have.
pub open spec fn is_str_ref_ty(ty: Seq<TokView>) -> bool {
    ty == seq![TokView::Punct('&'), TokView::Ident("str"@)]
}

/// The parameter shape the directory-case consumer must have: exactly two
/// parameters, both `&str`, whatever their patterns.
pub open spec fn correct_dir_args(inputs: Seq<FnArgView>) -> bool {
    inputs.len() == 2 && (forall|i: int|
        0 <= i < inputs.len() ==> (#[trigger] inputs[i]) is Typed && is_str_ref_ty(
            inputs[i]->Typed_0.ty,
        ))
}

fn is_str_ref_ty_exec(ty: &Vec<Token>) -> (r: bool)
    ensures
        r == is_str_ref_ty(ty.deep_view()),
{
    if ty.len() != 2 {
        proof {
            assert(ty.deep_view().len() != 2);
        }
        return false;
    }
    let first = match &ty[0] {
        Token::Punct(c) => *c == '&',
        _ => false,
    };
    let second = match &ty[1] {
        Token::Ident(s) => *s == String::from_str("str"),
        _ => false,
    };
    proof {
        let tv = ty.deep_view();
        assert(tv[0] == ty@[0]@ && tv[1] == ty@[1]@);
        if first && second {
            assert(tv =~= seq![TokView::Punct('&'), TokView::Ident("str"@)]);
        } else {
            if tv == seq![TokView::Punct('&'), TokView::Ident("str"@)] {
                assert(tv[0] == TokView::Punct('&'));
                assert(tv[1] == TokView::Ident("str"@));
                assert(false);
            }
        }
    }
    first && second
}

/// Whether the annotated function can consume directory cases: exactly two
/// parameters, each a string slice, independent of the patterns they bind.
pub fn has_correct_args(f: &Function) -> (r: bool)
    ensures
        r == correct_dir_args(f@.inputs),
{
    if f.inputs.len() != 2 {
        proof {
            assert(f@.inputs.len() != 2);
        }
        return false;
    }
    let mut i: usize = 0;
    let mut ok = true;
    while i < 2
        invariant
            i <= 2,
            f@.inputs.len() == 2,
            f.inputs@.len() == 2,
            ok == (forall|j: int|
                0 <= j < i as int ==> (#[trigger] f@.inputs[j]) is Typed && is_str_ref_ty(
                    f@.inputs[j]->Typed_0.ty,
                )),
        decreases 2 - i,
    {
        let this_ok = match &f.inputs[i] {
            FnArg::Typed(p) => is_str_ref_ty_exec(&p.ty),
            FnArg::Receiver(_) => false,
        };
        proof {
            assert(f@.inputs[i as int] == f.inputs@[i as int]@);
        }
        ok = ok && this_ok;
        i = i + 1;
    }
    ok
}

/// The case declaration synthesized for one discovered file: the fully
/// qualified annotation with the file's relative path and contents as the
/// two arguments and its sanitized name as the display name.
pub open spec fn synth_case_attr(t: (Seq<char>, Seq<char>, Seq<char>), span: Span) -> AttrView {
    AttrView {
        path: seq!["simple_test_case"@, "test_case"@],
        args: seq![
            TokView::Lit(LitView::Str(t.0)),
            TokView::Punct(','),
            TokView::Lit(LitView::Str(t.1)),
            TokView::Punct(';'),
            TokView::Lit(LitView::Str(t.2)),
        ],
        span: span,
    }
}

/// The attributes a directory expansion prepends: one synthesized case
/// declaration per discovered file, in listing order.
pub open spec fn synth_attrs(
    dir: Seq<char>,
    entries: Seq<DirEntryView>,
    span: Span,
) -> Seq<AttrView> {
    dir_case_list(dir, entries).map_values(
        |t: (Seq<char>, Seq<char>, Seq<char>)| synth_case_attr(t, span),
    )
}

/// Expand a directory-case declaration: check the consumer's parameter
/// shape, then prepend one synthesized case declaration per regular file to
/// the function's attributes, leaving everything else unchanged. The
/// resulting function is what the case-resolution entry point then expands.
///
/// `entries` is the listing of the declared directory, read by the caller
/// before any of this runs; a directory or file that cannot be read never
/// reaches this function.
pub fn dir_cases(dc: &DirCases, input: Function, entries: &Vec<DirEntry>) -> (r: Result<
    Function,
    ExpandError,
>)
    ensures
        match r {
            Ok(g) => {
                &&& correct_dir_args(input@.inputs)
                &&& g@.attrs == synth_attrs(dc.dir@, entries.deep_view(), dc.span) + input@.attrs
                &&& g@.is_async == input@.is_async
                &&& g@.name == input@.name
                &&& g@.inputs == input@.inputs
                &&& g@.output == input@.output
                &&& g@.body == input@.body
            },
            Err(e) => !correct_dir_args(input@.inputs) && e == ExpandError::SignatureMismatch(
                dc.span,
            ),
        },
{
    let ghost iv = input@;
    if !has_correct_args(&input) {
        return Err(ExpandError::SignatureMismatch(dc.span));
    }
    let file_cases = get_cases(dc.dir.as_str(), entries);
    let ghost target = synth_attrs(dc.dir@, entries.deep_view(), dc.span);
    let mut attrs: Vec<Attr> = Vec::new();
    let mut k: usize = 0;
    while k < file_cases.len()
        invariant
            file_cases.deep_view() == dir_case_list(dc.dir@, entries.deep_view()),
            target == synth_attrs(dc.dir@, entries.deep_view(), dc.span),
            k <= file_cases@.len(),
            attrs@.len() == k,
            forall|j: int| 0 <= j < k as int ==> attrs.deep_view()[j] == #[trigger] target[j],
        decreases file_cases@.len() - k,
    {
        let t = &file_cases[k];
        let mut path: Vec<String> = Vec::new();
        path.push(String::from_str("simple_test_case"));
        path.push(String::from_str("test_case"));
        let mut toks: Vec<Token> = Vec::new();
        toks.push(Token::Lit(Lit::Str(t.0.clone())));
        toks.push(Token::Punct(','));
        toks.push(Token::Lit(Lit::Str(t.1.clone())));
        toks.push(Token::Punct(';'));
        toks.push(Token::Lit(Lit::Str(t.2.clone())));
        let a = Attr { path, args: toks, span: dc.span };
        proof {
            assert(t@ == file_cases.deep_view()[k as int]);
            assert(a@ =~= synth_case_attr(file_cases.deep_view()[k as int], dc.span));
            assert(target[k as int] == synth_case_attr(
                file_cases.deep_view()[k as int],
                dc.span,
            ));
        }
        attrs.push(a);
        k = k + 1;
    }
    let Function { attrs: old_attrs, is_async, name, inputs, output, body } = input;
    let mut old_attrs = old_attrs;
    let mut attrs = attrs;
    attrs.append(&mut old_attrs);
    let g = Function { attrs, is_async, name, inputs, output, body };
    proof {
        assert(g@.attrs =~= target + iv.attrs);
    }
    Ok(g)
}

} // verus!
