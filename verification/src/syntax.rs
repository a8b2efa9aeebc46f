//! The syntactic data the crate works on, as plain values.
//!
//! The expansion host parses real source text; this crate only ever sees it
//! through these types and hands rewritten values of them back. Argument
//! expressions, patterns, types and ordinary statements are carried as opaque
//! token runs: the rewrite never looks inside them.

use vstd::prelude::*;

verus! {

/// An opaque source-location identifier handed out by the expansion host,
/// carried through for diagnostic attribution only.
pub type Span = u32;

/// Which bracket delimits a token group.
#[derive(Clone, Copy, Debug, PartialEq, Eq, Structural)]
pub enum Delim {
    Paren,
    Bracket,
    Brace,
}

/// A literal token.
#[derive(Debug, Clone, PartialEq, Eq)]
pub enum Lit {
    Str(String),
    Int(u64),
    Bool(bool),
}

/// One token. A group carries its delimited source text opaquely; nested
/// punctuation therefore never counts as top-level punctuation.
#[derive(Debug, Clone, PartialEq, Eq)]
pub enum Token {
    Ident(String),
    Lit(Lit),
    Punct(char),
    Group(Delim, String),
}

/// One attribute on a function: its path segments, its argument tokens and
/// where it stands in the source.
#[derive(Debug, Clone, PartialEq, Eq)]
pub struct Attr {
    pub path: Vec<String>,
    pub args: Vec<Token>,
    pub span: Span,
}

/// One ordinary (non-receiver) function parameter: a pattern, its declared
/// type, and any attributes written on the parameter itself.
#[derive(Debug, Clone, PartialEq, Eq)]
pub struct Param {
    pub pat: Vec<Token>,
    pub ty: Vec<Token>,
    pub attrs: Vec<Attr>,
    pub span: Span,
}

/// One entry of a function's parameter list.
#[derive(Debug, Clone, PartialEq, Eq)]
pub enum FnArg {
    Receiver(Span),
    Typed(Param),
}

/// One statement of a function body: either a local binding this crate
/// synthesised, or an original statement carried through opaquely.
#[derive(Debug, Clone, PartialEq, Eq)]
pub enum Stmt {
    Binding { pat: Vec<Token>, ty: Vec<Token>, expr: Vec<Token> },
    Verbatim(Vec<Token>),
}

/// An annotated function: attributes, signature and body.
#[derive(Debug, Clone, PartialEq, Eq)]
pub struct Function {
    pub attrs: Vec<Attr>,
    pub is_async: bool,
    pub name: String,
    pub inputs: Vec<FnArg>,
    pub output: Option<Vec<Token>>,
    pub body: Vec<Stmt>,
}

/// The output unit: a module named after the original function, holding one
/// zero-parameter function per resolved case, in case order. Rendering adds
/// a wildcard import of the enclosing scope so neighbouring helpers stay
/// visible.
#[derive(Debug, Clone, PartialEq, Eq)]
pub struct CaseModule {
    pub name: String,
    pub fns: Vec<Function>,
}

/// Everything that can go wrong while expanding, each variant carrying the
/// source location the diagnostic should point at.
#[derive(Clone, Copy, Debug, PartialEq, Eq, Structural)]
pub enum ExpandError {
    /// A case declaration does not follow the `expr (',' expr)* ';' "name"`
    /// grammar, or a directory declaration is not a single string literal.
    Parse(Span),
    /// A case's argument count differs from the function's parameter count.
    Arity(Span),
    /// The annotated function takes `self`.
    ReceiverNotAllowed(Span),
    /// A parameter of the annotated function carries its own attributes.
    UnsupportedAttribute(Span),
    /// The function under a directory declaration does not take exactly two
    /// string-slice parameters.
    SignatureMismatch(Span),
    /// The directory or one of its files could not be read. Raised only by
    /// the caller doing the reading; carried here so every diagnostic of the
    /// expansion shares one type.
    Io(Span),
}

// --- mathematical views -------------------------------------------------

#[verifier::ext_equal]
pub enum LitView {
    Str(Seq<char>),
    Int(u64),
    Bool(bool),
}

#[verifier::ext_equal]
pub enum TokView {
    Ident(Seq<char>),
    Lit(LitView),
    Punct(char),
    Group(Delim, Seq<char>),
}

#[verifier::ext_equal]
pub struct AttrView {
    pub path: Seq<Seq<char>>,
    pub args: Seq<TokView>,
    pub span: Span,
}

#[verifier::ext_equal]
pub struct ParamView {
    pub pat: Seq<TokView>,
    pub ty: Seq<TokView>,
    pub attrs: Seq<AttrView>,
    pub span: Span,
}

#[verifier::ext_equal]
pub enum FnArgView {
    Receiver(Span),
    Typed(ParamView),
}

#[verifier::ext_equal]
pub enum StmtView {
    Binding { pat: Seq<TokView>, ty: Seq<TokView>, expr: Seq<TokView> },
    Verbatim(Seq<TokView>),
}

#[verifier::ext_equal]
pub struct FunctionView {
    pub attrs: Seq<AttrView>,
    pub is_async: bool,
    pub name: Seq<char>,
    pub inputs: Seq<FnArgView>,
    pub output: Option<Seq<TokView>>,
    pub body: Seq<StmtView>,
}

#[verifier::ext_equal]
pub struct ModuleView {
    pub name: Seq<char>,
    pub fns: Seq<FunctionView>,
}

impl View for Lit {
    type V = LitView;

    open spec fn view(&self) -> LitView {
        match self {
            Lit::Str(s) => LitView::Str(s@),
            Lit::Int(n) => LitView::Int(*n),
            Lit::Bool(b) => LitView::Bool(*b),
        }
    }
}

impl DeepView for Lit {
    type V = LitView;

    open spec fn deep_view(&self) -> LitView {
        self.view()
    }
}

impl View for Token {
    type V = TokView;

    open spec fn view(&self) -> TokView {
        match self {
            Token::Ident(s) => TokView::Ident(s@),
            Token::Lit(l) => TokView::Lit(l.view()),
            Token::Punct(c) => TokView::Punct(*c),
            Token::Group(d, s) => TokView::Group(*d, s@),
        }
    }
}

impl DeepView for Token {
    type V = TokView;

    open spec fn deep_view(&self) -> TokView {
        self.view()
    }
}

impl View for Attr {
    type V = AttrView;

    open spec fn view(&self) -> AttrView {
        AttrView { path: self.path.deep_view(), args: self.args.deep_view(), span: self.span }
    }
}

impl DeepView for Attr {
    type V = AttrView;

    open spec fn deep_view(&self) -> AttrView {
        self.view()
    }
}

impl View for Param {
    type V = ParamView;

    open spec fn view(&self) -> ParamView {
        ParamView {
            pat: self.pat.deep_view(),
            ty: self.ty.deep_view(),
            attrs: self.attrs.deep_view(),
            span: self.span,
        }
    }
}

impl DeepView for Param {
    type V = ParamView;

    open spec fn deep_view(&self) -> ParamView {
        self.view()
    }
}

impl View for FnArg {
    type V = FnArgView;

    open spec fn view(&self) -> FnArgView {
        match self {
            FnArg::Receiver(sp) => FnArgView::Receiver(*sp),
            FnArg::Typed(p) => FnArgView::Typed(p.view()),
        }
    }
}

impl DeepView for FnArg {
    type V = FnArgView;

    open spec fn deep_view(&self) -> FnArgView {
        self.view()
    }
}

impl View for Stmt {
    type V = StmtView;

    open spec fn view(&self) -> StmtView {
        match self {
            Stmt::Binding { pat, ty, expr } => StmtView::Binding {
                pat: pat.deep_view(),
                ty: ty.deep_view(),
                expr: expr.deep_view(),
            },
            Stmt::Verbatim(toks) => StmtView::Verbatim(toks.deep_view()),
        }
    }
}

impl DeepView for Stmt {
    type V = StmtView;

    open spec fn deep_view(&self) -> StmtView {
        self.view()
    }
}

impl View for Function {
    type V = FunctionView;

    open spec fn view(&self) -> FunctionView {
        FunctionView {
            attrs: self.attrs.deep_view(),
            is_async: self.is_async,
            name: self.name@,
            inputs: self.inputs.deep_view(),
            output: self.output.deep_view(),
            body: self.body.deep_view(),
        }
    }
}

impl DeepView for Function {
    type V = FunctionView;

    open spec fn deep_view(&self) -> FunctionView {
        self.view()
    }
}

impl View for CaseModule {
    type V = ModuleView;

    open spec fn view(&self) -> ModuleView {
        ModuleView { name: self.name@, fns: self.fns.deep_view() }
    }
}

// --- explicit deep copies ------------------------------------------------
//
// Each case is resolved against its own copy of the original function, so
// copies with a known relation to the original are needed throughout.

pub fn clone_token(t: &Token) -> (r: Token)
    ensures
        r@ == t@,
{
    match t {
        Token::Ident(s) => Token::Ident(s.clone()),
        Token::Lit(Lit::Str(s)) => Token::Lit(Lit::Str(s.clone())),
        Token::Lit(Lit::Int(n)) => Token::Lit(Lit::Int(*n)),
        Token::Lit(Lit::Bool(b)) => Token::Lit(Lit::Bool(*b)),
        Token::Punct(c) => Token::Punct(*c),
        Token::Group(d, s) => Token::Group(*d, s.clone()),
    }
}

pub fn clone_tokens(v: &Vec<Token>) -> (r: Vec<Token>)
    ensures
        r.deep_view() == v.deep_view(),
{
    let mut r: Vec<Token> = Vec::new();
    let mut i: usize = 0;
    while i < v.len()
        invariant
            i <= v.len(),
            r@.len() == i,
            forall|j: int| 0 <= j < i as int ==> r@[j].deep_view() == #[trigger] v@[j].deep_view(),
        decreases v.len() - i,
    {
        r.push(clone_token(&v[i]));
        i = i + 1;
    }
    proof {
        assert(r.deep_view() =~= v.deep_view());
    }
    r
}

pub fn clone_strings(v: &Vec<String>) -> (r: Vec<String>)
    ensures
        r.deep_view() == v.deep_view(),
{
    let mut r: Vec<String> = Vec::new();
    let mut i: usize = 0;
    while i < v.len()
        invariant
            i <= v.len(),
            r@.len() == i,
            forall|j: int| 0 <= j < i as int ==> r@[j].deep_view() == #[trigger] v@[j].deep_view(),
        decreases v.len() - i,
    {
        r.push(v[i].clone());
        i = i + 1;
    }
    proof {
        assert(r.deep_view() =~= v.deep_view());
    }
    r
}

pub fn clone_attr(a: &Attr) -> (r: Attr)
    ensures
        r@ == a@,
{
    let r = Attr { path: clone_strings(&a.path), args: clone_tokens(&a.args), span: a.span };
    proof {
        assert(r@ =~= a@);
    }
    r
}

pub fn clone_attrs(v: &Vec<Attr>) -> (r: Vec<Attr>)
    ensures
        r.deep_view() == v.deep_view(),
{
    let mut r: Vec<Attr> = Vec::new();
    let mut i: usize = 0;
    while i < v.len()
        invariant
            i <= v.len(),
            r@.len() == i,
            forall|j: int| 0 <= j < i as int ==> r@[j].deep_view() == #[trigger] v@[j].deep_view(),
        decreases v.len() - i,
    {
        r.push(clone_attr(&v[i]));
        i = i + 1;
    }
    proof {
        assert(r.deep_view() =~= v.deep_view());
    }
    r
}

pub fn clone_fnarg(a: &FnArg) -> (r: FnArg)
    ensures
        r@ == a@,
{
    match a {
        FnArg::Receiver(sp) => FnArg::Receiver(*sp),
        FnArg::Typed(p) => {
            let q = Param {
                pat: clone_tokens(&p.pat),
                ty: clone_tokens(&p.ty),
                attrs: clone_attrs(&p.attrs),
                span: p.span,
            };
            proof {
                assert(q@ =~= p@);
            }
            FnArg::Typed(q)
        },
    }
}

pub fn clone_fnargs(v: &Vec<FnArg>) -> (r: Vec<FnArg>)
    ensures
        r.deep_view() == v.deep_view(),
{
    let mut r: Vec<FnArg> = Vec::new();
    let mut i: usize = 0;
    while i < v.len()
        invariant
            i <= v.len(),
            r@.len() == i,
            forall|j: int| 0 <= j < i as int ==> r@[j].deep_view() == #[trigger] v@[j].deep_view(),
        decreases v.len() - i,
    {
        r.push(clone_fnarg(&v[i]));
        i = i + 1;
    }
    proof {
        assert(r.deep_view() =~= v.deep_view());
    }
    r
}

pub fn clone_stmt(s: &Stmt) -> (r: Stmt)
    ensures
        r@ == s@,
{
    match s {
        Stmt::Binding { pat, ty, expr } => Stmt::Binding {
            pat: clone_tokens(pat),
            ty: clone_tokens(ty),
            expr: clone_tokens(expr),
        },
        Stmt::Verbatim(toks) => Stmt::Verbatim(clone_tokens(toks)),
    }
}

pub fn clone_stmts(v: &Vec<Stmt>) -> (r: Vec<Stmt>)
    ensures
        r.deep_view() == v.deep_view(),
{
    let mut r: Vec<Stmt> = Vec::new();
    let mut i: usize = 0;
    while i < v.len()
        invariant
            i <= v.len(),
            r@.len() == i,
            forall|j: int| 0 <= j < i as int ==> r@[j].deep_view() == #[trigger] v@[j].deep_view(),
        decreases v.len() - i,
    {
        r.push(clone_stmt(&v[i]));
        i = i + 1;
    }
    proof {
        assert(r.deep_view() =~= v.deep_view());
    }
    r
}

pub fn clone_function(f: &Function) -> (r: Function)
    ensures
        r@ == f@,
{
    let output = match &f.output {
        Some(toks) => Some(clone_tokens(toks)),
        None => None,
    };
    let r = Function {
        attrs: clone_attrs(&f.attrs),
        is_async: f.is_async,
        name: f.name.clone(),
        inputs: clone_fnargs(&f.inputs),
        output,
        body: clone_stmts(&f.body),
    };
    proof {
        assert(r@ =~= f@);
    }
    r
}

} // verus!
