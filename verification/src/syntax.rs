//! The owned syntax model that the rewriting passes work on.
//!
//! Declarations, calls and attributes arrive from the host as plain data:
//! identifiers and rendered sub-expressions are strings, annotation contents
//! are token sequences.  The passes never look inside rendered text; they
//! only move it, which is what keeps the model small and the transformation
//! provable.

use vstd::prelude::*;
use crate::diag::Span;
use crate::token::{token_views, Token, TokenView};

verus! {

/// The views of a sequence of strings.
pub open spec fn string_views(s: Seq<String>) -> Seq<Seq<char>> {
    s.map_values(|x: String| x@)
}

/// A (possibly leading-colon) path of identifiers.
#[derive(Clone, PartialEq, Eq, Debug)]
pub struct Path {
    pub leading_colon: bool,
    pub segs: Vec<String>,
}

/// The mathematical shape of a path.
pub struct PathView {
    pub leading_colon: bool,
    pub segs: Seq<Seq<char>>,
}

impl View for Path {
    type V = PathView;

    open spec fn view(&self) -> PathView {
        PathView { leading_colon: self.leading_colon, segs: string_views(self.segs@) }
    }
}

/// The visibility of an item.
#[derive(Clone, Copy, PartialEq, Eq, Structural, Debug)]
pub enum Visibility {
    /// `pub`
    Public,
    /// `pub(crate)`
    Crate,
    /// No visibility keyword.
    Inherited,
}

/// One function parameter: a pattern and its rendered type.
#[derive(Clone, PartialEq, Eq, Debug)]
pub struct Param {
    pub pat: String,
    pub ty: String,
}

/// The mathematical shape of a parameter.
pub struct ParamView {
    pub pat: Seq<char>,
    pub ty: Seq<char>,
}

impl View for Param {
    type V = ParamView;

    open spec fn view(&self) -> ParamView {
        ParamView { pat: self.pat@, ty: self.ty@ }
    }
}

/// The views of a sequence of parameters.
pub open spec fn param_views(s: Seq<Param>) -> Seq<ParamView> {
    s.map_values(|p: Param| p@)
}

/// A function signature: name, parameters, rendered return type.
#[derive(Clone, PartialEq, Eq, Debug)]
pub struct Signature {
    pub name: String,
    pub params: Vec<Param>,
    /// The rendered return type; empty when the function returns nothing.
    pub output: String,
}

/// The mathematical shape of a signature.
pub struct SignatureView {
    pub name: Seq<char>,
    pub params: Seq<ParamView>,
    pub output: Seq<char>,
}

impl View for Signature {
    type V = SignatureView;

    open spec fn view(&self) -> SignatureView {
        SignatureView {
            name: self.name@,
            params: param_views(self.params@),
            output: self.output@,
        }
    }
}

/// One attribute on a declaration or a call: its path and the token content
/// inside its parentheses.
#[derive(Clone, PartialEq, Eq, Debug)]
pub struct Attr {
    pub path: Path,
    pub tokens: Vec<Token>,
    pub span: Span,
}

/// The mathematical shape of an attribute.
pub struct AttrView {
    pub path: PathView,
    pub tokens: Seq<TokenView>,
    pub span: Span,
}

impl View for Attr {
    type V = AttrView;

    open spec fn view(&self) -> AttrView {
        AttrView { path: self.path@, tokens: token_views(self.tokens@), span: self.span }
    }
}

/// The views of a sequence of attributes.
pub open spec fn attr_views(s: Seq<Attr>) -> Seq<AttrView> {
    s.map_values(|a: Attr| a@)
}

/// A function declaration.
#[derive(Clone, PartialEq, Eq, Debug)]
pub struct FnDecl {
    pub attrs: Vec<Attr>,
    pub vis: Visibility,
    pub sig: Signature,
    /// The rendered body, which the passes never inspect.
    pub body: String,
}

/// The mathematical shape of a function declaration.
pub struct FnDeclView {
    pub attrs: Seq<AttrView>,
    pub vis: Visibility,
    pub sig: SignatureView,
    pub body: Seq<char>,
}

impl View for FnDecl {
    type V = FnDeclView;

    open spec fn view(&self) -> FnDeclView {
        FnDeclView {
            attrs: attr_views(self.attrs@),
            vis: self.vis,
            sig: self.sig@,
            body: self.body@,
        }
    }
}

/// A call expression: its attributes, callee path, and rendered arguments.
#[derive(Clone, PartialEq, Eq, Debug)]
pub struct CallExpr {
    pub attrs: Vec<Attr>,
    pub callee: Path,
    pub args: Vec<String>,
}

/// The mathematical shape of a call.
pub struct CallExprView {
    pub attrs: Seq<AttrView>,
    pub callee: PathView,
    pub args: Seq<Seq<char>>,
}

impl View for CallExpr {
    type V = CallExprView;

    open spec fn view(&self) -> CallExprView {
        CallExprView {
            attrs: attr_views(self.attrs@),
            callee: self.callee@,
            args: string_views(self.args@),
        }
    }
}

/// One top-level item of a compilation unit.
#[derive(Clone, PartialEq, Eq, Debug)]
pub enum Item {
    Fn(FnDecl),
    /// Anything that is not a function declaration, rendered.
    Other(String),
}

/// The mathematical shape of an item.
pub enum ItemView {
    Fn(FnDeclView),
    Other(Seq<char>),
}

impl View for Item {
    type V = ItemView;

    open spec fn view(&self) -> ItemView {
        match self {
            Item::Fn(f) => ItemView::Fn(f@),
            Item::Other(s) => ItemView::Other(s@),
        }
    }
}

/// The views of a sequence of items.
pub open spec fn item_views(s: Seq<Item>) -> Seq<ItemView> {
    s.map_values(|i: Item| i@)
}

/// A compilation unit: the items an annotation was attached to.
#[derive(Clone, PartialEq, Eq, Debug)]
pub struct SourceFile {
    pub items: Vec<Item>,
}

/// The mathematical shape of a compilation unit.
pub struct SourceFileView {
    pub items: Seq<ItemView>,
}

impl View for SourceFile {
    type V = SourceFileView;

    open spec fn view(&self) -> SourceFileView {
        SourceFileView { items: item_views(self.items@) }
    }
}

/// Copies a vector of strings, preserving its view.
pub fn clone_strings(v: &Vec<String>) -> (r: Vec<String>)
    ensures
        string_views(r@) == string_views(v@),
{
    let mut r: Vec<String> = Vec::new();
    let mut i: usize = 0;
    while i < v.len()
        invariant
            i <= v.len(),
            r@.len() == i,
            forall|j: int| 0 <= j < i ==> r@[j]@ == v@[j]@,
        decreases v.len() - i,
    {
        r.push(v[i].clone());
        i = i + 1;
    }
    proof {
        assert(string_views(r@) =~= string_views(v@));
    }
    r
}

impl Path {
    /// Copies a path, preserving its view.
    pub fn duplicate(&self) -> (r: Path)
        ensures
            r@ == self@,
    {
        Path { leading_colon: self.leading_colon, segs: clone_strings(&self.segs) }
    }

    /// Returns the path extended by one further segment.
    pub fn child(&self, seg: &String) -> (r: Path)
        ensures
            r@.leading_colon == self@.leading_colon,
            r@.segs == self@.segs.push(seg@),
    {
        let mut segs = clone_strings(&self.segs);
        segs.push(seg.clone());
        let r = Path { leading_colon: self.leading_colon, segs };
        proof {
            assert(r@.segs =~= self@.segs.push(seg@));
        }
        r
    }
}

impl Param {
    /// Copies a parameter, preserving its view.
    pub fn duplicate(&self) -> (r: Param)
        ensures
            r@ == self@,
    {
        Param { pat: self.pat.clone(), ty: self.ty.clone() }
    }
}

impl Signature {
    /// Copies a signature, preserving its view.
    pub fn duplicate(&self) -> (r: Signature)
        ensures
            r@ == self@,
    {
        let mut params: Vec<Param> = Vec::new();
        let mut i: usize = 0;
        while i < self.params.len()
            invariant
                i <= self.params.len(),
                params@.len() == i,
                forall|j: int| 0 <= j < i ==> params@[j]@ == self.params@[j]@,
            decreases self.params.len() - i,
        {
            params.push(self.params[i].duplicate());
            i = i + 1;
        }
        let r = Signature { name: self.name.clone(), params, output: self.output.clone() };
        proof {
            assert(param_views(r.params@) =~= param_views(self.params@));
        }
        r
    }
}

impl FnDecl {
    /// Copies a function declaration, preserving its view.
    pub fn duplicate(&self) -> (r: FnDecl)
        ensures
            r@ == self@,
    {
        let mut attrs: Vec<Attr> = Vec::new();
        let mut i: usize = 0;
        while i < self.attrs.len()
            invariant
                i <= self.attrs.len(),
                attrs@.len() == i,
                forall|j: int| 0 <= j < i ==> attrs@[j]@ == self.attrs@[j]@,
            decreases self.attrs.len() - i,
        {
            attrs.push(self.attrs[i].duplicate());
            i = i + 1;
        }
        let r = FnDecl {
            attrs,
            vis: self.vis,
            sig: self.sig.duplicate(),
            body: self.body.clone(),
        };
        proof {
            assert(attr_views(r.attrs@) =~= attr_views(self.attrs@));
        }
        r
    }
}

impl CallExpr {
    /// Copies a call, preserving its view.
    pub fn duplicate(&self) -> (r: CallExpr)
        ensures
            r@ == self@,
    {
        let mut attrs: Vec<Attr> = Vec::new();
        let mut i: usize = 0;
        while i < self.attrs.len()
            invariant
                i <= self.attrs.len(),
                attrs@.len() == i,
                forall|j: int| 0 <= j < i ==> attrs@[j]@ == self.attrs@[j]@,
            decreases self.attrs.len() - i,
        {
            attrs.push(self.attrs[i].duplicate());
            i = i + 1;
        }
        let r = CallExpr {
            attrs,
            callee: self.callee.duplicate(),
            args: clone_strings(&self.args),
        };
        proof {
            assert(attr_views(r.attrs@) =~= attr_views(self.attrs@));
        }
        r
    }
}

impl Attr {
    /// Copies an attribute, preserving its view.
    pub fn duplicate(&self) -> (r: Attr)
        ensures
            r@ == self@,
    {
        let mut tokens: Vec<Token> = Vec::new();
        let mut i: usize = 0;
        while i < self.tokens.len()
            invariant
                i <= self.tokens.len(),
                tokens@.len() == i,
                forall|j: int| 0 <= j < i ==> tokens@[j]@ == self.tokens@[j]@,
            decreases self.tokens.len() - i,
        {
            tokens.push(self.tokens[i].duplicate());
            i = i + 1;
        }
        let r = Attr { path: self.path.duplicate(), tokens, span: self.span };
        proof {
            assert(token_views(r.tokens@) =~= token_views(self.tokens@));
        }
        r
    }
}

} // verus!
