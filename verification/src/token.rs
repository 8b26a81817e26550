//! The token model of annotation content.
//!
//! An annotation arrives from the host as the token sequence found inside its
//! parentheses.  Only the token shapes that the annotation grammar can
//! mention are modelled; everything else is a parse error.

use vstd::prelude::*;
use crate::diag::Span;

verus! {

/// One token of annotation content.
#[derive(Clone, PartialEq, Eq, Debug)]
pub enum Tok {
    /// An identifier or keyword.
    Ident(String),
    /// A string literal, with its quotes already stripped.
    LitStr(String),
    /// `,`
    Comma,
    /// `=`
    Eq,
    /// `(`
    OpenParen,
    /// `)`
    CloseParen,
    /// `::`
    PathSep,
}

/// A token together with its source span.
#[derive(Clone, PartialEq, Eq, Debug)]
pub struct Token {
    pub tok: Tok,
    pub span: Span,
}

/// The mathematical shape of one token.
pub enum TokView {
    Ident(Seq<char>),
    LitStr(Seq<char>),
    Comma,
    Eq,
    OpenParen,
    CloseParen,
    PathSep,
}

/// The mathematical shape of a token with its span.
pub struct TokenView {
    pub tok: TokView,
    pub span: Span,
}

impl View for Tok {
    type V = TokView;

    open spec fn view(&self) -> TokView {
        match self {
            Tok::Ident(s) => TokView::Ident(s@),
            Tok::LitStr(s) => TokView::LitStr(s@),
            Tok::Comma => TokView::Comma,
            Tok::Eq => TokView::Eq,
            Tok::OpenParen => TokView::OpenParen,
            Tok::CloseParen => TokView::CloseParen,
            Tok::PathSep => TokView::PathSep,
        }
    }
}

impl View for Token {
    type V = TokenView;

    open spec fn view(&self) -> TokenView {
        TokenView { tok: self.tok@, span: self.span }
    }
}

impl Token {
    /// Copies a token, preserving its view.
    pub fn duplicate(&self) -> (r: Token)
        ensures
            r@ == self@,
    {
        let tok = match &self.tok {
            Tok::Ident(s) => Tok::Ident(s.clone()),
            Tok::LitStr(s) => Tok::LitStr(s.clone()),
            Tok::Comma => Tok::Comma,
            Tok::Eq => Tok::Eq,
            Tok::OpenParen => Tok::OpenParen,
            Tok::CloseParen => Tok::CloseParen,
            Tok::PathSep => Tok::PathSep,
        };
        Token { tok, span: self.span }
    }
}

/// The views of a sequence of tokens.
pub open spec fn token_views(s: Seq<Token>) -> Seq<TokenView> {
    s.map_values(|t: Token| t@)
}

/// The text of an identifier token; meaningless on other tokens.
pub open spec fn ident_text(t: TokView) -> Seq<char> {
    match t {
        TokView::Ident(s) => s,
        _ => Seq::empty(),
    }
}

/// The value of a string-literal token; meaningless on other tokens.
pub open spec fn lit_text(t: TokView) -> Seq<char> {
    match t {
        TokView::LitStr(s) => s,
        _ => Seq::empty(),
    }
}

/// Whether a token is the identifier `kw`.
pub open spec fn is_kw(t: TokView, kw: Seq<char>) -> bool {
    t is Ident && ident_text(t) == kw
}

} // verus!
