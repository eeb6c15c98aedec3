//! Lexical categories. A token is a classified unit of source text; a
//! `SpannedToken` pairs it with the full range it covers (delimiters
//! included, for quoted strings).

use vstd::prelude::*;

use crate::span::{Span, Spanned};

verus! {

/// A lexical category. `String` carries the span of the quote-stripped
/// content; `Flag` carries the span of the name after the leading `--`.
#[derive(Debug, Clone, Copy, PartialEq, Eq, Structural, PartialOrd, Ord, Hash)]
pub enum Token {
    String(Span),
    Bare,
    Flag(Span),
    Whitespace,
    Separator,
    GlobPattern,
    ExternalWord,
}

pub type SpannedToken = Spanned<Token>;

impl Token {
    /// A short human-readable name for the category.
    pub fn desc(&self) -> (r: &'static str)
        ensures
            r@ == match *self {
                Token::String(_) => "string"@,
                Token::Bare => "bare"@,
                Token::Flag(_) => "flag"@,
                Token::Whitespace => "whitespace"@,
                Token::Separator => "separator"@,
                Token::GlobPattern => "glob pattern"@,
                Token::ExternalWord => "external word"@,
            },
    {
        match self {
            Token::String(_) => "string",
            Token::Bare => "bare",
            Token::Flag(_) => "flag",
            Token::Whitespace => "whitespace",
            Token::Separator => "separator",
            Token::GlobPattern => "glob pattern",
            Token::ExternalWord => "external word",
        }
    }

    /// Pair this token with the full span it covers.
    pub fn spanned(self, span: Span) -> (t: SpannedToken)
        ensures
            t == (Spanned { item: self, span }),
    {
        Spanned { item: self, span }
    }
}

} // verus!
