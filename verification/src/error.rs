//! The error model: a proximate error plus an optional owned prior cause,
//! forming a singly-linked cause chain from proximate to root.

use vstd::prelude::*;

use crate::span::Span;

verus! {

/// A sequence of `n` copies of the character `c`.
pub open spec fn char_repeat(c: char, n: int) -> Seq<char> {
    Seq::new(n as nat, |i: int| c)
}

/// The proximate fault: either a lexical/structural fault at an exact source
/// location, or a semantic fault described by a message.
#[derive(Debug, PartialEq, Eq, PartialOrd, Ord, Hash)]
pub enum ProximateShellError {
    ParseError(Span, Option<String>),
    RuntimeError(String),
}

impl Clone for ProximateShellError {
    fn clone(&self) -> (r: Self)
        ensures
            r == *self,
    {
        match self {
            ProximateShellError::ParseError(span, reason) => ProximateShellError::ParseError(
                *span,
                match reason {
                    Some(r) => Some(r.clone()),
                    None => None,
                },
            ),
            ProximateShellError::RuntimeError(reason) => ProximateShellError::RuntimeError(
                reason.clone(),
            ),
        }
    }
}

/// An error and a possible cause, which may have its own cause, forming a
/// cause chain. The chain is only appended to, never mutated.
#[derive(Debug, PartialEq, Eq, PartialOrd, Ord, Hash)]
pub struct ShellError {
    pub error: ProximateShellError,
    pub cause: Option<Box<ShellError>>,
}

impl Clone for ShellError {
    fn clone(&self) -> (r: Self)
        ensures
            r == *self,
        decreases *self,
    {
        ShellError {
            error: self.error.clone(),
            cause: match &self.cause {
                Some(prior) => Some(Box::new((**prior).clone())),
                None => None,
            },
        }
    }
}

impl ProximateShellError {
    /// Begin a cause chain: this fault alone, with no prior cause.
    pub fn start(self) -> (e: ShellError)
        ensures
            e == (ShellError { error: self, cause: None }),
    {
        ShellError { cause: None, error: self }
    }

    /// What rendering this error must produce: a parse error underlines the
    /// offending range with `^`, indented by spaces up to the span's start;
    /// a runtime error is its message.
    pub open spec fn spec_render(self) -> Seq<char> {
        match self {
            ProximateShellError::ParseError(span, reason) => char_repeat(' ', span.start as int)
                + char_repeat('^', span.end - span.start) + (match reason {
                Some(r) => r@,
                None => Seq::<char>::empty(),
            }),
            ProximateShellError::RuntimeError(reason) => reason@,
        }
    }

    /// Render this error as the line of text shown to the user.
    pub fn render(&self) -> (r: String)
        requires
            self matches ProximateShellError::ParseError(span, _) ==> span.wf(),
        ensures
            r@ == self.spec_render(),
    {
        match self {
            ProximateShellError::ParseError(span, reason) => {
                let mut out = String::new();
                let mut i: usize = 0;
                proof {
                    reveal_strlit(" ");
                    reveal_strlit("^");
                }
                while i < span.start
                    invariant
                        i <= span.start,
                        out@ =~= char_repeat(' ', i as int),
                    decreases span.start - i,
                {
                    proof {
                        reveal_strlit(" ");
                    }
                    out.append(" ");
                    i = i + 1;
                    proof {
                        assert(out@ =~= char_repeat(' ', i as int));
                    }
                }
                let mut j: usize = span.start;
                while j < span.end
                    invariant
                        span.wf(),
                        span.start <= j <= span.end,
                        out@ =~= char_repeat(' ', span.start as int) + char_repeat(
                            '^',
                            j - span.start,
                        ),
                    decreases span.end - j,
                {
                    proof {
                        reveal_strlit("^");
                    }
                    out.append("^");
                    j = j + 1;
                    proof {
                        assert(out@ =~= char_repeat(' ', span.start as int) + char_repeat(
                            '^',
                            j - span.start,
                        ));
                    }
                }
                match reason {
                    Some(r) => {
                        out.append(r.as_str());
                    },
                    None => {},
                }
                proof {
                    assert(out@ =~= self.spec_render());
                }
                out
            },
            ProximateShellError::RuntimeError(reason) => reason.clone(),
        }
    }
}

impl ShellError {
    /// A lexical or structural fault at `span`; an unknown location uses the
    /// sentinel span.
    pub fn parse_error(span: Span, reason: Option<String>) -> (e: ShellError)
        ensures
            e == (ShellError {
                error: ProximateShellError::ParseError(span, reason),
                cause: None,
            }),
    {
        ProximateShellError::ParseError(span, reason).start()
    }

    /// A semantic fault described by a message.
    pub fn runtime_error(reason: String) -> (e: ShellError)
        ensures
            e == (ShellError { error: ProximateShellError::RuntimeError(reason), cause: None }),
    {
        ProximateShellError::RuntimeError(reason).start()
    }

    /// Wrap a prior error: this error becomes the proximate one, `cause` the
    /// retained lower-layer fault.
    pub fn caused_by(self, cause: ShellError) -> (e: ShellError)
        ensures
            e == (ShellError { error: self.error, cause: Some(Box::new(cause)) }),
    {
        ShellError { error: self.error, cause: Some(Box::new(cause)) }
    }

    /// Render only the outermost error; the chain stays available for
    /// diagnostics.
    pub fn render(&self) -> (r: String)
        requires
            self.error matches ProximateShellError::ParseError(span, _) ==> span.wf(),
        ensures
            r@ == self.error.spec_render(),
    {
        self.error.render()
    }
}

} // verus!
