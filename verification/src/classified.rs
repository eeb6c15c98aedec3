//! Classified commands: one parsed line becomes an ordered sequence of
//! command nodes, each internal (a registered command with a structured call)
//! or external (a name with raw argument strings, never interpreted further).

use vstd::prelude::*;

use crate::hir::Call;
use crate::parser::tokens_wf;
use crate::span::{HasSpan, Span};
use crate::token::{SpannedToken, Token};

verus! {

pub type ExternalArg = String;

/// The raw argument strings of an external command, with their overall span.
#[derive(Debug, Clone, PartialEq, Eq)]
pub struct ExternalArgs {
    pub list: Vec<ExternalArg>,
    pub span: Span,
}

/// What one token contributes to an external argument list: a string token
/// its quote-stripped content, white space and separators nothing, every
/// other token its literal source text.
pub open spec fn spec_external_args(toks: Seq<SpannedToken>, i: int, src: Seq<char>) -> Seq<
    Seq<char>,
>
    decreases toks.len() - i,
{
    if !(0 <= i < toks.len()) {
        Seq::<Seq<char>>::empty()
    } else {
        match toks[i].item {
            Token::String(inner) => seq![inner.spec_string(src)] + spec_external_args(
                toks,
                i + 1,
                src,
            ),
            Token::Whitespace => spec_external_args(toks, i + 1, src),
            Token::Separator => spec_external_args(toks, i + 1, src),
            _ => seq![toks[i].span.spec_string(src)] + spec_external_args(toks, i + 1, src),
        }
    }
}

/// The views of a sequence of strings.
pub open spec fn string_views(l: Seq<String>) -> Seq<Seq<char>> {
    l.map_values(|s: String| s@)
}

impl ExternalArgs {
    pub fn new(list: Vec<ExternalArg>, span: Span) -> (r: Self)
        ensures
            r == (ExternalArgs { list, span }),
    {
        ExternalArgs { list, span }
    }

    /// The argument strings, in order.
    pub fn iter(&self) -> (r: &Vec<ExternalArg>)
        ensures
            r == &self.list,
    {
        &self.list
    }

    /// Flatten tokens into raw argument strings: white space and separators
    /// are dropped, string tokens are quote-stripped, every other token is
    /// rendered as its literal source text.
    pub fn from_tokens(tokens: &Vec<SpannedToken>, source: &str, span: Span) -> (r: Self)
        requires
            tokens_wf(tokens@, source@.len() as int),
        ensures
            string_views(r.list@) == spec_external_args(tokens@, 0, source@),
            r.span == span,
    {
        let list = render_external_args(tokens, 0, source);
        ExternalArgs { list, span }
    }
}

fn render_external_args(tokens: &Vec<SpannedToken>, i: usize, source: &str) -> (r: Vec<String>)
    requires
        i <= tokens@.len(),
        tokens_wf(tokens@, source@.len() as int),
    ensures
        string_views(r@) == spec_external_args(tokens@, i as int, source@),
    decreases tokens@.len() - i,
{
    if i >= tokens.len() {
        let r: Vec<String> = Vec::new();
        proof {
            assert(string_views(r@) =~= Seq::<Seq<char>>::empty());
        }
        r
    } else {
        let tok = &tokens[i];
        let rendered: Option<String> = match &tok.item {
            Token::String(inner) => Some(inner.string(source)),
            Token::Whitespace => None,
            Token::Separator => None,
            _ => Some(tok.span.string(source)),
        };
        let mut rest = render_external_args(tokens, i + 1, source);
        match rendered {
            Some(s) => {
                let ghost rest0 = rest@;
                rest.insert(0, s);
                proof {
                    assert(string_views(rest@) =~= seq![s@] + string_views(rest0));
                }
                rest
            },
            None => rest,
        }
    }
}

/// An external command: its name, the name's span, and its raw arguments.
#[derive(Debug, Clone, PartialEq, Eq)]
pub struct ExternalCommand {
    pub name: String,
    pub name_span: Span,
    pub args: ExternalArgs,
}

impl ExternalCommand {
    pub fn new(name: String, name_span: Span, args: ExternalArgs) -> (r: Self)
        ensures
            r == (ExternalCommand { name, name_span, args }),
    {
        ExternalCommand { name, name_span, args }
    }
}

impl HasSpan for ExternalCommand {
    open spec fn spec_span(&self) -> Span {
        Span { start: self.name_span.start, end: self.args.span.end }
    }

    /// The covering span from the name to the end of the arguments.
    fn span(&self) -> (s: Span)
        ensures
            s == self.spec_span(),
    {
        Span { start: self.name_span.start, end: self.args.span.end }
    }
}

/// An internal command: its name, the name's span, and its structured call.
#[derive(Debug, Clone, PartialEq, Eq)]
pub struct InternalCommand {
    pub name: String,
    pub name_span: Span,
    pub args: Call,
}

impl InternalCommand {
    pub fn new(name: String, name_span: Span, args: Call) -> (r: Self)
        ensures
            r == (InternalCommand { name, name_span, args }),
    {
        InternalCommand { name, name_span, args }
    }
}

impl HasSpan for InternalCommand {
    open spec fn spec_span(&self) -> Span {
        Span { start: self.name_span.start, end: self.args.span.end }
    }

    /// The covering span from the name to the end of the call.
    fn span(&self) -> (s: Span)
        ensures
            s == self.spec_span(),
    {
        Span { start: self.name_span.start, end: self.args.span.end }
    }
}

/// One command node of a parsed line, tagged by where it will run.
#[derive(Debug, Clone, PartialEq, Eq)]
pub enum ClassifiedCommand {
    Internal(InternalCommand),
    External(ExternalCommand),
}

impl HasSpan for ClassifiedCommand {
    open spec fn spec_span(&self) -> Span {
        match self {
            ClassifiedCommand::Internal(command) => command.spec_span(),
            ClassifiedCommand::External(command) => command.spec_span(),
        }
    }

    fn span(&self) -> (s: Span)
        ensures
            s == self.spec_span(),
    {
        match self {
            ClassifiedCommand::Internal(command) => command.span(),
            ClassifiedCommand::External(command) => command.span(),
        }
    }
}

/// The ordered command nodes of one parsed line, with the line's span.
#[derive(Debug, Clone, PartialEq, Eq)]
pub struct Commands {
    pub list: Vec<ClassifiedCommand>,
    pub span: Span,
}

/// One parsed input line, classified.
#[derive(Debug, Clone, PartialEq, Eq)]
pub struct ClassifiedPipeline {
    pub commands: Commands,
}

impl ClassifiedPipeline {
    pub fn commands(list: Vec<ClassifiedCommand>, span: Span) -> (r: ClassifiedPipeline)
        ensures
            r == (ClassifiedPipeline { commands: Commands { list, span } }),
    {
        ClassifiedPipeline { commands: Commands { list, span } }
    }
}

impl ClassifiedPipeline {
    /// The source text this pipeline was classified from: the substring its
    /// span covers.
    pub fn source_text(&self, source: &str) -> (r: String)
        requires
            self.commands.span.in_source(source@.len() as int),
        ensures
            r@ == self.commands.span.spec_string(source@),
    {
        self.commands.span.string(source)
    }
}

impl HasSpan for ClassifiedPipeline {
    open spec fn spec_span(&self) -> Span {
        self.commands.span
    }

    fn span(&self) -> (s: Span)
        ensures
            s == self.spec_span(),
    {
        self.commands.span
    }
}

} // verus!
