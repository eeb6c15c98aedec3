//! The classifier and the call builder. The classifier splits a token list
//! on separators into command nodes; a node whose name resolves in the
//! registry becomes an internal command with a structured call built against
//! its signature, any other becomes an external command with raw argument
//! strings. The call builder consumes a node's trailing tokens left to
//! right: a flag binds to its declared spec, consuming the following
//! non-white-space token when the spec takes a value; every other token
//! fills the next positional slot or the rest parameter; unsupplied declared
//! flags resolve to absent entries.

use vstd::prelude::*;

use crate::classified::{
    spec_external_args, string_views, ClassifiedCommand, ClassifiedPipeline, ExternalArgs,
    ExternalCommand, InternalCommand,
};
use crate::commands::Command;
use crate::context::CommandRegistry;
use crate::error::{ProximateShellError, ShellError};
use crate::evaluate::call_tokens_wf;
use crate::hir::{Call, NamedArguments, NamedValue};
use crate::imap::{has_key, spec_get, spec_insert};
use crate::parser::{token_contained, token_wf, tokens_wf};
use crate::signature::{NamedType, Signature};
use crate::span::{Span, Spanned};
use crate::token::{SpannedToken, Token};

verus! {

// ---------------------------------------------------------------------------
// The call builder, at the specification level
// ---------------------------------------------------------------------------
/// The first position at or after `i` holding no white-space token.
pub open spec fn spec_next_non_ws(toks: Seq<SpannedToken>, i: int) -> int
    decreases toks.len() - i,
{
    if 0 <= i < toks.len() && toks[i].item is Whitespace {
        spec_next_non_ws(toks, i + 1)
    } else {
        i
    }
}

/// What consuming the tokens from `i` on does to the accumulated positional
/// tokens and named entries, or the parse fault that stops it: its message
/// and its location.
pub open spec fn spec_build_tail(
    sig: Signature,
    toks: Seq<SpannedToken>,
    i: int,
    src: Seq<char>,
    pos: Seq<SpannedToken>,
    named: Seq<(Seq<char>, NamedValue)>,
) -> Result<(Seq<SpannedToken>, Seq<(Seq<char>, NamedValue)>), (Seq<char>, Span)>
    decreases toks.len() - i,
{
    if !(0 <= i < toks.len()) {
        Ok((pos, named))
    } else {
        match toks[i].item {
            Token::Whitespace => spec_build_tail(sig, toks, i + 1, src, pos, named),
            Token::Separator => spec_build_tail(sig, toks, i + 1, src, pos, named),
            Token::Flag(name_span) => {
                let name = name_span.spec_string(src);
                match sig.spec_named_get(name) {
                    None => Err(("unrecognized flag"@, toks[i].span)),
                    Some(NamedType::Switch) => spec_build_tail(
                        sig,
                        toks,
                        i + 1,
                        src,
                        pos,
                        spec_insert(named, name, NamedValue::PresentSwitch(toks[i].span)),
                    ),
                    Some(NamedType::Value(_)) => {
                        let j = spec_next_non_ws(toks, i + 1);
                        if i < j && j < toks.len() {
                            spec_build_tail(
                                sig,
                                toks,
                                j + 1,
                                src,
                                pos,
                                spec_insert(named, name, NamedValue::Value(toks[j])),
                            )
                        } else {
                            Err(("flag expects a value"@, toks[i].span))
                        }
                    },
                }
            },
            _ => {
                if pos.len() < sig.positional@.len() || sig.rest_positional is Some {
                    spec_build_tail(sig, toks, i + 1, src, pos.push(toks[i]), named)
                } else {
                    Err(("unexpected argument"@, toks[i].span))
                }
            },
        }
    }
}

/// Declared flags the tokens did not supply resolve to absent entries, in
/// declaration order.
pub open spec fn spec_fill_absents(
    sig_named: Seq<(Seq<char>, NamedType)>,
    k: int,
    named: Seq<(Seq<char>, NamedValue)>,
) -> Seq<(Seq<char>, NamedValue)>
    decreases sig_named.len() - k,
{
    if !(0 <= k < sig_named.len()) {
        named
    } else {
        let named2 = if has_key(named, sig_named[k].0) {
            named
        } else {
            spec_insert(
                named,
                sig_named[k].0,
                if sig_named[k].1 is Switch {
                    NamedValue::AbsentSwitch
                } else {
                    NamedValue::AbsentValue
                },
            )
        };
        spec_fill_absents(sig_named, k + 1, named2)
    }
}

/// Whether a required positional slot at or after `filled` went unfilled.
pub open spec fn spec_missing_required(sig: Signature, filled: int) -> bool {
    exists|k: int|
        filled <= k < sig.positional@.len() && (#[trigger] sig.positional@[k]).0.is_mandatory()
}

/// The mathematical model of a call: head token, positional tokens, named
/// entries and span.
#[verifier::ext_equal]
pub struct CallModel {
    pub head: SpannedToken,
    pub positional: Option<Seq<SpannedToken>>,
    pub named: Seq<(Seq<char>, NamedValue)>,
    pub span: Span,
}

/// The model of a call. A call built by the call builder holds no empty
/// positional list and no empty named map, so the model loses nothing.
pub open spec fn call_model(c: Call) -> CallModel {
    CallModel {
        head: c.head,
        positional: match c.positional {
            Some(p) => Some(p@),
            None => None,
        },
        named: match c.named {
            Some(n) => n.entries(),
            None => Seq::<(Seq<char>, NamedValue)>::empty(),
        },
        span: c.span,
    }
}

/// What building a call yields: the call's model, or the parse fault.
pub open spec fn spec_build_call(
    sig: Signature,
    head: SpannedToken,
    toks: Seq<SpannedToken>,
    src: Seq<char>,
) -> Result<CallModel, (Seq<char>, Span)> {
    match spec_build_tail(sig, toks, 0, src, Seq::empty(), Seq::empty()) {
        Err(f) => Err(f),
        Ok((pos, named)) => if spec_missing_required(sig, pos.len() as int) {
            Err(("missing required argument"@, head.span))
        } else {
            Ok(
                CallModel {
                    head,
                    positional: if pos.len() == 0 {
                        None
                    } else {
                        Some(pos)
                    },
                    named: spec_fill_absents(sig.named_entries(), 0, named),
                    span: Span {
                        start: head.span.start,
                        end: if toks.len() > 0 {
                            toks[toks.len() - 1].span.end
                        } else {
                            head.span.end
                        },
                    },
                },
            )
        },
    }
}

/// An error as the builder and the classifier report one: a fresh parse
/// error at an exact location, carrying the given reason.
pub open spec fn is_parse_error(e: ShellError, msg: Seq<char>, span: Span) -> bool {
    &&& e.error matches ProximateShellError::ParseError(sp, reason) && sp == span && (
    reason matches Some(m) && m@ == msg)
    &&& e.cause is None
}

// ---------------------------------------------------------------------------
// The call builder, executable
// ---------------------------------------------------------------------------
fn next_non_ws(toks: &Vec<SpannedToken>, i: usize) -> (j: usize)
    requires
        i <= toks@.len(),
    ensures
        j as int == spec_next_non_ws(toks@, i as int),
        i <= j <= toks@.len(),
    decreases toks@.len() - i,
{
    if i < toks.len() {
        let is_ws = match toks[i].item {
            Token::Whitespace => true,
            _ => false,
        };
        if is_ws {
            next_non_ws(toks, i + 1)
        } else {
            i
        }
    } else {
        i
    }
}

/// All the token values a named-entry sequence carries are well formed in a
/// source of length `n`.
pub open spec fn named_values_wf(es: Seq<(Seq<char>, NamedValue)>, n: int) -> bool {
    forall|m: int|
        0 <= m < es.len() ==> ((#[trigger] es[m]).1 matches NamedValue::Value(tok) ==> token_wf(
            tok,
            n,
        ))
}

fn build_tail(
    sig: &Signature,
    toks: &Vec<SpannedToken>,
    i: usize,
    source: &str,
    pos: Vec<SpannedToken>,
    named: NamedArguments,
) -> (r: Result<(Vec<SpannedToken>, NamedArguments), ShellError>)
    requires
        sig.wf(),
        named.wf(),
        i <= toks@.len(),
        tokens_wf(toks@, source@.len() as int),
        tokens_wf(pos@, source@.len() as int),
        named_values_wf(named.entries(), source@.len() as int),
    ensures
        match r {
            Ok(p) => spec_build_tail(*sig, toks@, i as int, source@, pos@, named.entries())
                == Ok::<_, (Seq<char>, Span)>((p.0@, p.1.entries())) && p.1.wf() && tokens_wf(
                p.0@,
                source@.len() as int,
            ) && named_values_wf(p.1.entries(), source@.len() as int),
            Err(e) => spec_build_tail(*sig, toks@, i as int, source@, pos@, named.entries())
                matches Err(f) && is_parse_error(e, f.0, f.1),
        },
    decreases toks@.len() - i,
{
    if i >= toks.len() {
        return Ok((pos, named));
    }
    let tok = toks[i];
    match tok.item {
        Token::Whitespace => build_tail(sig, toks, i + 1, source, pos, named),
        Token::Separator => build_tail(sig, toks, i + 1, source, pos, named),
        Token::Flag(name_span) => {
            let name = name_span.string(source);
            match sig.get_named(name.as_str()) {
                None => Err(
                    ShellError::parse_error(
                        tok.span,
                        Some(String::from_str("unrecognized flag")),
                    ),
                ),
                Some(NamedType::Switch) => {
                    let mut named2 = named;
                    named2.insert_switch(name, Some(tok.span));
                    proof {
                        crate::imap::lemma_spec_insert_entries(
                            named.entries(),
                            name_span.spec_string(source@),
                            NamedValue::PresentSwitch(tok.span),
                        );
                    }
                    build_tail(sig, toks, i + 1, source, pos, named2)
                },
                Some(NamedType::Value(_)) => {
                    let j = next_non_ws(toks, i + 1);
                    if j < toks.len() {
                        let value_tok = toks[j];
                        let mut named2 = named;
                        named2.insert_mandatory(name, value_tok);
                        proof {
                            crate::imap::lemma_spec_insert_entries(
                                named.entries(),
                                name_span.spec_string(source@),
                                NamedValue::Value(value_tok),
                            );
                        }
                        build_tail(sig, toks, j + 1, source, pos, named2)
                    } else {
                        Err(
                            ShellError::parse_error(
                                tok.span,
                                Some(String::from_str("flag expects a value")),
                            ),
                        )
                    }
                },
            }
        },
        _ => {
            if pos.len() < sig.positional.len() || sig.rest_positional.is_some() {
                let mut pos2 = pos;
                pos2.push(tok);
                build_tail(sig, toks, i + 1, source, pos2, named)
            } else {
                Err(
                    ShellError::parse_error(
                        tok.span,
                        Some(String::from_str("unexpected argument")),
                    ),
                )
            }
        },
    }
}

#[verifier::loop_isolation(false)]
fn fill_absents(sig: &Signature, named: NamedArguments) -> (r: NamedArguments)
    requires
        sig.wf(),
        named.wf(),
    ensures
        r.entries() == spec_fill_absents(sig.named_entries(), 0, named.entries()),
        r.wf(),
{
    let mut out = named;
    let len = sig.named.len();
    let mut k: usize = 0;
    while k < len
        invariant
            k <= len,
            len == sig.named@.len(),
            out.wf(),
            spec_fill_absents(sig.named_entries(), 0, named.entries()) == spec_fill_absents(
                sig.named_entries(),
                k as int,
                out.entries(),
            ),
        decreases len - k,
    {
        let entry = &sig.named[k];
        proof {
            assert(sig.named_entries()[k as int] == (entry.0@, entry.1));
        }
        let present = out.get(entry.0.as_str()).is_some();
        if !present {
            match entry.1 {
                NamedType::Switch => out.insert_switch(entry.0.clone(), None),
                NamedType::Value(_) => out.insert_optional(entry.0.clone(), None),
            }
        }
        k = k + 1;
    }
    out
}

/// Build a structured call from a command node's trailing tokens against a
/// signature. Fails with a parse error exactly when a flag is unrecognized,
/// a value-taking flag has no following token, an argument exceeds the
/// declared positionals of a signature without a rest parameter, or a
/// required positional goes unfilled.
#[verifier::loop_isolation(false)]
pub fn build_call(
    sig: &Signature,
    head: SpannedToken,
    tokens: &Vec<SpannedToken>,
    source: &str,
) -> (r: Result<Call, ShellError>)
    requires
        sig.wf(),
        tokens_wf(tokens@, source@.len() as int),
    ensures
        match r {
            Ok(call) => spec_build_call(*sig, head, tokens@, source@) matches Ok(m) && call_model(
                call,
            ) == m && call.wf() && call_tokens_wf(call, source@.len() as int) && call.head == head,
            Err(e) => spec_build_call(*sig, head, tokens@, source@) matches Err(f)
                && is_parse_error(e, f.0, f.1),
        },
{
    let empty_pos: Vec<SpannedToken> = Vec::new();
    proof {
        assert(empty_pos@ =~= Seq::<SpannedToken>::empty());
    }
    let (pos, named) = match build_tail(sig, tokens, 0, source, empty_pos, NamedArguments::new()) {
        Ok(p) => p,
        Err(e) => {
            return Err(e);
        },
    };
    // a required positional slot that no token filled is a parse fault
    let filled = pos.len();
    let decl = sig.positional.len();
    let mut k: usize = filled;
    while k < decl
        invariant
            filled <= k <= decl || (decl < filled && k == filled),
            decl == sig.positional@.len(),
            forall|m: int|
                filled <= m < k ==> !(#[trigger] sig.positional@[m]).0.is_mandatory(),
        decreases decl - k,
    {
        let mandatory = match &sig.positional[k].0 {
            crate::signature::PositionalType::Mandatory(_, _) => true,
            crate::signature::PositionalType::Optional(_, _) => false,
        };
        if mandatory {
            proof {
                assert(sig.positional@[k as int].0.is_mandatory());
                assert(spec_missing_required(*sig, filled as int));
            }
            return Err(
                ShellError::parse_error(
                    head.span,
                    Some(String::from_str("missing required argument")),
                ),
            );
        }
        k = k + 1;
    }
    proof {
        assert(!spec_missing_required(*sig, filled as int));
    }
    let named_filled = fill_absents(sig, named);
    let positional: Option<Vec<SpannedToken>> = if pos.len() == 0 {
        None
    } else {
        Some(pos)
    };
    let named_opt: Option<NamedArguments> = if named_filled.len() == 0 {
        None
    } else {
        Some(named_filled)
    };
    let end: usize = if tokens.len() > 0 {
        tokens[tokens.len() - 1].span.end
    } else {
        head.span.end
    };
    let call = Call {
        head,
        positional,
        named: named_opt,
        span: Span { start: head.span.start, end },
    };
    proof {
        lemma_fill_absents_values_wf(
            sig.named_entries(),
            0,
            named.entries(),
            source@.len() as int,
        );
        let m = spec_build_call(*sig, head, tokens@, source@)->Ok_0;
        assert(call_model(call).head == m.head);
        assert(call_model(call).span == m.span);
        assert(call_model(call).positional == m.positional);
        if named_filled.entries().len() == 0 {
            assert(named_filled.entries() =~= Seq::<(Seq<char>, NamedValue)>::empty());
        }
        assert(call_model(call).named == m.named);
        assert(call_model(call) =~= m);
    }
    Ok(call)
}

/// Filling absent flags adds no token values, so well-formedness of the
/// carried tokens is preserved.
proof fn lemma_fill_absents_values_wf(
    sig_named: Seq<(Seq<char>, NamedType)>,
    k: int,
    named: Seq<(Seq<char>, NamedValue)>,
    n: int,
)
    requires
        named_values_wf(named, n),
    ensures
        named_values_wf(spec_fill_absents(sig_named, k, named), n),
    decreases sig_named.len() - k,
{
    if 0 <= k < sig_named.len() {
        let v = if sig_named[k].1 is Switch {
            NamedValue::AbsentSwitch
        } else {
            NamedValue::AbsentValue
        };
        if !has_key(named, sig_named[k].0) {
            crate::imap::lemma_spec_insert_entries(named, sig_named[k].0, v);
            lemma_fill_absents_values_wf(
                sig_named,
                k + 1,
                spec_insert(named, sig_named[k].0, v),
                n,
            );
        } else {
            lemma_fill_absents_values_wf(sig_named, k + 1, named, n);
        }
    }
}

// ---------------------------------------------------------------------------
// The classifier
// ---------------------------------------------------------------------------
/// The mathematical model of one classified command node.
#[verifier::ext_equal]
pub enum ClassifiedModel {
    Internal { name: Seq<char>, name_span: Span, call: CallModel },
    External { name: Seq<char>, name_span: Span, args: Seq<Seq<char>>, args_span: Span },
}

/// The model of a classified command node.
pub open spec fn classified_model(c: ClassifiedCommand) -> ClassifiedModel {
    match c {
        ClassifiedCommand::Internal(ic) => ClassifiedModel::Internal {
            name: ic.name@,
            name_span: ic.name_span,
            call: call_model(ic.args),
        },
        ClassifiedCommand::External(ec) => ClassifiedModel::External {
            name: ec.name@,
            name_span: ec.name_span,
            args: string_views(ec.args.list@),
            args_span: ec.args.span,
        },
    }
}

pub open spec fn classified_models(cs: Seq<ClassifiedCommand>) -> Seq<ClassifiedModel> {
    cs.map_values(|c: ClassifiedCommand| classified_model(c))
}

/// The first position at or after `i` holding a separator token, or the end.
pub open spec fn spec_group_end(toks: Seq<SpannedToken>, i: int) -> int
    decreases toks.len() - i,
{
    if 0 <= i < toks.len() && !(toks[i].item is Separator) {
        spec_group_end(toks, i + 1)
    } else {
        i
    }
}

/// The command name a head token contributes: a string token its
/// quote-stripped content, any other its literal source text.
pub open spec fn spec_render_name(head: SpannedToken, src: Seq<char>) -> Seq<char> {
    match head.item {
        Token::String(inner) => inner.spec_string(src),
        _ => head.span.spec_string(src),
    }
}

/// The span the raw arguments of an external command cover: from the end of
/// the name to the end of the last argument token.
pub open spec fn spec_args_span(head: SpannedToken, tail: Seq<SpannedToken>) -> Span {
    Span {
        start: head.span.end,
        end: if tail.len() > 0 {
            tail[tail.len() - 1].span.end
        } else {
            head.span.end
        },
    }
}

/// What classifying the tokens from `i` on yields: the command nodes in
/// order, or the parse fault of the first call that fails to build. Tokens
/// are split on separators; within a group the first token past any white
/// space names the command, registered names become internal nodes with a
/// structured call, all others external nodes with raw argument strings.
pub open spec fn spec_classify(
    toks: Seq<SpannedToken>,
    i: int,
    src: Seq<char>,
    sigs: Seq<(Seq<char>, Signature)>,
) -> Result<Seq<ClassifiedModel>, (Seq<char>, Span)>
    decreases toks.len() - i,
{
    if !(0 <= i < toks.len()) {
        Ok(Seq::<ClassifiedModel>::empty())
    } else if toks[i].item is Separator || toks[i].item is Whitespace {
        spec_classify(toks, i + 1, src, sigs)
    } else {
        let head = toks[i];
        let e = spec_group_end(toks, i + 1);
        if i < e <= toks.len() {
            let tail = toks.subrange(i + 1, e);
            let name = spec_render_name(head, src);
            match spec_get(sigs, name) {
                Some(sig) => match spec_build_call(sig, head, tail, src) {
                    Err(f) => Err(f),
                    Ok(cm) => match spec_classify(toks, e, src, sigs) {
                        Err(f) => Err(f),
                        Ok(rest) => Ok(
                            seq![
                                ClassifiedModel::Internal {
                                    name,
                                    name_span: head.span,
                                    call: cm,
                                },
                            ] + rest,
                        ),
                    },
                },
                None => match spec_classify(toks, e, src, sigs) {
                    Err(f) => Err(f),
                    Ok(rest) => Ok(
                        seq![
                            ClassifiedModel::External {
                                name,
                                name_span: head.span,
                                args: spec_external_args(tail, 0, src),
                                args_span: spec_args_span(head, tail),
                            },
                        ] + rest,
                    ),
                },
            }
        } else {
            Ok(Seq::<ClassifiedModel>::empty())
        }
    }
}

/// Every internal node of a classified list carries a call whose named keys
/// are distinct and whose tokens lie inside a source of length `n`.
pub open spec fn classified_wf(cs: Seq<ClassifiedCommand>, n: int) -> bool {
    forall|m: int|
        0 <= m < cs.len() ==> ((#[trigger] cs[m]) matches ClassifiedCommand::Internal(ic)
            ==> ic.args.wf() && call_tokens_wf(ic.args, n))
}

fn group_end(toks: &Vec<SpannedToken>, i: usize) -> (j: usize)
    requires
        i <= toks@.len(),
    ensures
        j as int == spec_group_end(toks@, i as int),
        i <= j <= toks@.len(),
    decreases toks@.len() - i,
{
    if i < toks.len() {
        let is_sep = match toks[i].item {
            Token::Separator => true,
            _ => false,
        };
        if is_sep {
            i
        } else {
            group_end(toks, i + 1)
        }
    } else {
        i
    }
}

fn subrange_tokens(toks: &Vec<SpannedToken>, a: usize, b: usize) -> (r: Vec<SpannedToken>)
    requires
        a <= b <= toks@.len(),
    ensures
        r@ == toks@.subrange(a as int, b as int),
{
    let mut out: Vec<SpannedToken> = Vec::new();
    let mut k = a;
    while k < b
        invariant
            a <= k <= b <= toks@.len(),
            out@ =~= toks@.subrange(a as int, k as int),
        decreases b - k,
    {
        out.push(toks[k]);
        k = k + 1;
        proof {
            assert(out@ =~= toks@.subrange(a as int, k as int));
        }
    }
    proof {
        assert(out@ =~= toks@.subrange(a as int, b as int));
    }
    out
}

fn classify_at<C: Command>(
    toks: &Vec<SpannedToken>,
    i: usize,
    source: &str,
    registry: &CommandRegistry<C>,
) -> (r: Result<Vec<ClassifiedCommand>, ShellError>)
    requires
        registry.wf(),
        i <= toks@.len(),
        tokens_wf(toks@, source@.len() as int),
    ensures
        match r {
            Ok(cs) => spec_classify(toks@, i as int, source@, registry.sig_entries()) == Ok::<
                _,
                (Seq<char>, Span),
            >(classified_models(cs@)) && classified_wf(cs@, source@.len() as int),
            Err(e) => spec_classify(toks@, i as int, source@, registry.sig_entries()) matches Err(
                f,
            ) && is_parse_error(e, f.0, f.1),
        },
    decreases toks@.len() - i,
{
    if i >= toks.len() {
        let r: Vec<ClassifiedCommand> = Vec::new();
        proof {
            assert(classified_models(r@) =~= Seq::<ClassifiedModel>::empty());
        }
        return Ok(r);
    }
    let skip = match toks[i].item {
        Token::Separator => true,
        Token::Whitespace => true,
        _ => false,
    };
    if skip {
        return classify_at(toks, i + 1, source, registry);
    }
    let head = toks[i];
    let e = group_end(toks, i + 1);
    let tail = subrange_tokens(toks, i + 1, e);
    proof {
        assert forall|m: int| 0 <= m < tail@.len() implies token_wf(#[trigger] tail@[m], source@.len() as int) by {
            assert(tail@[m] == toks@[i + 1 + m]);
        }
    }
    let name: String = match &head.item {
        Token::String(inner) => inner.string(source),
        _ => head.span.string(source),
    };
    let node: ClassifiedCommand = match registry.get(name.as_str()) {
        Some(sig) => {
            let call = match build_call(sig, head, &tail, source) {
                Ok(c) => c,
                Err(err) => {
                    return Err(err);
                },
            };
            ClassifiedCommand::Internal(InternalCommand::new(name, head.span, call))
        },
        None => {
            let args_span = Span {
                start: head.span.end,
                end: if tail.len() > 0 {
                    tail[tail.len() - 1].span.end
                } else {
                    head.span.end
                },
            };
            let args = ExternalArgs::from_tokens(&tail, source, args_span);
            ClassifiedCommand::External(ExternalCommand::new(name, head.span, args))
        },
    };
    let mut rest = match classify_at(toks, e, source, registry) {
        Ok(cs) => cs,
        Err(err) => {
            return Err(err);
        },
    };
    let ghost rest0 = rest@;
    rest.insert(0, node);
    proof {
        assert(classified_models(rest@) =~= seq![classified_model(node)] + classified_models(
            rest0,
        ));
    }
    Ok(rest)
}

/// Classify a lexed line into a pipeline of command nodes: token groups are
/// split on separators, each group's first token names its command, names
/// the registry resolves become internal commands with structured calls,
/// all others external commands with raw argument strings.
pub fn classify<C: Command>(
    tokens: &Spanned<Vec<SpannedToken>>,
    source: &str,
    registry: &CommandRegistry<C>,
) -> (r: Result<ClassifiedPipeline, ShellError>)
    requires
        registry.wf(),
        tokens_wf(tokens.item@, source@.len() as int),
    ensures
        match r {
            Ok(p) => spec_classify(tokens.item@, 0, source@, registry.sig_entries()) == Ok::<
                _,
                (Seq<char>, Span),
            >(classified_models(p.commands.list@)) && p.commands.span == tokens.span
                && classified_wf(p.commands.list@, source@.len() as int),
            Err(e) => spec_classify(tokens.item@, 0, source@, registry.sig_entries()) matches Err(
                f,
            ) && is_parse_error(e, f.0, f.1),
        },
{
    let list = match classify_at(&tokens.item, 0, source, registry) {
        Ok(cs) => cs,
        Err(e) => {
            return Err(e);
        },
    };
    Ok(ClassifiedPipeline::commands(list, tokens.span))
}

// ---------------------------------------------------------------------------
// Classifying reads the source only inside token spans
// ---------------------------------------------------------------------------
/// Every span a token carries can be read from the first `p` characters of
/// the source: the token's span is well formed and ends by `p`, and its
/// inner span lies inside it.
pub open spec fn tokens_readable(toks: Seq<SpannedToken>, p: int) -> bool {
    forall|m: int|
        0 <= m < toks.len() ==> ((#[trigger] toks[m]).span.wf() && toks[m].span.end <= p
            && token_contained(toks[m]))
}

proof fn lemma_subrange_prefix(s: Seq<char>, p: int, a: int, b: int)
    requires
        0 <= a <= b <= p <= s.len(),
    ensures
        s.subrange(0, p).subrange(a, b) == s.subrange(a, b),
{
    assert(s.subrange(0, p).subrange(a, b) =~= s.subrange(a, b));
}

proof fn lemma_render_name_prefix(head: SpannedToken, s: Seq<char>, p: int)
    requires
        head.span.wf(),
        head.span.end <= p <= s.len(),
        token_contained(head),
    ensures
        spec_render_name(head, s.subrange(0, p)) == spec_render_name(head, s),
{
    match head.item {
        Token::String(inner) => {
            lemma_subrange_prefix(s, p, inner.start as int, inner.end as int);
        },
        _ => {
            lemma_subrange_prefix(s, p, head.span.start as int, head.span.end as int);
        },
    }
}

proof fn lemma_build_tail_prefix(
    sig: Signature,
    toks: Seq<SpannedToken>,
    i: int,
    s: Seq<char>,
    p: int,
    pos: Seq<SpannedToken>,
    named: Seq<(Seq<char>, NamedValue)>,
)
    requires
        0 <= p <= s.len(),
        tokens_readable(toks, p),
    ensures
        spec_build_tail(sig, toks, i, s.subrange(0, p), pos, named) == spec_build_tail(
            sig,
            toks,
            i,
            s,
            pos,
            named,
        ),
    decreases toks.len() - i,
{
    if 0 <= i < toks.len() {
        match toks[i].item {
            Token::Whitespace => {
                lemma_build_tail_prefix(sig, toks, i + 1, s, p, pos, named);
            },
            Token::Separator => {
                lemma_build_tail_prefix(sig, toks, i + 1, s, p, pos, named);
            },
            Token::Flag(name_span) => {
                lemma_subrange_prefix(s, p, name_span.start as int, name_span.end as int);
                let name = name_span.spec_string(s);
                match sig.spec_named_get(name) {
                    None => {},
                    Some(NamedType::Switch) => {
                        lemma_build_tail_prefix(
                            sig,
                            toks,
                            i + 1,
                            s,
                            p,
                            pos,
                            spec_insert(named, name, NamedValue::PresentSwitch(toks[i].span)),
                        );
                    },
                    Some(NamedType::Value(_)) => {
                        let j = spec_next_non_ws(toks, i + 1);
                        if i < j && j < toks.len() {
                            lemma_build_tail_prefix(
                                sig,
                                toks,
                                j + 1,
                                s,
                                p,
                                pos,
                                spec_insert(named, name, NamedValue::Value(toks[j])),
                            );
                        }
                    },
                }
            },
            _ => {
                if pos.len() < sig.positional@.len() || sig.rest_positional is Some {
                    lemma_build_tail_prefix(sig, toks, i + 1, s, p, pos.push(toks[i]), named);
                }
            },
        }
    }
}

proof fn lemma_build_call_prefix(
    sig: Signature,
    head: SpannedToken,
    tail: Seq<SpannedToken>,
    s: Seq<char>,
    p: int,
)
    requires
        0 <= p <= s.len(),
        tokens_readable(tail, p),
    ensures
        spec_build_call(sig, head, tail, s.subrange(0, p)) == spec_build_call(sig, head, tail, s),
{
    lemma_build_tail_prefix(sig, tail, 0, s, p, Seq::empty(), Seq::empty());
}

proof fn lemma_external_args_prefix(toks: Seq<SpannedToken>, i: int, s: Seq<char>, p: int)
    requires
        0 <= p <= s.len(),
        tokens_readable(toks, p),
    ensures
        spec_external_args(toks, i, s.subrange(0, p)) == spec_external_args(toks, i, s),
    decreases toks.len() - i,
{
    if 0 <= i < toks.len() {
        lemma_external_args_prefix(toks, i + 1, s, p);
        match toks[i].item {
            Token::String(inner) => {
                lemma_subrange_prefix(s, p, inner.start as int, inner.end as int);
            },
            Token::Whitespace => {},
            Token::Separator => {},
            _ => {
                lemma_subrange_prefix(s, p, toks[i].span.start as int, toks[i].span.end as int);
            },
        }
    }
}

/// Classification is a function of the tokens, the registered signatures,
/// and the source characters the token spans cover: reading the source
/// through its consumed prefix changes nothing.
pub proof fn lemma_classify_prefix(
    toks: Seq<SpannedToken>,
    i: int,
    s: Seq<char>,
    p: int,
    sigs: Seq<(Seq<char>, Signature)>,
)
    requires
        0 <= p <= s.len(),
        tokens_readable(toks, p),
    ensures
        spec_classify(toks, i, s.subrange(0, p), sigs) == spec_classify(toks, i, s, sigs),
    decreases toks.len() - i,
{
    if 0 <= i < toks.len() {
        if toks[i].item is Separator || toks[i].item is Whitespace {
            lemma_classify_prefix(toks, i + 1, s, p, sigs);
        } else {
            let head = toks[i];
            let e = spec_group_end(toks, i + 1);
            if i < e <= toks.len() {
                let tail = toks.subrange(i + 1, e);
                assert forall|m: int|
                    0 <= m < tail.len() implies ((#[trigger] tail[m]).span.wf()
                    && tail[m].span.end <= p && token_contained(tail[m])) by {
                    assert(tail[m] == toks[i + 1 + m]);
                }
                lemma_render_name_prefix(head, s, p);
                lemma_external_args_prefix(tail, 0, s, p);
                match spec_get(sigs, spec_render_name(head, s)) {
                    Some(sig) => {
                        lemma_build_call_prefix(sig, head, tail, s, p);
                    },
                    None => {},
                }
                lemma_classify_prefix(toks, e, s, p, sigs);
            }
        }
    }
}

} // verus!
