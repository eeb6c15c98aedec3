//! Laws that relate the components: proved here from the contracts the
//! functions themselves carry, so a reader sees them stated, not inferred.

use vstd::prelude::*;

use crate::classify::{lemma_classify_prefix, spec_classify, tokens_readable};
use crate::evaluate::spec_evaluate_expr;
use crate::parser::{
    lemma_scan_while_exact, lemma_spec_token_list_chain, lemma_token_list_prefix, quote_pred, sp,
    spec_token_list, stok,
};
use crate::signature::Signature;
use crate::token::Token;
use crate::value::{spec_value_string, value_model, Value, ValueModel};

verus! {

/// Round trip: the literal string form of a string value, put back between
/// quotes, lexes to exactly one string token, and evaluating that token
/// reproduces the value — no character is escaped twice. Holds for every
/// string without a quote character of its own.
pub proof fn lemma_string_value_round_trip(s: Seq<char>)
    requires
        forall|k: int| 0 <= k < s.len() ==> s[k] != '\'',
        s.len() + 2 <= usize::MAX,
    ensures
        ({
            let line = seq!['\''] + s + seq!['\''];
            let (e, toks) = spec_token_list(line, 0);
            &&& e == s.len() + 2
            &&& toks =~= seq![
                stok(Token::String(sp(1, s.len() as int + 1)), 0, s.len() as int + 2),
            ]
            &&& spec_evaluate_expr(toks[0], line) == Ok::<ValueModel, Seq<char>>(
                ValueModel::String(s),
            )
        }),
{
    let line = seq!['\''] + s + seq!['\''];
    let n = s.len() as int;
    assert(line.len() == n + 2);
    assert(line[0] == '\'');
    assert(line[n + 1] == '\'');
    assert forall|k: int| 1 <= k < n + 1 implies quote_pred('\'')(line[k]) by {
        assert(line[k] == s[k - 1]);
    }
    assert(!quote_pred('\'')(line[n + 1]));
    lemma_scan_while_exact(line, 1, n + 1, quote_pred('\''));
    let tok = stok(Token::String(sp(1, n + 1)), 0, n + 2);
    assert(crate::parser::spec_sq_string(line, 0) == Some((n + 2, tok)));
    assert(crate::parser::spec_node(line, 0) == Some((n + 2, tok)));
    assert(crate::parser::spec_whitespace(line, n + 2) is None);
    assert(crate::parser::spec_separator(line, n + 2) is None);
    assert(crate::parser::spec_any_space(line, n + 2) is None);
    let (e, toks) = spec_token_list(line, 0);
    assert(e == n + 2 && toks == seq![tok]);
    assert(sp(1, n + 1).spec_string(line) =~= s);
}

/// The round trip, phrased over a string value itself: the value's literal
/// string form, put back between quotes, lexes to one token, and evaluating
/// that token reproduces the value's own model.
pub proof fn lemma_string_value_round_trip_for_value(v: Value)
    requires
        v is String,
        forall|k: int| 0 <= k < spec_value_string(v).len() ==> spec_value_string(v)[k] != '\'',
        spec_value_string(v).len() + 2 <= usize::MAX,
    ensures
        ({
            let line = seq!['\''] + spec_value_string(v) + seq!['\''];
            let (e, toks) = spec_token_list(line, 0);
            &&& e == spec_value_string(v).len() + 2
            &&& toks.len() == 1
            &&& spec_evaluate_expr(toks[0], line) == Ok::<ValueModel, Seq<char>>(value_model(v))
        }),
{
    lemma_string_value_round_trip(spec_value_string(v));
    assert(spec_value_string(v) == v->String_0@);
    assert(value_model(v) == ValueModel::String(v->String_0@));
}

/// Idempotence: a classified pipeline, written back out as the source text
/// its consumed span covers, lexes to the same tokens — consuming all of
/// that text — and classifies to the same pipeline against the same
/// registered signatures. The lexer never reads past what it consumes, and
/// classification reads the source only inside token spans.
pub proof fn lemma_classify_idempotent(src: Seq<char>, sigs: Seq<(Seq<char>, Signature)>)
    requires
        src.len() <= usize::MAX,
    ensures
        ({
            let (e, toks) = spec_token_list(src, 0);
            let reserialized = sp(0, e).spec_string(src);
            &&& spec_token_list(reserialized, 0) == (e, toks)
            &&& spec_classify(spec_token_list(reserialized, 0).1, 0, reserialized, sigs)
                == spec_classify(toks, 0, src, sigs)
        }),
{
    let (e, toks) = spec_token_list(src, 0);
    lemma_spec_token_list_chain(src, 0);
    let reserialized = sp(0, e).spec_string(src);
    assert(reserialized =~= src.subrange(0, e));
    lemma_token_list_prefix(src, e, 0);
    assert(tokens_readable(toks, e)) by {
        assert(crate::parser::spans_chained(toks, 0, e));
        assert(crate::parser::tokens_contained(toks));
    }
    lemma_classify_prefix(toks, 0, src, e, sigs);
}

} // verus!
