//! The evaluator: converts a call's tokens into runtime values. String
//! tokens evaluate to their quote-stripped content, bare words, glob patterns
//! and external words to their literal source text; a present switch becomes
//! the boolean true; absent named arguments are omitted. Token categories
//! that cannot stand alone as values fail with a runtime error.

use vstd::prelude::*;

use indexmap::IndexMap;

use crate::error::{ProximateShellError, ShellError};
use crate::hir::{Call, NamedValue};
use crate::imap::{entries_distinct, has_key, spec_insert};
use crate::parser::{token_wf, tokens_wf};
use crate::token::{SpannedToken, Token};
use crate::value::{value_model, Value, ValueModel};

verus! {

// ---------------------------------------------------------------------------
// The evaluated named map and its trusted surface
// ---------------------------------------------------------------------------
/// The entries of an evaluated named map: its key/value pairs in insertion
/// order, with the keys as character sequences.
pub uninterp spec fn value_entries(m: IndexMap<String, Value>) -> Seq<(Seq<char>, Value)>;

/// Relies on `indexmap::IndexMap::new`: the new map has no entries.
#[verifier::external_body]
fn val_map_new() -> (m: IndexMap<String, Value>)
    ensures
        value_entries(m) == Seq::<(Seq<char>, Value)>::empty(),
{
    IndexMap::new()
}

/// Relies on `indexmap::IndexMap::insert`: an existing key keeps its place in
/// the order and takes the new value; a new key is appended last.
#[verifier::external_body]
fn val_map_insert(m: &mut IndexMap<String, Value>, k: String, v: Value)
    ensures
        value_entries(*final(m)) == spec_insert(value_entries(*old(m)), k@, v),
{
    m.insert(k, v);
}

/// Relies on `indexmap::IndexMap::get`: the value stored for an equal key,
/// and nothing for a key no entry holds.
#[verifier::external_body]
fn val_map_get<'a>(m: &'a IndexMap<String, Value>, k: &str) -> (r: Option<&'a Value>)
    ensures
        match r {
            Some(v) => exists|n: int|
                0 <= n < value_entries(*m).len() && (#[trigger] value_entries(*m)[n]) == (k@, *v),
            None => !has_key(value_entries(*m), k@),
        },
{
    m.get(k)
}

/// The models of a sequence of values.
pub open spec fn models_of(s: Seq<Value>) -> Seq<ValueModel> {
    s.map_values(|v: Value| value_model(v))
}

/// The models of a sequence of named entries.
pub open spec fn entry_models_of(es: Seq<(Seq<char>, Value)>) -> Seq<(Seq<char>, ValueModel)> {
    es.map_values(|e: (Seq<char>, Value)| (e.0, value_model(e.1)))
}

// ---------------------------------------------------------------------------
// Evaluated arguments
// ---------------------------------------------------------------------------
/// The evaluated form of a call: positional values in order, and named
/// values keyed by flag name in insertion order.
#[derive(Debug, Clone, PartialEq, Eq)]
pub struct EvaluatedArgs {
    pub positional: Option<Vec<Value>>,
    pub named: Option<IndexMap<String, Value>>,
}

impl EvaluatedArgs {
    /// The named entries, or none.
    pub open spec fn named_entries_of(self) -> Seq<(Seq<char>, Value)> {
        match self.named {
            Some(m) => value_entries(m),
            None => Seq::<(Seq<char>, Value)>::empty(),
        }
    }

    /// The named keys stay pairwise distinct.
    pub open spec fn wf(self) -> bool {
        entries_distinct(self.named_entries_of())
    }

    pub fn new(positional: Option<Vec<Value>>, named: Option<IndexMap<String, Value>>) -> (r:
        EvaluatedArgs)
        ensures
            r == (EvaluatedArgs { positional, named }),
    {
        EvaluatedArgs { positional, named }
    }

    /// The named value stored for `name`, if any.
    pub fn get_named<'a>(&'a self, name: &str) -> (r: Option<&'a Value>)
        requires
            self.wf(),
        ensures
            match r {
                Some(v) => crate::imap::spec_get(self.named_entries_of(), name@) == Some(*v),
                None => crate::imap::spec_get(self.named_entries_of(), name@) is None,
            },
    {
        match &self.named {
            None => None,
            Some(m) => {
                let r = val_map_get(m, name);
                proof {
                    match r {
                        Some(v) => {
                            let n = choose|n: int|
                                0 <= n < value_entries(*m).len() && (#[trigger] value_entries(
                                    *m,
                                )[n]) == (name@, *v);
                            crate::imap::lemma_key_index_unique(value_entries(*m), name@, n);
                        },
                        None => {},
                    }
                }
                r
            },
        }
    }
}

/// The evaluated call handed to a command.
#[derive(Debug, Clone)]
pub struct CallInfo {
    pub args: EvaluatedArgs,
}

// ---------------------------------------------------------------------------
// Evaluation, at the specification level
// ---------------------------------------------------------------------------
/// What evaluating one token yields: the model of its value, or the message
/// of the runtime error.
pub open spec fn spec_evaluate_expr(tok: SpannedToken, src: Seq<char>) -> Result<
    ValueModel,
    Seq<char>,
> {
    match tok.item {
        Token::String(inner) => Ok(ValueModel::String(inner.spec_string(src))),
        Token::Bare => Ok(ValueModel::String(tok.span.spec_string(src))),
        Token::GlobPattern => Ok(ValueModel::String(tok.span.spec_string(src))),
        Token::ExternalWord => Ok(ValueModel::String(tok.span.spec_string(src))),
        Token::Flag(_) => Err("unexpected flag"@),
        Token::Whitespace => Err("unexpected whitespace"@),
        Token::Separator => Err("unexpected separator"@),
    }
}

/// What evaluating the positional tokens from `i` on yields: their values in
/// order, stopped by the first error.
pub open spec fn spec_eval_positional(toks: Seq<SpannedToken>, i: int, src: Seq<char>) -> Result<
    Seq<ValueModel>,
    Seq<char>,
>
    decreases toks.len() - i,
{
    if !(0 <= i < toks.len()) {
        Ok(Seq::<ValueModel>::empty())
    } else {
        match spec_evaluate_expr(toks[i], src) {
            Err(m) => Err(m),
            Ok(v) => match spec_eval_positional(toks, i + 1, src) {
                Err(m) => Err(m),
                Ok(rest) => Ok(seq![v] + rest),
            },
        }
    }
}

/// What evaluating the named entries from `i` on yields: a present switch
/// becomes the boolean true, a supplied value is evaluated, absent entries
/// are omitted; the first error stops evaluation.
pub open spec fn spec_eval_named(
    es: Seq<(Seq<char>, NamedValue)>,
    i: int,
    src: Seq<char>,
) -> Result<Seq<(Seq<char>, ValueModel)>, Seq<char>>
    decreases es.len() - i,
{
    if !(0 <= i < es.len()) {
        Ok(Seq::<(Seq<char>, ValueModel)>::empty())
    } else {
        match es[i].1 {
            NamedValue::PresentSwitch(_) => match spec_eval_named(es, i + 1, src) {
                Err(m) => Err(m),
                Ok(rest) => Ok(seq![(es[i].0, ValueModel::Boolean(true))] + rest),
            },
            NamedValue::Value(tok) => match spec_evaluate_expr(tok, src) {
                Err(m) => Err(m),
                Ok(v) => match spec_eval_named(es, i + 1, src) {
                    Err(m) => Err(m),
                    Ok(rest) => Ok(seq![(es[i].0, v)] + rest),
                },
            },
            NamedValue::AbsentSwitch => spec_eval_named(es, i + 1, src),
            NamedValue::AbsentValue => spec_eval_named(es, i + 1, src),
        }
    }
}

/// What evaluating a whole call yields.
pub open spec fn spec_evaluate_args(call: Call, src: Seq<char>) -> Result<
    (Option<Seq<ValueModel>>, Option<Seq<(Seq<char>, ValueModel)>>),
    Seq<char>,
> {
    let positional = match call.positional {
        None => Ok(None),
        Some(p) => match spec_eval_positional(p@, 0, src) {
            Err(m) => Err(m),
            Ok(vs) => Ok(Some(vs)),
        },
    };
    match positional {
        Err(m) => Err(m),
        Ok(pos) => match call.named {
            None => Ok((pos, None)),
            Some(named) => match spec_eval_named(named.entries(), 0, src) {
                Err(m) => Err(m),
                Ok(es) => Ok((pos, Some(es))),
            },
        },
    }
}

/// All token spans a call carries lie inside a source of length `n`.
pub open spec fn call_tokens_wf(call: Call, n: int) -> bool {
    &&& match call.positional {
        Some(p) => tokens_wf(p@, n),
        None => true,
    }
    &&& match call.named {
        Some(named) => forall|m: int|
            0 <= m < named.entries().len() ==> ((#[trigger] named.entries()[m]).1 matches
            NamedValue::Value(tok) ==> token_wf(tok, n)),
        None => true,
    }
}

/// An error as the evaluator reports it: a fresh runtime error carrying the
/// given message.
pub open spec fn is_runtime_error(e: ShellError, msg: Seq<char>) -> bool {
    &&& e.error matches ProximateShellError::RuntimeError(m) && m@ == msg
    &&& e.cause is None
}

// ---------------------------------------------------------------------------
// Evaluation, executable
// ---------------------------------------------------------------------------
/// Evaluate one token into a runtime value.
fn evaluate_expr(spanned: &SpannedToken, source: &str) -> (r: Result<Value, ShellError>)
    requires
        token_wf(*spanned, source@.len() as int),
    ensures
        match r {
            Ok(v) => spec_evaluate_expr(*spanned, source@) == Ok::<ValueModel, Seq<char>>(v@),
            Err(e) => spec_evaluate_expr(*spanned, source@) matches Err(m) && is_runtime_error(
                e,
                m,
            ),
        },
{
    match &spanned.item {
        Token::String(s) => Ok(Value::String(s.string(source))),
        Token::Bare => Ok(Value::String(spanned.span.string(source))),
        Token::GlobPattern => Ok(Value::String(spanned.span.string(source))),
        Token::ExternalWord => Ok(Value::String(spanned.span.string(source))),
        _ => {
            proof {
                reveal_strlit("unexpected ");
                reveal_strlit("flag");
                reveal_strlit("whitespace");
                reveal_strlit("separator");
                reveal_strlit("unexpected flag");
                reveal_strlit("unexpected whitespace");
                reveal_strlit("unexpected separator");
            }
            let mut msg = String::from_str("unexpected ");
            msg.append(spanned.item.desc());
            proof {
                assert(spec_evaluate_expr(*spanned, source@) matches Err(m) && msg@ =~= m);
            }
            Err(ShellError::runtime_error(msg))
        },
    }
}

fn eval_positional(toks: &Vec<SpannedToken>, i: usize, source: &str) -> (r: Result<
    Vec<Value>,
    ShellError,
>)
    requires
        i <= toks@.len(),
        tokens_wf(toks@, source@.len() as int),
    ensures
        match r {
            Ok(vs) => spec_eval_positional(toks@, i as int, source@) == Ok::<_, Seq<char>>(
                models_of(vs@),
            ),
            Err(e) => spec_eval_positional(toks@, i as int, source@) matches Err(m)
                && is_runtime_error(e, m),
        },
    decreases toks@.len() - i,
{
    if i >= toks.len() {
        let r: Vec<Value> = Vec::new();
        proof {
            assert(models_of(r@) =~= Seq::<ValueModel>::empty());
        }
        Ok(r)
    } else {
        let v = match evaluate_expr(&toks[i], source) {
            Ok(v) => v,
            Err(e) => {
                return Err(e);
            },
        };
        match eval_positional(toks, i + 1, source) {
            Ok(mut rest) => {
                let ghost rest0 = rest@;
                rest.insert(0, v);
                proof {
                    assert(models_of(rest@) =~= seq![value_model(v)] + models_of(rest0));
                }
                Ok(rest)
            },
            Err(e) => Err(e),
        }
    }
}

/// Evaluate a call's tokens into runtime values. The call's flag names keep
/// their order and their distinctness.
#[verifier::loop_isolation(false)]
pub fn evaluate_args(call: Call, source: &str) -> (r: Result<EvaluatedArgs, ShellError>)
    requires
        call.wf(),
        call_tokens_wf(call, source@.len() as int),
    ensures
        match r {
            Ok(args) => spec_evaluate_args(call, source@) matches Ok(m) && ({
                &&& match args.positional {
                    Some(vs) => m.0 == Some(models_of(vs@)),
                    None => m.0 is None,
                }
                &&& match args.named {
                    Some(named) => m.1 == Some(entry_models_of(value_entries(named))),
                    None => m.1 is None,
                }
                &&& args.wf()
            }),
            Err(e) => spec_evaluate_args(call, source@) matches Err(m) && is_runtime_error(e, m),
        },
{
    let positional: Option<Vec<Value>> = match &call.positional {
        None => None,
        Some(p) => match eval_positional(p, 0, source) {
            Ok(vs) => Some(vs),
            Err(e) => {
                return Err(e);
            },
        },
    };
    let named: Option<IndexMap<String, Value>> = match &call.named {
        None => None,
        Some(named_args) => {
            let entries = named_args.iter();
            let ghost es = named_args.entries();
            let mut out = val_map_new();
            let mut n: usize = 0;
            let len = entries.len();
            proof {
                assert(entry_models_of(value_entries(out)) =~= Seq::<(
                    Seq<char>,
                    ValueModel,
                )>::empty());
            }
            while n < len
                invariant
                    n <= len,
                    len == es.len(),
                    entries@.len() == es.len(),
                    forall|m: int|
                        0 <= m < es.len() ==> es[m] == ((#[trigger] entries@[m]).0@, entries@[m].1),
                    entries_distinct(es),
                    entries_distinct(value_entries(out)),
                    forall|m: int|
                        0 <= m < es.len() ==> ((#[trigger] es[m]).1 matches NamedValue::Value(tok)
                            ==> token_wf(tok, source@.len() as int)),
                    forall|k: Seq<char>|
                        has_key(value_entries(out), k) ==> exists|m: int|
                            0 <= m < n && (#[trigger] es[m]).0 == k,
                    spec_eval_named(es, 0, source@) == (match spec_eval_named(
                        es,
                        n as int,
                        source@,
                    ) {
                        Ok(rest) => Ok::<_, Seq<char>>(
                            entry_models_of(value_entries(out)) + rest,
                        ),
                        Err(m) => Err(m),
                    }),
                decreases len - n,
            {
                let pair = &entries[n];
                let ghost out0 = value_entries(out);
                match &pair.1 {
                    NamedValue::PresentSwitch(_) => {
                        insert_fresh(&mut out, pair.0.clone(), Value::Boolean(true), Ghost(es), Ghost(n as int));
                        proof {
                            step_compose(es, n as int, source@, out0, value_entries(out), ValueModel::Boolean(true));
                        }
                    },
                    NamedValue::Value(tok) => {
                        match evaluate_expr(tok, source) {
                            Ok(v) => {
                                let ghost vm = value_model(v);
                                insert_fresh(&mut out, pair.0.clone(), v, Ghost(es), Ghost(n as int));
                                proof {
                                    step_compose(es, n as int, source@, out0, value_entries(out), vm);
                                }
                            },
                            Err(e) => {
                                proof {
                                    assert(spec_eval_named(es, 0, source@) matches Err(m) && is_runtime_error(e, m));
                                }
                                return Err(e);
                            },
                        }
                    },
                    NamedValue::AbsentSwitch => {
                    },
                    NamedValue::AbsentValue => {
                    },
                }
                n = n + 1;
            }
            proof {
                assert(spec_eval_named(es, len as int, source@) == Ok::<_, Seq<char>>(
                    Seq::<(Seq<char>, ValueModel)>::empty(),
                ));
                assert(entry_models_of(value_entries(out)) + Seq::<(
                    Seq<char>,
                    ValueModel,
                )>::empty() =~= entry_models_of(value_entries(out)));
            }
            Some(out)
        },
    };
    Ok(EvaluatedArgs::new(positional, named))
}

/// Insert an entry whose key no entry of `out` holds yet: it is appended.
fn insert_fresh(
    out: &mut IndexMap<String, Value>,
    key: String,
    v: Value,
    Ghost(es): Ghost<Seq<(Seq<char>, NamedValue)>>,
    Ghost(n): Ghost<int>,
)
    requires
        entries_distinct(value_entries(*old(out))),
        entries_distinct(es),
        0 <= n < es.len(),
        es[n].0 == key@,
        forall|k: Seq<char>|
            has_key(value_entries(*old(out)), k) ==> exists|m: int|
                0 <= m < n && (#[trigger] es[m]).0 == k,
    ensures
        value_entries(*final(out)) == value_entries(*old(out)).push((key@, v)),
        entries_distinct(value_entries(*final(out))),
        entry_models_of(value_entries(*final(out))) =~= entry_models_of(value_entries(*old(out)))
            + seq![(key@, value_model(v))],
        forall|k: Seq<char>|
            has_key(value_entries(*final(out)), k) ==> exists|m: int|
                0 <= m < n + 1 && (#[trigger] es[m]).0 == k,
{
    proof {
        if has_key(value_entries(*out), key@) {
            let m = choose|m: int| 0 <= m < n && (#[trigger] es[m]).0 == key@;
            assert(es[m].0 == es[n].0);
            assert(false);
        }
        crate::imap::lemma_spec_insert_distinct(value_entries(*out), key@, v);
    }
    val_map_insert(out, key, v);
    proof {
        let es2 = value_entries(*final(out));
        let es1 = value_entries(*old(out));
        assert(es2 == es1.push((key@, v)));
        assert forall|k: Seq<char>| has_key(es2, k) implies exists|m: int|
            0 <= m < n + 1 && (#[trigger] es[m]).0 == k by {
            let j = choose|j: int| 0 <= j < es2.len() && (#[trigger] es2[j]).0 == k;
            if j < es1.len() {
                assert(es2[j] == es1[j]);
                assert(has_key(es1, k));
            } else {
                assert(es2[j] == (key@, v));
                assert(es[n].0 == k);
            }
        }
    }
}

/// One step of named evaluation composes: consuming the kept entry at `n`
/// extends the accumulated entries by one pair.
proof fn step_compose(
    es: Seq<(Seq<char>, NamedValue)>,
    n: int,
    src: Seq<char>,
    out0: Seq<(Seq<char>, Value)>,
    out1: Seq<(Seq<char>, Value)>,
    vm: ValueModel,
)
    requires
        0 <= n < es.len(),
        entry_models_of(out1) =~= entry_models_of(out0) + seq![(es[n].0, vm)],
        match es[n].1 {
            NamedValue::PresentSwitch(_) => vm == ValueModel::Boolean(true),
            NamedValue::Value(tok) => spec_evaluate_expr(tok, src) == Ok::<_, Seq<char>>(vm),
            _ => false,
        },
        spec_eval_named(es, 0, src) == (match spec_eval_named(es, n, src) {
            Ok(rest) => Ok::<_, Seq<char>>(entry_models_of(out0) + rest),
            Err(m) => Err(m),
        }),
    ensures
        spec_eval_named(es, 0, src) == (match spec_eval_named(es, n + 1, src) {
            Ok(rest) => Ok::<_, Seq<char>>(entry_models_of(out1) + rest),
            Err(m) => Err(m),
        }),
{
    match spec_eval_named(es, n + 1, src) {
        Ok(rest) => {
            assert(entry_models_of(out0) + (seq![(es[n].0, vm)] + rest) =~= entry_models_of(out1)
                + rest);
        },
        Err(m) => {},
    }
}

} // verus!
