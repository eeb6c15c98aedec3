//! The structured, still-token-valued form of one command invocation: the
//! head token, ordered positional tokens, and an insertion-ordered mapping
//! from flag name to named value.

use vstd::prelude::*;

use indexmap::IndexMap;

use crate::imap::{
    entries_distinct, has_key, key_index, lemma_key_index_unique, lemma_spec_insert_distinct,
    lemma_spec_insert_get, spec_get, spec_insert,
};
use crate::span::{Span, Spanned};
use crate::token::SpannedToken;

verus! {

/// What a declared flag received: a switch that was absent or present, or a
/// value-taking flag that was absent or got a token.
#[derive(Debug, Clone, Copy, PartialEq, Eq, Structural)]
pub enum NamedValue {
    AbsentSwitch,
    PresentSwitch(Span),
    AbsentValue,
    Value(SpannedToken),
}

/// The entries of a named-argument map: its key/value pairs in insertion
/// order, with the keys as character sequences.
pub uninterp spec fn named_entries(m: IndexMap<String, NamedValue>) -> Seq<(Seq<char>, NamedValue)>;

/// Relies on `indexmap::IndexMap::new`: the new map has no entries.
#[verifier::external_body]
fn nv_map_new() -> (m: IndexMap<String, NamedValue>)
    ensures
        named_entries(m) == Seq::<(Seq<char>, NamedValue)>::empty(),
{
    IndexMap::new()
}

/// Relies on `indexmap::IndexMap::insert`: an existing key keeps its place in
/// the order and takes the new value; a new key is appended last.
#[verifier::external_body]
fn nv_map_insert(m: &mut IndexMap<String, NamedValue>, k: String, v: NamedValue)
    ensures
        named_entries(*final(m)) == spec_insert(named_entries(*old(m)), k@, v),
{
    m.insert(k, v);
}

/// Relies on `indexmap::IndexMap::get`: the value stored for an equal key,
/// and nothing for a key no entry holds.
#[verifier::external_body]
fn nv_map_get<'a>(m: &'a IndexMap<String, NamedValue>, k: &str) -> (r: Option<&'a NamedValue>)
    ensures
        match r {
            Some(v) => exists|n: int|
                0 <= n < named_entries(*m).len() && (#[trigger] named_entries(*m)[n]) == (k@, *v),
            None => !has_key(named_entries(*m), k@),
        },
{
    m.get(k)
}

/// Relies on `indexmap::IndexMap::len`: the number of entries.
#[verifier::external_body]
fn nv_map_len(m: &IndexMap<String, NamedValue>) -> (n: usize)
    ensures
        n == named_entries(*m).len(),
{
    m.len()
}

/// Relies on `indexmap::IndexMap::get_index`: the entry at place `n` in
/// insertion order, for `n` below the length.
#[verifier::external_body]
fn nv_map_get_index(m: &IndexMap<String, NamedValue>, n: usize) -> (r: Option<(String, NamedValue)>)
    ensures
        match r {
            Some(p) => n < named_entries(*m).len() && named_entries(*m)[n as int] == (p.0@, p.1),
            None => n >= named_entries(*m).len(),
        },
{
    m.get_index(n).map(|(k, v)| (k.clone(), *v))
}

/// The named arguments of a call: flag name to `NamedValue`, unique keys,
/// insertion order preserved.
#[derive(Debug, Clone, PartialEq, Eq)]
pub struct NamedArguments {
    pub named: IndexMap<String, NamedValue>,
}

impl NamedArguments {
    /// The entries in insertion order.
    pub open spec fn entries(self) -> Seq<(Seq<char>, NamedValue)> {
        named_entries(self.named)
    }

    /// Keys are pairwise distinct; every constructor establishes this and
    /// every method preserves it.
    pub open spec fn wf(self) -> bool {
        entries_distinct(self.entries())
    }

    /// The value stored for `name`.
    pub open spec fn spec_get(self, name: Seq<char>) -> Option<NamedValue> {
        spec_get(self.entries(), name)
    }

    pub fn new() -> (r: NamedArguments)
        ensures
            r.entries() == Seq::<(Seq<char>, NamedValue)>::empty(),
            r.wf(),
    {
        NamedArguments { named: nv_map_new() }
    }

    pub fn get<'a>(&'a self, name: &str) -> (r: Option<&'a NamedValue>)
        requires
            self.wf(),
        ensures
            match r {
                Some(v) => self.spec_get(name@) == Some(*v),
                None => self.spec_get(name@) is None,
            },
    {
        let r = nv_map_get(&self.named, name);
        proof {
            match r {
                Some(v) => {
                    let n = choose|n: int|
                        0 <= n < self.entries().len() && (#[trigger] self.entries()[n]) == (
                        name@,
                        *v,
                        );
                    lemma_key_index_unique(self.entries(), name@, n);
                },
                None => {},
            }
        }
        r
    }

    /// The number of named entries.
    pub fn len(&self) -> (n: usize)
        ensures
            n == self.entries().len(),
    {
        nv_map_len(&self.named)
    }

    /// The entry at place `n` in insertion order.
    pub fn get_index(&self, n: usize) -> (r: Option<(String, NamedValue)>)
        ensures
            match r {
                Some(p) => n < self.entries().len() && self.entries()[n as int] == (p.0@, p.1),
                None => n >= self.entries().len(),
            },
    {
        nv_map_get_index(&self.named, n)
    }

    /// The entries, cloned out in insertion order.
    pub fn iter(&self) -> (r: Vec<(String, NamedValue)>)
        ensures
            r@.len() == self.entries().len(),
            forall|n: int|
                0 <= n < r@.len() ==> self.entries()[n] == ((#[trigger] r@[n]).0@, r@[n].1),
    {
        let len = self.len();
        let mut out: Vec<(String, NamedValue)> = Vec::new();
        let mut n: usize = 0;
        while n < len
            invariant
                n <= len,
                len == self.entries().len(),
                out@.len() == n,
                forall|m: int|
                    0 <= m < n ==> self.entries()[m] == ((#[trigger] out@[m]).0@, out@[m].1),
            decreases len - n,
        {
            match self.get_index(n) {
                Some(p) => {
                    out.push(p);
                },
                None => {
                    proof {
                        assert(false);
                    }
                },
            }
            n = n + 1;
        }
        out
    }

    fn insert(&mut self, name: String, value: NamedValue)
        requires
            old(self).wf(),
        ensures
            final(self).entries() == spec_insert(old(self).entries(), name@, value),
            final(self).wf(),
            final(self).spec_get(name@) == Some(value),
            forall|k2: Seq<char>|
                k2 != name@ ==> #[trigger] final(self).spec_get(k2) == old(self).spec_get(k2),
    {
        proof {
            lemma_spec_insert_distinct(self.entries(), name@, value);
            lemma_spec_insert_get(self.entries(), name@, value);
        }
        nv_map_insert(&mut self.named, name, value);
    }

    /// Record a switch flag: present at the given span, or absent.
    pub fn insert_switch(&mut self, name: String, switch: Option<Span>)
        requires
            old(self).wf(),
        ensures
            final(self).entries() == spec_insert(
                old(self).entries(),
                name@,
                match switch {
                    None => NamedValue::AbsentSwitch,
                    Some(flag) => NamedValue::PresentSwitch(flag),
                },
            ),
            final(self).wf(),
    {
        match switch {
            None => self.insert(name, NamedValue::AbsentSwitch),
            Some(flag) => self.insert(name, NamedValue::PresentSwitch(flag)),
        }
    }

    /// Record a value-taking flag that may not have been supplied.
    pub fn insert_optional(&mut self, name: String, expr: Option<SpannedToken>)
        requires
            old(self).wf(),
        ensures
            final(self).entries() == spec_insert(
                old(self).entries(),
                name@,
                match expr {
                    None => NamedValue::AbsentValue,
                    Some(tok) => NamedValue::Value(tok),
                },
            ),
            final(self).wf(),
    {
        match expr {
            None => self.insert(name, NamedValue::AbsentValue),
            Some(tok) => self.insert(name, NamedValue::Value(tok)),
        }
    }

    /// Record a value-taking flag that was supplied.
    pub fn insert_mandatory(&mut self, name: String, expr: SpannedToken)
        requires
            old(self).wf(),
        ensures
            final(self).entries() == spec_insert(
                old(self).entries(),
                name@,
                NamedValue::Value(expr),
            ),
            final(self).wf(),
    {
        self.insert(name, NamedValue::Value(expr));
    }
}

/// One command invocation, still as tokens: the head (command-name) token,
/// the positional argument tokens, the named arguments, and the overall span.
#[derive(Debug, Clone, PartialEq, Eq)]
pub struct Call {
    pub head: SpannedToken,
    pub positional: Option<Vec<SpannedToken>>,
    pub named: Option<NamedArguments>,
    pub span: Span,
}

impl Call {
    /// The named arguments keep their keys distinct.
    pub open spec fn wf(self) -> bool {
        match self.named {
            Some(n) => n.wf(),
            None => true,
        }
    }

    /// Whether the named arguments record `switch` as a present switch.
    pub open spec fn spec_switch_present(self, switch: Seq<char>) -> bool {
        match self.named {
            None => false,
            Some(n) => n.spec_get(switch) matches Some(NamedValue::PresentSwitch(_)),
        }
    }

    pub fn switch_present(&self, switch: &str) -> (r: bool)
        requires
            self.wf(),
        ensures
            r == self.spec_switch_present(switch@),
    {
        match &self.named {
            None => false,
            Some(n) => match n.get(switch) {
                Some(NamedValue::PresentSwitch(_)) => true,
                _ => false,
            },
        }
    }
}

} // verus!
