//! A command's declared parameter shape: ordered positional parameters, an
//! optional rest parameter collecting the remaining positionals, and named
//! flags. The call builder consumes a token stream against it, and the binder
//! drives field binding from it.

use vstd::prelude::*;

use crate::imap::{entries_distinct, has_key, lemma_key_index_unique, spec_get};

verus! {

/// The shape a parameter's value is expected to take.
#[derive(Debug, Clone, Copy, PartialEq, Eq, Structural)]
pub enum SyntaxShape {
    Any,
    String,
    Int,
    Path,
    Pattern,
}

/// A positional parameter: its name and shape, required or optional.
#[derive(Debug, Clone, PartialEq, Eq)]
pub enum PositionalType {
    Mandatory(String, SyntaxShape),
    Optional(String, SyntaxShape),
}

impl PositionalType {
    pub open spec fn spec_name(self) -> Seq<char> {
        match self {
            PositionalType::Mandatory(name, _) => name@,
            PositionalType::Optional(name, _) => name@,
        }
    }

    pub open spec fn is_mandatory(self) -> bool {
        self is Mandatory
    }

    /// The parameter's declared name.
    pub fn name(&self) -> (r: &String)
        ensures
            r@ == self.spec_name(),
    {
        match self {
            PositionalType::Mandatory(name, _) => name,
            PositionalType::Optional(name, _) => name,
        }
    }
}

/// What a named flag takes: nothing (a switch) or a value of a shape.
#[derive(Debug, Clone, Copy, PartialEq, Eq, Structural)]
pub enum NamedType {
    Switch,
    Value(SyntaxShape),
}

/// A command's declared parameter shape.
#[derive(Debug, Clone, PartialEq, Eq)]
pub struct Signature {
    pub name: String,
    pub usage: String,
    pub positional: Vec<(PositionalType, String)>,
    pub rest_positional: Option<(SyntaxShape, String)>,
    pub named: Vec<(String, NamedType, String)>,
}

impl Signature {
    /// The named flags as key/kind entries, in declaration order.
    pub open spec fn named_entries(self) -> Seq<(Seq<char>, NamedType)> {
        self.named@.map_values(|e: (String, NamedType, String)| (e.0@, e.1))
    }

    /// Flag names are pairwise distinct.
    pub open spec fn wf(self) -> bool {
        entries_distinct(self.named_entries())
    }

    /// The kind of the declared flag `name`, if any.
    pub open spec fn spec_named_get(self, name: Seq<char>) -> Option<NamedType> {
        spec_get(self.named_entries(), name)
    }

    /// A signature with the given command name and no parameters.
    pub fn new(name: String) -> (r: Signature)
        ensures
            r.name == name,
            r.usage@ == Seq::<char>::empty(),
            r.positional@ == Seq::<(PositionalType, String)>::empty(),
            r.rest_positional is None,
            r.named@ == Seq::<(String, NamedType, String)>::empty(),
            r.wf(),
    {
        let r = Signature {
            name,
            usage: String::new(),
            positional: Vec::new(),
            rest_positional: None,
            named: Vec::new(),
        };
        proof {
            assert(r.named_entries() =~= Seq::<(Seq<char>, NamedType)>::empty());
        }
        r
    }

    /// A signature under construction, starting from the command name.
    pub fn build(name: &str) -> (r: Signature)
        ensures
            r.name@ == name@,
            r.usage@ == Seq::<char>::empty(),
            r.positional@ == Seq::<(PositionalType, String)>::empty(),
            r.rest_positional is None,
            r.named@ == Seq::<(String, NamedType, String)>::empty(),
            r.wf(),
    {
        Signature::new(String::from_str(name))
    }

    /// Set the one-line usage description.
    pub fn desc(self, usage: &str) -> (r: Signature)
        ensures
            r == (Signature { usage: r.usage, ..self }),
            r.usage@ == usage@,
    {
        Signature { usage: String::from_str(usage), ..self }
    }

    /// Append a required positional parameter.
    pub fn required(self, name: &str, shape: SyntaxShape, desc: &str) -> (r: Signature)
        ensures
            r == (Signature { positional: r.positional, ..self }),
            r.positional@.len() == self.positional@.len() + 1,
            r.positional@.last().0.spec_name() == name@,
            r.positional@.last().0 is Mandatory,
            r.positional@.last().0->Mandatory_1 == shape,
            r.positional@.last().1@ == desc@,
            forall|n: int| 0 <= n < self.positional@.len() ==> r.positional@[n] == self.positional@[n],
    {
        let mut positional = self.positional;
        positional.push((PositionalType::Mandatory(String::from_str(name), shape), String::from_str(desc)));
        Signature { positional, ..self }
    }

    /// Append an optional positional parameter.
    pub fn optional(self, name: &str, shape: SyntaxShape, desc: &str) -> (r: Signature)
        ensures
            r == (Signature { positional: r.positional, ..self }),
            r.positional@.len() == self.positional@.len() + 1,
            r.positional@.last().0.spec_name() == name@,
            r.positional@.last().0 is Optional,
            r.positional@.last().0->Optional_1 == shape,
            r.positional@.last().1@ == desc@,
            forall|n: int| 0 <= n < self.positional@.len() ==> r.positional@[n] == self.positional@[n],
    {
        let mut positional = self.positional;
        positional.push((PositionalType::Optional(String::from_str(name), shape), String::from_str(desc)));
        Signature { positional, ..self }
    }

    /// Declare the rest parameter: it collects every remaining positional.
    pub fn rest(self, shape: SyntaxShape, desc: &str) -> (r: Signature)
        ensures
            r == (Signature { rest_positional: r.rest_positional, ..self }),
            r.rest_positional matches Some(p) && p.0 == shape && p.1@ == desc@,
    {
        Signature { rest_positional: Some((shape, String::from_str(desc))), ..self }
    }

    /// Append a switch flag, provided its name is new.
    pub fn switch(self, name: &str, desc: &str) -> (r: Signature)
        requires
            self.wf(),
            !has_key(self.named_entries(), name@),
        ensures
            r == (Signature { named: r.named, ..self }),
            r.named_entries() == self.named_entries().push((name@, NamedType::Switch)),
            r.wf(),
    {
        let mut named = self.named;
        named.push((String::from_str(name), NamedType::Switch, String::from_str(desc)));
        let r = Signature { named, ..self };
        proof {
            assert(r.named_entries() =~= self.named_entries().push((name@, NamedType::Switch)));
            lemma_push_distinct(self.named_entries(), name@, NamedType::Switch);
        }
        r
    }

    /// Append a value-taking flag, provided its name is new.
    pub fn named(self, name: &str, shape: SyntaxShape, desc: &str) -> (r: Signature)
        requires
            self.wf(),
            !has_key(self.named_entries(), name@),
        ensures
            r == (Signature { named: r.named, ..self }),
            r.named_entries() == self.named_entries().push((name@, NamedType::Value(shape))),
            r.wf(),
    {
        let mut named = self.named;
        named.push((String::from_str(name), NamedType::Value(shape), String::from_str(desc)));
        let r = Signature { named, ..self };
        proof {
            assert(r.named_entries() =~= self.named_entries().push((name@, NamedType::Value(shape))));
            lemma_push_distinct(self.named_entries(), name@, NamedType::Value(shape));
        }
        r
    }

    /// The kind of the declared flag `name`, if any.
    pub fn get_named(&self, name: &str) -> (r: Option<NamedType>)
        requires
            self.wf(),
        ensures
            r == self.spec_named_get(name@),
    {
        let key = String::from_str(name);
        let len = self.named.len();
        let mut n: usize = 0;
        while n < len
            invariant
                n <= len,
                len == self.named@.len(),
                self.wf(),
                key@ == name@,
                forall|m: int| 0 <= m < n ==> (#[trigger] self.named_entries()[m]).0 != name@,
            decreases len - n,
        {
            let entry = &self.named[n];
            if entry.0.eq(&key) {
                proof {
                    assert(self.named_entries()[n as int] == (entry.0@, entry.1));
                    lemma_key_index_unique(self.named_entries(), name@, n as int);
                }
                return Some(entry.1);
            }
            proof {
                assert(self.named_entries()[n as int] == (entry.0@, entry.1));
            }
            n = n + 1;
        }
        proof {
            assert(!has_key(self.named_entries(), name@));
        }
        None
    }
}

proof fn lemma_push_distinct(es: Seq<(Seq<char>, NamedType)>, k: Seq<char>, v: NamedType)
    requires
        entries_distinct(es),
        !has_key(es, k),
    ensures
        entries_distinct(es.push((k, v))),
{
    let es2 = es.push((k, v));
    assert forall|m: int, n: int| 0 <= m < n < es2.len() implies (#[trigger] es2[m]).0 != (
    #[trigger] es2[n]).0 by {
        if n < es.len() {
            assert(es2[m].0 == es[m].0);
            assert(es2[n].0 == es[n].0);
        } else {
            assert(es2[n] == (k, v));
            assert(es2[m].0 == es[m].0);
        }
    }
}

/// The mathematical model of a positional parameter.
#[verifier::ext_equal]
pub enum PositionalModel {
    Mandatory(Seq<char>, SyntaxShape),
    Optional(Seq<char>, SyntaxShape),
}

/// The model of a positional parameter.
pub open spec fn positional_model(p: PositionalType) -> PositionalModel {
    match p {
        PositionalType::Mandatory(name, shape) => PositionalModel::Mandatory(name@, shape),
        PositionalType::Optional(name, shape) => PositionalModel::Optional(name@, shape),
    }
}

/// The mathematical model of a signature: every declared part by its view.
#[verifier::ext_equal]
pub struct SignatureModel {
    pub name: Seq<char>,
    pub usage: Seq<char>,
    pub positional: Seq<(PositionalModel, Seq<char>)>,
    pub rest_positional: Option<(SyntaxShape, Seq<char>)>,
    pub named: Seq<(Seq<char>, NamedType, Seq<char>)>,
}

/// The model of a signature.
pub open spec fn signature_model(s: Signature) -> SignatureModel {
    SignatureModel {
        name: s.name@,
        usage: s.usage@,
        positional: s.positional@.map_values(
            |e: (PositionalType, String)| (positional_model(e.0), e.1@),
        ),
        rest_positional: match s.rest_positional {
            Some(r) => Some((r.0, r.1@)),
            None => None,
        },
        named: s.named@.map_values(|e: (String, NamedType, String)| (e.0@, e.1, e.2@)),
    }
}

} // verus!
