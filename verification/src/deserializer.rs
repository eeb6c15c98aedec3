//! The binder: drives evaluated values onto a command's typed argument
//! record, without reflection. The target asks for its fields one at a time;
//! a field matches a named flag by exact name, or consumes the next
//! positional slot in declaration order. Coercion is directed by the target
//! field's kind and fails with a runtime error on an incompatible value.

use vstd::prelude::*;

use crate::classified::string_views;
use crate::error::{ProximateShellError, ShellError};
use crate::evaluate::{CallInfo, EvaluatedArgs};
use crate::imap::spec_get;
use crate::signature::Signature;
use crate::value::{spec_value_string, value_model, Value, ValueModel};

verus! {

/// The canonical string a string-shaped field reads from a value: strings,
/// patterns and paths read their text; no other kind coerces.
pub open spec fn spec_string_coerce(v: ValueModel) -> Option<Seq<char>> {
    match v {
        ValueModel::String(s) => Some(s),
        ValueModel::Pattern(s) => Some(s),
        ValueModel::Path(s) => Some(s),
        _ => None,
    }
}

/// The positional value in slot `k`, if one was supplied.
pub open spec fn spec_positional_at(args: EvaluatedArgs, k: int) -> Option<Value> {
    match args.positional {
        Some(p) => if 0 <= k < p@.len() {
            Some(p@[k])
        } else {
            None
        },
        None => None,
    }
}

/// The driver that binds one evaluated call onto one argument record: it
/// holds the evaluated arguments, the command's signature, and the cursor
/// over positional slots.
pub struct ConfigDeserializer {
    pub args: EvaluatedArgs,
    pub sig: Signature,
    pub pos_index: usize,
}

impl ConfigDeserializer {
    pub open spec fn wf(self) -> bool {
        self.args.wf() && self.sig.wf()
    }

    /// How many positional slots were supplied.
    pub open spec fn spec_positional_len(self) -> int {
        match self.args.positional {
            Some(p) => p@.len() as int,
            None => 0,
        }
    }

    pub fn from_call_info(call_info: CallInfo, sig: Signature) -> (r: ConfigDeserializer)
        ensures
            r == (ConfigDeserializer { args: call_info.args, sig, pos_index: 0usize }),
    {
        ConfigDeserializer { args: call_info.args, sig, pos_index: 0 }
    }

    /// Bind an optional string-shaped field: absent reads as no value,
    /// a string, pattern or path reads its text, any other kind fails.
    pub fn opt_string_field(&mut self, name: &str) -> (r: Result<Option<String>, ShellError>)
        requires
            old(self).wf(),
        ensures
            final(self).args == old(self).args,
            final(self).sig == old(self).sig,
            final(self).wf(),
            final(self).pos_index as int == (if old(self).sig.spec_named_get(name@) is Some {
                old(self).pos_index as int
            } else if spec_positional_at(old(self).args, old(self).pos_index as int) is Some {
                old(self).pos_index + 1
            } else {
                old(self).pos_index as int
            }),
            ({
                let read = if old(self).sig.spec_named_get(name@) is Some {
                    spec_get(old(self).args.named_entries_of(), name@)
                } else {
                    spec_positional_at(old(self).args, old(self).pos_index as int)
                };
                match read {
                    None => r == Ok::<Option<String>, ShellError>(None),
                    Some(v) => match spec_string_coerce(value_model(v)) {
                        Some(s) => r matches Ok(Some(out)) && out@ == s,
                        None => r matches Err(e) && e.error matches
                            ProximateShellError::RuntimeError(m) && m@ == "expected a string value"@
                            && e.cause is None,
                    },
                }
            }),
    {
        match self.sig.get_named(name) {
            Some(_) => match self.args.get_named(name) {
                Some(v) => match coerce_string(v) {
                    Ok(s) => Ok(Some(s)),
                    Err(e) => Err(e),
                },
                None => Ok(None),
            },
            None => {
                let take: Option<String> = match &self.args.positional {
                    Some(p) => {
                        if self.pos_index < p.len() {
                            match coerce_string(&p[self.pos_index]) {
                                Ok(s) => Some(s),
                                Err(e) => {
                                    self.pos_index = self.pos_index + 1;
                                    return Err(e);
                                },
                            }
                        } else {
                            return Ok(None);
                        }
                    },
                    None => {
                        return Ok(None);
                    },
                };
                self.pos_index = self.pos_index + 1;
                Ok(take)
            },
        }
    }

    /// Bind a mandatory string-shaped field: absence fails, naming the field.
    pub fn req_string_field(&mut self, name: &str) -> (r: Result<String, ShellError>)
        requires
            old(self).wf(),
        ensures
            final(self).args == old(self).args,
            final(self).sig == old(self).sig,
            final(self).wf(),
            final(self).pos_index as int == (if old(self).sig.spec_named_get(name@) is Some {
                old(self).pos_index as int
            } else if spec_positional_at(old(self).args, old(self).pos_index as int) is Some {
                old(self).pos_index + 1
            } else {
                old(self).pos_index as int
            }),
            ({
                let read = if old(self).sig.spec_named_get(name@) is Some {
                    spec_get(old(self).args.named_entries_of(), name@)
                } else {
                    spec_positional_at(old(self).args, old(self).pos_index as int)
                };
                match read {
                    None => r matches Err(e) && e.error matches ProximateShellError::RuntimeError(
                        m,
                    ) && m@ == "missing mandatory field: "@ + name@ && e.cause is None,
                    Some(v) => match spec_string_coerce(value_model(v)) {
                        Some(s) => r matches Ok(out) && out@ == s,
                        None => r matches Err(e) && e.error matches
                            ProximateShellError::RuntimeError(m) && m@ == "expected a string value"@
                            && e.cause is None,
                    },
                }
            }),
    {
        match self.sig.get_named(name) {
            Some(_) => match self.args.get_named(name) {
                Some(v) => coerce_string(v),
                None => {
                    let mut msg = String::from_str("missing mandatory field: ");
                    msg.append(name);
                    Err(ShellError::runtime_error(msg))
                },
            },
            None => {
                match &self.args.positional {
                    Some(p) => {
                        if self.pos_index < p.len() {
                            let r = coerce_string(&p[self.pos_index]);
                            self.pos_index = self.pos_index + 1;
                            r
                        } else {
                            let mut msg = String::from_str("missing mandatory field: ");
                            msg.append(name);
                            Err(ShellError::runtime_error(msg))
                        }
                    },
                    None => {
                        let mut msg = String::from_str("missing mandatory field: ");
                        msg.append(name);
                        Err(ShellError::runtime_error(msg))
                    },
                }
            },
        }
    }

    /// Bind a rest field: every still-unconsumed positional value, in order,
    /// converted to its canonical string form.
    #[verifier::loop_isolation(false)]
    pub fn rest_strings(&mut self) -> (r: Vec<String>)
        requires
            old(self).wf(),
        ensures
            final(self).args == old(self).args,
            final(self).sig == old(self).sig,
            final(self).wf(),
            final(self).pos_index as int == if old(self).pos_index as int
                <= old(self).spec_positional_len() {
                old(self).spec_positional_len()
            } else {
                old(self).pos_index as int
            },
            ({
                let m = old(self);
                match m.args.positional {
                    Some(p) => if m.pos_index as int <= p@.len() {
                        string_views(r@) == p@.subrange(m.pos_index as int, p@.len() as int).map_values(
                            |v: Value| spec_value_string(v),
                        )
                    } else {
                        r@.len() == 0
                    },
                    None => r@.len() == 0,
                }
            }),
    {
        let mut out: Vec<String> = Vec::new();
        match &self.args.positional {
            None => out,
            Some(p) => {
                if self.pos_index > p.len() {
                    return out;
                }
                let ghost start = self.pos_index as int;
                while self.pos_index < p.len()
                    invariant
                        start <= self.pos_index as int <= p@.len(),
                        self.args == old(self).args,
                        self.sig == old(self).sig,
                        string_views(out@) =~= p@.subrange(start, self.pos_index as int).map_values(
                            |v: Value| spec_value_string(v),
                        ),
                    decreases p@.len() - self.pos_index,
                {
                    let ghost out0 = out@;
                    let s = p[self.pos_index].to_string();
                    out.push(s);
                    self.pos_index = self.pos_index + 1;
                    proof {
                        let k = self.pos_index as int;
                        assert(string_views(out@) =~= string_views(out0).push(s@));
                        assert(p@.subrange(start, k) =~= p@.subrange(start, k - 1).push(
                            p@[k - 1],
                        ));
                        assert(p@.subrange(start, k - 1).push(p@[k - 1]).map_values(
                            |v: Value| spec_value_string(v),
                        ) =~= p@.subrange(start, k - 1).map_values(|v: Value| spec_value_string(v)).push(
                            spec_value_string(p@[k - 1]),
                        ));
                        assert(string_views(out@) =~= p@.subrange(start, k).map_values(
                            |v: Value| spec_value_string(v),
                        ));
                    }
                }
                out
            },
        }
    }
}

/// Read a value's text when its kind carries one; fail otherwise.
fn coerce_string(v: &Value) -> (r: Result<String, ShellError>)
    ensures
        match spec_string_coerce(value_model(*v)) {
            Some(s) => r matches Ok(out) && out@ == s,
            None => r matches Err(e) && e.error matches ProximateShellError::RuntimeError(m) && m@
                == "expected a string value"@ && e.cause is None,
        },
{
    match v {
        Value::String(s) => Ok(s.clone()),
        Value::Pattern(s) => Ok(s.clone()),
        Value::Path(s) => Ok(s.clone()),
        _ => Err(ShellError::runtime_error(String::from_str("expected a string value"))),
    }
}

} // verus!
