//! The command registry and the dispatch context. The registry resolves a
//! command name to its signature and its implementation, keeping insertion
//! order and unique names; the context owns the registry, the shell
//! capability and the shared cancellation flag, and orchestrates evaluating
//! a call and invoking the command.

use vstd::prelude::*;

use core::sync::atomic::AtomicBool;
use std::sync::Arc;

use crate::commands::{Builtin, Cd, Command, Ls};
use crate::error::{ProximateShellError, ShellError};
use crate::evaluate::{call_tokens_wf, evaluate_args, is_runtime_error, spec_evaluate_args, CallInfo};
use crate::hir::Call;
use crate::imap::{entries_distinct, has_key, lemma_key_index_unique, spec_get, spec_insert};
use crate::shell::Shell;
use crate::signature::{signature_model, Signature, SignatureModel};
use crate::value::Value;

verus! {

/// The command registry: name to signature and implementation, unique names,
/// insertion order preserved.
pub struct CommandRegistry<C> {
    pub entries: Vec<(String, Signature, C)>,
}

impl<C> CommandRegistry<C> {
    /// The names and declared signatures, in insertion order.
    pub open spec fn sig_entries(self) -> Seq<(Seq<char>, Signature)> {
        self.entries@.map_values(|e: (String, Signature, C)| (e.0@, e.1))
    }

    /// The names and implementations, in insertion order.
    pub open spec fn cmd_entries(self) -> Seq<(Seq<char>, C)> {
        self.entries@.map_values(|e: (String, Signature, C)| (e.0@, e.2))
    }

    /// The names and the models of the stored signatures, in insertion order.
    pub open spec fn sig_models(self) -> Seq<(Seq<char>, SignatureModel)> {
        self.entries@.map_values(|e: (String, Signature, C)| (e.0@, signature_model(e.1)))
    }

    /// Names are pairwise distinct and every stored signature is well formed.
    pub open spec fn wf(self) -> bool {
        &&& entries_distinct(self.sig_entries())
        &&& forall|n: int|
            0 <= n < self.sig_entries().len() ==> (#[trigger] self.sig_entries()[n]).1.wf()
    }

    pub fn empty() -> (r: Self)
        ensures
            r.entries@.len() == 0,
            r.wf(),
    {
        let r = CommandRegistry { entries: Vec::new() };
        proof {
            assert(r.sig_entries() =~= Seq::<(Seq<char>, Signature)>::empty());
        }
        r
    }

    /// Whether a command of this name is registered.
    pub fn has(&self, name: &str) -> (r: bool)
        ensures
            r == has_key(self.sig_entries(), name@),
    {
        match self.find_index(name) {
            Some(n) => {
                proof {
                    assert(self.sig_entries()[n as int].0 == name@);
                }
                true
            },
            None => false,
        }
    }

    /// The place of the entry holding `name`, if any.
    fn find_index(&self, name: &str) -> (r: Option<usize>)
        ensures
            match r {
                Some(n) => n < self.entries@.len() && self.entries@[n as int].0@ == name@,
                None => !has_key(self.sig_entries(), name@),
            },
    {
        let key = String::from_str(name);
        let len = self.entries.len();
        let mut n: usize = 0;
        while n < len
            invariant
                n <= len,
                len == self.entries@.len(),
                key@ == name@,
                forall|m: int| 0 <= m < n ==> (#[trigger] self.sig_entries()[m]).0 != name@,
            decreases len - n,
        {
            let entry = &self.entries[n];
            if entry.0.eq(&key) {
                proof {
                    assert(self.sig_entries()[n as int].0 == name@);
                }
                return Some(n);
            }
            proof {
                assert(self.sig_entries()[n as int].0 == entry.0@);
            }
            n = n + 1;
        }
        proof {
            assert(!has_key(self.sig_entries(), name@));
        }
        None
    }

    /// The declared signature of the command of this name, if registered.
    pub fn get<'a>(&'a self, name: &str) -> (r: Option<&'a Signature>)
        requires
            self.wf(),
        ensures
            match r {
                Some(sig) => spec_get(self.sig_entries(), name@) == Some(*sig) && spec_get(
                    self.sig_models(),
                    name@,
                ) == Some(signature_model(*sig)) && sig.wf(),
                None => spec_get(self.sig_entries(), name@) is None && spec_get(
                    self.sig_models(),
                    name@,
                ) is None,
            },
    {
        proof {
            lemma_same_keys(*self);
        }
        match self.find_index(name) {
            Some(n) => {
                proof {
                    assert(self.sig_entries()[n as int] == (
                        self.entries@[n as int].0@,
                        self.entries@[n as int].1,
                    ));
                    assert(self.sig_models()[n as int] == (
                        self.entries@[n as int].0@,
                        signature_model(self.entries@[n as int].1),
                    ));
                    lemma_key_index_unique(self.sig_entries(), name@, n as int);
                    lemma_key_index_unique(self.sig_models(), name@, n as int);
                }
                Some(&self.entries[n].1)
            },
            None => None,
        }
    }

    /// The implementation of the command of this name, if registered.
    pub fn get_command<'a>(&'a self, name: &str) -> (r: Option<&'a C>)
        requires
            self.wf(),
        ensures
            match r {
                Some(c) => spec_get(self.cmd_entries(), name@) == Some(*c) && has_key(
                    self.cmd_entries(),
                    name@,
                ),
                None => !has_key(self.cmd_entries(), name@),
            },
    {
        proof {
            lemma_same_keys(*self);
        }
        match self.find_index(name) {
            Some(n) => {
                proof {
                    assert(self.cmd_entries()[n as int] == (
                        self.entries@[n as int].0@,
                        self.entries@[n as int].2,
                    ));
                    lemma_key_index_unique(self.cmd_entries(), name@, n as int);
                }
                Some(&self.entries[n].2)
            },
            None => None,
        }
    }

    /// The implementation of the command of this name; resolution failure
    /// reports exactly which name could not be loaded.
    pub fn expect_command<'a>(&'a self, name: &str) -> (r: Result<&'a C, ShellError>)
        requires
            self.wf(),
        ensures
            match r {
                Ok(c) => spec_get(self.cmd_entries(), name@) == Some(*c),
                Err(e) => !has_key(self.cmd_entries(), name@) && (e.error matches
                    ProximateShellError::RuntimeError(m) && m@ == "Could not load command: "@
                    + name@) && e.cause is None,
            },
    {
        match self.get_command(name) {
            Some(c) => Ok(c),
            None => {
                let mut msg = String::from_str("Could not load command: ");
                msg.append(name);
                Err(ShellError::runtime_error(msg))
            },
        }
    }

    /// The registered names, in insertion order.
    pub fn names(&self) -> (r: Vec<String>)
        ensures
            r@.len() == self.entries@.len(),
            forall|n: int|
                0 <= n < r@.len() ==> (#[trigger] r@[n])@ == self.sig_entries()[n].0,
    {
        let len = self.entries.len();
        let mut out: Vec<String> = Vec::new();
        let mut n: usize = 0;
        while n < len
            invariant
                n <= len,
                len == self.entries@.len(),
                out@.len() == n,
                forall|m: int| 0 <= m < n ==> (#[trigger] out@[m])@ == self.sig_entries()[m].0,
            decreases len - n,
        {
            out.push(self.entries[n].0.clone());
            proof {
                assert(self.sig_entries()[n as int].0 == self.entries@[n as int].0@);
            }
            n = n + 1;
        }
        out
    }
}

/// All three views of a registry hold their keys in the same places.
proof fn lemma_same_keys<C>(r: CommandRegistry<C>)
    ensures
        r.sig_entries().len() == r.cmd_entries().len(),
        r.sig_entries().len() == r.sig_models().len(),
        forall|n: int|
            0 <= n < r.cmd_entries().len() ==> (#[trigger] r.cmd_entries()[n]).0
                == r.sig_entries()[n].0,
        forall|n: int|
            0 <= n < r.sig_models().len() ==> (#[trigger] r.sig_models()[n]).0
                == r.sig_entries()[n].0,
        forall|n: int|
            0 <= n < r.sig_models().len() ==> (#[trigger] r.sig_models()[n]).1 == signature_model(
                r.sig_entries()[n].1,
            ),
        entries_distinct(r.sig_entries()) ==> entries_distinct(r.cmd_entries()),
        entries_distinct(r.sig_entries()) ==> entries_distinct(r.sig_models()),
        forall|k: Seq<char>| has_key(r.sig_entries(), k) == has_key(r.cmd_entries(), k),
        forall|k: Seq<char>| has_key(r.sig_entries(), k) == has_key(r.sig_models(), k),
{
    if entries_distinct(r.sig_entries()) {
        assert forall|m: int, n: int| 0 <= m < n < r.cmd_entries().len() implies (
        #[trigger] r.cmd_entries()[m]).0 != (#[trigger] r.cmd_entries()[n]).0 by {
            assert(r.cmd_entries()[m].0 == r.sig_entries()[m].0);
            assert(r.cmd_entries()[n].0 == r.sig_entries()[n].0);
        }
        assert forall|m: int, n: int| 0 <= m < n < r.sig_models().len() implies (
        #[trigger] r.sig_models()[m]).0 != (#[trigger] r.sig_models()[n]).0 by {
            assert(r.sig_models()[m].0 == r.sig_entries()[m].0);
            assert(r.sig_models()[n].0 == r.sig_entries()[n].0);
        }
    }
    assert forall|k: Seq<char>| has_key(r.sig_entries(), k) == has_key(r.cmd_entries(), k) by {
        if has_key(r.sig_entries(), k) {
            let n = choose|n: int|
                0 <= n < r.sig_entries().len() && (#[trigger] r.sig_entries()[n]).0 == k;
            assert(r.cmd_entries()[n].0 == k);
        }
        if has_key(r.cmd_entries(), k) {
            let n = choose|n: int|
                0 <= n < r.cmd_entries().len() && (#[trigger] r.cmd_entries()[n]).0 == k;
            assert(r.sig_entries()[n].0 == k);
        }
    }
    assert forall|k: Seq<char>| has_key(r.sig_entries(), k) == has_key(r.sig_models(), k) by {
        if has_key(r.sig_entries(), k) {
            let n = choose|n: int|
                0 <= n < r.sig_entries().len() && (#[trigger] r.sig_entries()[n]).0 == k;
            assert(r.sig_models()[n].0 == k);
        }
        if has_key(r.sig_models(), k) {
            let n = choose|n: int|
                0 <= n < r.sig_models().len() && (#[trigger] r.sig_models()[n]).0 == k;
            assert(r.sig_entries()[n].0 == k);
        }
    }
}

impl<C: Command> CommandRegistry<C> {
    /// Register a command under `name`: a fresh name is appended, an existing
    /// one keeps its place and takes the new signature and implementation.
    pub fn insert(&mut self, name: String, command: C)
        requires
            old(self).wf(),
        ensures
            final(self).wf(),
            has_key(final(self).sig_entries(), name@),
            final(self).cmd_entries() == spec_insert(old(self).cmd_entries(), name@, command),
            final(self).sig_models() == spec_insert(
                old(self).sig_models(),
                name@,
                command.spec_signature(),
            ),
            exists|sig: Signature|
                #![auto]
                sig.wf() && final(self).sig_entries() == spec_insert(
                    old(self).sig_entries(),
                    name@,
                    sig,
                ),
    {
        let sig = command.signature();
        proof {
            lemma_same_keys(*self);
            crate::imap::lemma_spec_insert_distinct(self.sig_entries(), name@, sig);
            crate::imap::lemma_spec_insert_get(self.sig_entries(), name@, sig);
        }
        match self.find_index(name.as_str()) {
            Some(n) => {
                proof {
                    lemma_key_index_unique(self.sig_entries(), name@, n as int);
                    lemma_key_index_unique(self.cmd_entries(), name@, n as int);
                    lemma_key_index_unique(self.sig_models(), name@, n as int);
                }
                self.entries.set(n, (name, sig, command));
                proof {
                    assert(final(self).sig_entries() =~= spec_insert(
                        old(self).sig_entries(),
                        name@,
                        sig,
                    ));
                    assert(final(self).cmd_entries() =~= spec_insert(
                        old(self).cmd_entries(),
                        name@,
                        command,
                    ));
                    assert(final(self).sig_models() =~= spec_insert(
                        old(self).sig_models(),
                        name@,
                        signature_model(sig),
                    ));
                }
            },
            None => {
                self.entries.push((name, sig, command));
                proof {
                    assert(final(self).sig_entries() =~= spec_insert(
                        old(self).sig_entries(),
                        name@,
                        sig,
                    ));
                    assert(final(self).cmd_entries() =~= spec_insert(
                        old(self).cmd_entries(),
                        name@,
                        command,
                    ));
                    assert(final(self).sig_models() =~= spec_insert(
                        old(self).sig_models(),
                        name@,
                        signature_model(sig),
                    ));
                }
            },
        }
        proof {
            assert forall|n: int|
                0 <= n < self.sig_entries().len() implies (#[trigger] self.sig_entries()[n]).1.wf() by {
                let es = old(self).sig_entries();
                let es2 = self.sig_entries();
                if has_key(es, name@) {
                    let i = crate::imap::key_index(es, name@);
                    if n != i {
                        assert(es2[n] == es[n]);
                    }
                } else {
                    if n < es.len() {
                        assert(es2[n] == es[n]);
                    } else {
                        assert(es2[n] == (name@, sig));
                    }
                }
            }
        }
    }
}

/// The dispatch context: the registry, the shared cancellation flag and the
/// shell capability.
pub struct Context<C, S> {
    pub registry: CommandRegistry<C>,
    pub ctrl_c: Arc<AtomicBool>,
    pub shell: Arc<S>,
}

impl<C: Command + Clone, S: Shell> Context<C, S> {
    pub fn new(shell: S) -> (r: Context<C, S>)
        ensures
            r.registry.entries@.len() == 0,
            r.registry.wf(),
    {
        Context {
            registry: CommandRegistry::empty(),
            ctrl_c: Arc::new(AtomicBool::new(false)),
            shell: Arc::new(shell),
        }
    }

    /// Register each command under its own name, in order: afterwards every
    /// command of the vector resolves, a later duplicate name having
    /// overwritten an earlier one, and every previously registered name
    /// still resolves.
    #[verifier::loop_isolation(false)]
    pub fn add_commands(&mut self, commands: Vec<C>)
        requires
            old(self).registry.wf(),
        ensures
            final(self).registry.wf(),
            final(self).ctrl_c == old(self).ctrl_c,
            final(self).shell == old(self).shell,
            forall|n: int|
                0 <= n < commands@.len() ==> has_key(
                    final(self).registry.sig_entries(),
                    (#[trigger] commands@[n]).spec_name(),
                ),
            forall|k: Seq<char>|
                has_key(old(self).registry.sig_entries(), k) ==> has_key(
                    final(self).registry.sig_entries(),
                    k,
                ),
    {
        let ghost orig = commands@;
        proof {
            assert(orig.len() == commands.len());
        }
        let mut commands = commands;
        let mut n: usize = 0;
        while commands.len() > 0
            invariant
                n + commands@.len() == orig.len(),
                commands@ == orig.subrange(n as int, orig.len() as int),
                self.registry.wf(),
                self.ctrl_c == old(self).ctrl_c,
                self.shell == old(self).shell,
                forall|m: int|
                    0 <= m < n ==> has_key(
                        self.registry.sig_entries(),
                        (#[trigger] orig[m]).spec_name(),
                    ),
                forall|k: Seq<char>|
                    has_key(old(self).registry.sig_entries(), k) ==> has_key(
                        self.registry.sig_entries(),
                        k,
                    ),
            decreases commands@.len(),
        {
            proof {
                assert(commands@[0] == orig[n as int]);
            }
            let command = commands.remove(0);
            let name = String::from_str(command.name());
            let ghost before = self.registry.sig_entries();
            self.registry.insert(name, command);
            proof {
                let sig = choose|sig: Signature|
                    #![auto]
                    sig.wf() && self.registry.sig_entries() == spec_insert(
                        before,
                        orig[n as int].spec_name(),
                        sig,
                    );
                crate::imap::lemma_spec_insert_get(before, orig[n as int].spec_name(), sig);
                assert forall|k: Seq<char>| has_key(before, k) implies has_key(
                    self.registry.sig_entries(),
                    k,
                ) by {
                    if k != orig[n as int].spec_name() {
                        assert(spec_get(self.registry.sig_entries(), k) == spec_get(before, k));
                    }
                }
            }
            n = n + 1;
        }
        proof {
            assert(n == orig.len());
        }
    }

    pub fn get_command<'a>(&'a self, name: &str) -> (r: Option<&'a C>)
        requires
            self.registry.wf(),
        ensures
            match r {
                Some(c) => spec_get(self.registry.cmd_entries(), name@) == Some(*c),
                None => !has_key(self.registry.cmd_entries(), name@),
            },
    {
        self.registry.get_command(name)
    }

    pub fn expect_command<'a>(&'a self, name: &str) -> (r: Result<&'a C, ShellError>)
        requires
            self.registry.wf(),
        ensures
            match r {
                Ok(c) => spec_get(self.registry.cmd_entries(), name@) == Some(*c),
                Err(e) => !has_key(self.registry.cmd_entries(), name@) && (e.error matches
                    ProximateShellError::RuntimeError(m) && m@ == "Could not load command: "@
                    + name@) && e.cause is None,
            },
    {
        self.registry.expect_command(name)
    }

    /// Evaluate the call and invoke the command with the evaluated
    /// arguments, the upstream input, the cancellation flag and the shell.
    /// An evaluation fault is reported exactly; what the command returns is
    /// its own.
    pub fn run_command(
        &self,
        command: &C,
        args: Call,
        source: &str,
        input: Option<Vec<Value>>,
    ) -> (r: Result<Option<Vec<Value>>, ShellError>)
        requires
            args.wf(),
            call_tokens_wf(args, source@.len() as int),
        ensures
            spec_evaluate_args(args, source@) matches Err(m) ==> r matches Err(e)
                && is_runtime_error(e, m),
    {
        let evaluated = match evaluate_args(args, source) {
            Ok(a) => a,
            Err(e) => {
                return Err(e);
            },
        };
        let call_info = CallInfo { args: evaluated };
        command.run(call_info, input, &self.ctrl_c, &*self.shell)
    }
}

/// The context a fresh interactive session starts from: the file-system
/// commands `ls` and `cd`, registered in that order.
pub fn create_default_context<S: Shell>(shell: S) -> (r: Context<Builtin, S>)
    ensures
        r.registry.wf(),
        has_key(r.registry.sig_entries(), "ls"@),
        has_key(r.registry.sig_entries(), "cd"@),
{
    let mut context: Context<Builtin, S> = Context::new(shell);
    let mut commands: Vec<Builtin> = Vec::new();
    commands.push(Builtin::Ls(Ls));
    commands.push(Builtin::Cd(Cd));
    let ghost cs = commands@;
    context.add_commands(commands);
    proof {
        assert(cs[0] == Builtin::Ls(Ls));
        assert(cs[1] == Builtin::Cd(Cd));
        assert(cs[0].spec_name() == "ls"@);
        assert(cs[1].spec_name() == "cd"@);
    }
    context
}

} // verus!
