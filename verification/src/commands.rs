//! The built-in commands: each one declares its name, usage and signature,
//! and binds its evaluated call onto its own argument record before invoking
//! the shell capability. Dispatch goes through the `Command` interface, so
//! the registry stays extensible.

use vstd::prelude::*;

use core::sync::atomic::AtomicBool;

use crate::classified::{ClassifiedCommand, ClassifiedPipeline, ExternalCommand, InternalCommand};
use crate::context::Context;
use crate::error::{ProximateShellError, ShellError};
use crate::deserializer::{spec_positional_at, spec_string_coerce, ConfigDeserializer};
use crate::evaluate::{is_runtime_error, CallInfo, EvaluatedArgs};
use crate::shell::{RunnableContext, Shell};
use crate::signature::{signature_model, PositionalModel, Signature, SignatureModel, SyntaxShape};
use crate::value::{value_model, Value};

verus! {

/// One command implementation: a name, a usage line, a declared parameter
/// shape, and the entry point the dispatcher invokes with the evaluated
/// call, the optional upstream input, the cancellation flag and the shell
/// capability. The spec-level name, usage and signature pin what the
/// executable accessors return, so registration and classification can be
/// reasoned about.
pub trait Command: Sized {
    spec fn spec_name(&self) -> Seq<char>;

    spec fn spec_usage(&self) -> Seq<char>;

    spec fn spec_signature(&self) -> SignatureModel;

    /// The fault this command's own argument binding raises before any
    /// capability call, if any: the exact runtime error `run` then returns.
    spec fn spec_binding_fault(&self, args: EvaluatedArgs) -> Option<Seq<char>>;

    fn name(&self) -> (r: &str)
        ensures
            r@ == self.spec_name(),
    ;

    fn usage(&self) -> (r: &str)
        ensures
            r@ == self.spec_usage(),
    ;

    fn signature(&self) -> (r: Signature)
        ensures
            signature_model(r) == self.spec_signature(),
            r.wf(),
    ;

    fn run<S: Shell>(
        &self,
        call_info: CallInfo,
        input: Option<Vec<Value>>,
        ctrl_c: &AtomicBool,
        shell: &S,
    ) -> (r: Result<Option<Vec<Value>>, ShellError>)
        requires
            call_info.args.wf(),
        ensures
            (match self.spec_binding_fault(call_info.args) {
                Some(m) => r matches Err(e) && is_runtime_error(e, m),
                None => true,
            }),
    ;

    fn is_binary(&self) -> bool;
}

/// The fault of binding one optional string-shaped value from the first
/// positional slot: the slot holds a value no string-shaped field coerces.
pub open spec fn spec_opt_string_fault(args: EvaluatedArgs) -> Option<Seq<char>> {
    match spec_positional_at(args, 0) {
        Some(v) => match spec_string_coerce(value_model(v)) {
            Some(_) => None,
            None => Some("expected a string value"@),
        },
        None => None,
    }
}

/// The arguments of `cd`: the optional destination.
#[derive(Debug, Clone, PartialEq, Eq)]
pub struct CdArgs {
    pub dst: Option<String>,
}

/// The arguments of `ls`: the optional path or pattern.
#[derive(Debug, Clone, PartialEq, Eq)]
pub struct LsArgs {
    pub path: Option<String>,
}

/// The arguments of `mkdir`: the paths to create.
#[derive(Debug, Clone, PartialEq, Eq)]
pub struct MkDirArgs {
    pub rest: Vec<String>,
}

/// Change to a new path.
#[derive(Debug, Clone, Copy)]
pub struct Cd;

/// View the contents of the current or given path.
#[derive(Debug, Clone, Copy)]
pub struct Ls;

/// Make directories, with intermediary directories as required.
#[derive(Debug, Clone, Copy)]
pub struct MkDir;

impl Command for Cd {
    open spec fn spec_name(&self) -> Seq<char> {
        "cd"@
    }

    open spec fn spec_usage(&self) -> Seq<char> {
        "Change to a new path."@
    }

    /// One optional positional parameter: the destination, a path.
    open spec fn spec_signature(&self) -> SignatureModel {
        SignatureModel {
            name: "cd"@,
            usage: "Change to a new path."@,
            positional: seq![
                (
                    PositionalModel::Optional("destination"@, SyntaxShape::Path),
                    "the directory to change to"@,
                ),
            ],
            rest_positional: None,
            named: Seq::empty(),
        }
    }

    fn name(&self) -> (r: &str)
        ensures
            r@ == self.spec_name(),
    {
        "cd"
    }

    fn usage(&self) -> (r: &str)
        ensures
            r@ == self.spec_usage(),
    {
        "Change to a new path."
    }

    fn signature(&self) -> (r: Signature)
        ensures
            signature_model(r) == self.spec_signature(),
            r.wf(),
    {
        let r = Signature::build("cd").optional(
            "destination",
            SyntaxShape::Path,
            "the directory to change to",
        ).desc(self.usage());
        proof {
            assert(signature_model(r) =~= self.spec_signature());
        }
        r
    }

    /// A destination that does not coerce to a string is the one fault
    /// this command raises itself.
    open spec fn spec_binding_fault(&self, args: EvaluatedArgs) -> Option<Seq<char>> {
        spec_opt_string_fault(args)
    }

    fn run<S: Shell>(
        &self,
        call_info: CallInfo,
        input: Option<Vec<Value>>,
        ctrl_c: &AtomicBool,
        shell: &S,
    ) -> (r: Result<Option<Vec<Value>>, ShellError>)
        ensures
            (match self.spec_binding_fault(call_info.args) {
                Some(m) => r matches Err(e) && is_runtime_error(e, m),
                None => true,
            }),
    {
        let sig = self.signature();
        proof {
            assert(signature_model(sig).named.len() == 0);
            assert(signature_model(sig).named.len() == sig.named@.len());
            assert(sig.named_entries().len() == 0);
            assert(sig.spec_named_get("destination"@) is None);
        }
        let mut binder = ConfigDeserializer::from_call_info(call_info, sig);
        let dst = match binder.opt_string_field("destination") {
            Ok(d) => d,
            Err(e) => {
                return Err(e);
            },
        };
        shell.cd(CdArgs { dst })
    }

    fn is_binary(&self) -> bool {
        false
    }
}

impl Command for Ls {
    open spec fn spec_name(&self) -> Seq<char> {
        "ls"@
    }

    open spec fn spec_usage(&self) -> Seq<char> {
        "View the contents of the current or given path."@
    }

    /// One optional positional parameter: the path or pattern to list.
    open spec fn spec_signature(&self) -> SignatureModel {
        SignatureModel {
            name: "ls"@,
            usage: "View the contents of the current or given path."@,
            positional: seq![
                (
                    PositionalModel::Optional("path"@, SyntaxShape::Pattern),
                    "a path to get the directory contents from"@,
                ),
            ],
            rest_positional: None,
            named: Seq::empty(),
        }
    }

    fn name(&self) -> (r: &str)
        ensures
            r@ == self.spec_name(),
    {
        "ls"
    }

    fn usage(&self) -> (r: &str)
        ensures
            r@ == self.spec_usage(),
    {
        "View the contents of the current or given path."
    }

    fn signature(&self) -> (r: Signature)
        ensures
            signature_model(r) == self.spec_signature(),
            r.wf(),
    {
        let r = Signature::build("ls").optional(
            "path",
            SyntaxShape::Pattern,
            "a path to get the directory contents from",
        ).desc(self.usage());
        proof {
            assert(signature_model(r) =~= self.spec_signature());
        }
        r
    }

    /// A path that does not coerce to a string is the one fault this
    /// command raises itself.
    open spec fn spec_binding_fault(&self, args: EvaluatedArgs) -> Option<Seq<char>> {
        spec_opt_string_fault(args)
    }

    fn run<S: Shell>(
        &self,
        call_info: CallInfo,
        input: Option<Vec<Value>>,
        ctrl_c: &AtomicBool,
        shell: &S,
    ) -> (r: Result<Option<Vec<Value>>, ShellError>)
        ensures
            (match self.spec_binding_fault(call_info.args) {
                Some(m) => r matches Err(e) && is_runtime_error(e, m),
                None => true,
            }),
    {
        let sig = self.signature();
        proof {
            assert(signature_model(sig).named.len() == 0);
            assert(signature_model(sig).named.len() == sig.named@.len());
            assert(sig.named_entries().len() == 0);
            assert(sig.spec_named_get("path"@) is None);
        }
        let mut binder = ConfigDeserializer::from_call_info(call_info, sig);
        let path = match binder.opt_string_field("path") {
            Ok(p) => p,
            Err(e) => {
                return Err(e);
            },
        };
        let ctx = RunnableContext { input, ctrl_c };
        shell.ls(LsArgs { path }, &ctx)
    }

    fn is_binary(&self) -> bool {
        false
    }
}

impl Command for MkDir {
    open spec fn spec_name(&self) -> Seq<char> {
        "mkdir"@
    }

    open spec fn spec_usage(&self) -> Seq<char> {
        "Make directories, creates intermediary directories as required."@
    }

    /// No positional parameters; a rest parameter of path shape collects
    /// every remaining positional.
    open spec fn spec_signature(&self) -> SignatureModel {
        SignatureModel {
            name: "mkdir"@,
            usage: "Make directories, creates intermediary directories as required."@,
            positional: Seq::empty(),
            rest_positional: Some((SyntaxShape::Path, "the name of the path to create"@)),
            named: Seq::empty(),
        }
    }

    fn name(&self) -> (r: &str)
        ensures
            r@ == self.spec_name(),
    {
        "mkdir"
    }

    fn usage(&self) -> (r: &str)
        ensures
            r@ == self.spec_usage(),
    {
        "Make directories, creates intermediary directories as required."
    }

    fn signature(&self) -> (r: Signature)
        ensures
            signature_model(r) == self.spec_signature(),
            r.wf(),
    {
        let r = Signature::build("mkdir").rest(
            SyntaxShape::Path,
            "the name of the path to create",
        ).desc(self.usage());
        proof {
            assert(signature_model(r) =~= self.spec_signature());
        }
        r
    }

    /// Collecting the rest list cannot fail: this command raises no fault
    /// of its own.
    open spec fn spec_binding_fault(&self, args: EvaluatedArgs) -> Option<Seq<char>> {
        None
    }

    fn run<S: Shell>(
        &self,
        call_info: CallInfo,
        input: Option<Vec<Value>>,
        ctrl_c: &AtomicBool,
        shell: &S,
    ) -> Result<Option<Vec<Value>>, ShellError> {
        let sig = self.signature();
        let mut binder = ConfigDeserializer::from_call_info(call_info, sig);
        let rest = binder.rest_strings();
        shell.mkdir(MkDirArgs { rest })
    }

    fn is_binary(&self) -> bool {
        false
    }
}

/// The built-in command set, as one registrable type; dispatch still goes
/// through the `Command` interface.
#[derive(Debug, Clone, Copy)]
pub enum Builtin {
    Cd(Cd),
    Ls(Ls),
    MkDir(MkDir),
}

impl Command for Builtin {
    open spec fn spec_name(&self) -> Seq<char> {
        match self {
            Builtin::Cd(c) => c.spec_name(),
            Builtin::Ls(c) => c.spec_name(),
            Builtin::MkDir(c) => c.spec_name(),
        }
    }

    open spec fn spec_usage(&self) -> Seq<char> {
        match self {
            Builtin::Cd(c) => c.spec_usage(),
            Builtin::Ls(c) => c.spec_usage(),
            Builtin::MkDir(c) => c.spec_usage(),
        }
    }

    open spec fn spec_signature(&self) -> SignatureModel {
        match self {
            Builtin::Cd(c) => c.spec_signature(),
            Builtin::Ls(c) => c.spec_signature(),
            Builtin::MkDir(c) => c.spec_signature(),
        }
    }

    fn name(&self) -> (r: &str)
        ensures
            r@ == self.spec_name(),
    {
        match self {
            Builtin::Cd(c) => c.name(),
            Builtin::Ls(c) => c.name(),
            Builtin::MkDir(c) => c.name(),
        }
    }

    fn usage(&self) -> (r: &str)
        ensures
            r@ == self.spec_usage(),
    {
        match self {
            Builtin::Cd(c) => c.usage(),
            Builtin::Ls(c) => c.usage(),
            Builtin::MkDir(c) => c.usage(),
        }
    }

    fn signature(&self) -> (r: Signature)
        ensures
            signature_model(r) == self.spec_signature(),
            r.wf(),
    {
        match self {
            Builtin::Cd(c) => c.signature(),
            Builtin::Ls(c) => c.signature(),
            Builtin::MkDir(c) => c.signature(),
        }
    }

    open spec fn spec_binding_fault(&self, args: EvaluatedArgs) -> Option<Seq<char>> {
        match self {
            Builtin::Cd(c) => c.spec_binding_fault(args),
            Builtin::Ls(c) => c.spec_binding_fault(args),
            Builtin::MkDir(c) => c.spec_binding_fault(args),
        }
    }

    fn run<S: Shell>(
        &self,
        call_info: CallInfo,
        input: Option<Vec<Value>>,
        ctrl_c: &AtomicBool,
        shell: &S,
    ) -> Result<Option<Vec<Value>>, ShellError> {
        match self {
            Builtin::Cd(c) => c.run(call_info, input, ctrl_c, shell),
            Builtin::Ls(c) => c.run(call_info, input, ctrl_c, shell),
            Builtin::MkDir(c) => c.run(call_info, input, ctrl_c, shell),
        }
    }

    fn is_binary(&self) -> bool {
        match self {
            Builtin::Cd(c) => c.is_binary(),
            Builtin::Ls(c) => c.is_binary(),
            Builtin::MkDir(c) => c.is_binary(),
        }
    }
}

/// Resolve an internal command node and dispatch it.
pub fn run_internal_command<C: Command + Clone, S: Shell>(
    command: InternalCommand,
    context: &mut Context<C, S>,
    input: Option<Vec<Value>>,
    source: &str,
) -> (r: Result<Option<Vec<Value>>, ShellError>)
    requires
        old(context).registry.wf(),
        command.args.wf(),
        crate::evaluate::call_tokens_wf(command.args, source@.len() as int),
    ensures
        *final(context) == *old(context),
        !crate::imap::has_key(old(context).registry.cmd_entries(), command.name@) ==> (r matches
        Err(e) && e.error matches ProximateShellError::RuntimeError(m) && m@
            == "Could not load command: "@ + command.name@ && e.cause is None),
        crate::imap::has_key(old(context).registry.cmd_entries(), command.name@) ==> (match
        crate::evaluate::spec_evaluate_args(command.args, source@) {
            Err(m) => r matches Err(e) && crate::evaluate::is_runtime_error(e, m),
            Ok(_) => true,
        }),
{
    let internal_command = match context.expect_command(command.name.as_str()) {
        Ok(c) => c.clone(),
        Err(e) => {
            return Err(e);
        },
    };
    context.run_command(&internal_command, command.args, source, input)
}

/// The external runner: classification forwards external commands here, but
/// connecting them to the operating system is a documented gap, reported as
/// a runtime error rather than performed.
pub fn run_external_command<C: Command, S: Shell>(
    command: ExternalCommand,
    context: &mut Context<C, S>,
    input: Option<Vec<Value>>,
    is_last: bool,
) -> (r: Result<Option<Vec<Value>>, ShellError>)
    ensures
        *final(context) == *old(context),
        r matches Err(e) && e.error matches ProximateShellError::RuntimeError(m) && m@
            == "External commands are not supported"@ && e.cause is None,
{
    Err(ShellError::runtime_error(String::from_str("External commands are not supported")))
}

/// Whether the first node's own dispatch preconditions all held: it was an
/// internal command, its name resolved, and its call evaluated. Only then
/// does the pipeline run past its first node.
pub open spec fn first_dispatch_clean<C>(
    node: ClassifiedCommand,
    cmds: Seq<(Seq<char>, C)>,
    src: Seq<char>,
) -> bool {
    &&& node matches ClassifiedCommand::Internal(ic) && crate::imap::has_key(cmds, ic.name@)
        && crate::evaluate::spec_evaluate_args(ic.args, src) is Ok
}

/// Run each command node of a pipeline in order, feeding each node's output
/// values to the next as its upstream input; the last node's output is the
/// line's. An empty pipeline yields no output. The first node decides the
/// library's own failures exactly: an external node reports the documented
/// gap, an unregistered internal name reports which name could not be
/// loaded, a call that fails to evaluate reports that fault; what a
/// dispatched command returns is its own.
#[verifier::loop_isolation(false)]
pub fn run_pipeline<C: Command + Clone, S: Shell>(
    pipeline: ClassifiedPipeline,
    context: &mut Context<C, S>,
    source: &str,
) -> (r: Result<Option<Vec<Value>>, ShellError>)
    requires
        old(context).registry.wf(),
        crate::classify::classified_wf(pipeline.commands.list@, source@.len() as int),
    ensures
        *final(context) == *old(context),
        pipeline.commands.list@.len() == 0 ==> r == Ok::<Option<Vec<Value>>, ShellError>(None),
        pipeline.commands.list@.len() > 0 ==> (match pipeline.commands.list@[0] {
            ClassifiedCommand::External(_) => r matches Err(e)
                && crate::evaluate::is_runtime_error(e, "External commands are not supported"@),
            ClassifiedCommand::Internal(ic) => {
                &&& (!crate::imap::has_key(old(context).registry.cmd_entries(), ic.name@) ==> (
                r matches Err(e) && crate::evaluate::is_runtime_error(
                    e,
                    "Could not load command: "@ + ic.name@,
                )))
                &&& (crate::imap::has_key(old(context).registry.cmd_entries(), ic.name@)
                    ==> (match crate::evaluate::spec_evaluate_args(ic.args, source@) {
                    Err(m) => r matches Err(e) && crate::evaluate::is_runtime_error(e, m),
                    Ok(_) => true,
                }))
            },
        }),
{
    let ghost orig = pipeline.commands.list@;
    let mut input: Option<Vec<Value>> = None;
    let mut list = pipeline.commands.list;
    while list.len() > 0
        invariant
            *context == *old(context),
            list@.len() <= orig.len(),
            list@ == orig.subrange(orig.len() - list@.len(), orig.len() as int),
            crate::classify::classified_wf(list@, source@.len() as int),
            list@.len() < orig.len() ==> first_dispatch_clean(
                orig[0],
                old(context).registry.cmd_entries(),
                source@,
            ),
            list@.len() == orig.len() ==> input is None,
        decreases list@.len(),
    {
        let ghost pos = orig.len() - list@.len();
        proof {
            assert(list@[0] == orig[pos]);
        }
        let node = list.remove(0);
        let out = match node {
            ClassifiedCommand::Internal(ic) => run_internal_command(ic, context, input, source),
            ClassifiedCommand::External(ec) => run_external_command(ec, context, input, false),
        };
        input = match out {
            Ok(values) => values,
            Err(e) => {
                return Err(e);
            },
        };
        proof {
            if pos == 0 {
                assert(first_dispatch_clean(
                    orig[0],
                    old(context).registry.cmd_entries(),
                    source@,
                ));
            }
            assert(list@ =~= orig.subrange(orig.len() - list@.len(), orig.len() as int));
            assert forall|m: int|
                0 <= m < list@.len() implies ((#[trigger] list@[m]) matches
            ClassifiedCommand::Internal(ic) ==> ic.args.wf() && crate::evaluate::call_tokens_wf(
                ic.args,
                source@.len() as int,
            )) by {}
        }
    }
    Ok(input)
}

} // verus!
