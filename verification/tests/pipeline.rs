use queen_shell::classified::ClassifiedCommand;
use queen_shell::classify::{build_call, classify};
use queen_shell::commands::{run_pipeline, Builtin, Cd, CdArgs, Command, Ls, LsArgs, MkDir, MkDirArgs};
use queen_shell::context::{create_default_context, CommandRegistry, Context};
use queen_shell::deserializer::ConfigDeserializer;
use queen_shell::evaluate::{evaluate_args, CallInfo, EvaluatedArgs};
use queen_shell::hir::Call;
use queen_shell::parser::parse;
use queen_shell::shell::{RunnableContext, Shell};
use std::sync::atomic::AtomicBool;
use queen_shell::signature::{Signature, SyntaxShape};
use queen_shell::{ProximateShellError, ShellError, Span, Token, Value};

fn builtin_registry() -> CommandRegistry<Builtin> {
    let mut registry = CommandRegistry::empty();
    registry.insert("ls".to_string(), Builtin::Ls(Ls));
    registry.insert("cd".to_string(), Builtin::Cd(Cd));
    registry.insert("mkdir".to_string(), Builtin::MkDir(MkDir));
    registry
}

#[derive(Debug)]
struct EchoShell;

impl Shell for EchoShell {
    fn name(&self) -> String {
        "echo shell".to_string()
    }

    fn homedir(&self) -> Option<String> {
        Some("/home".to_string())
    }

    fn ls(&self, args: LsArgs, _ctx: &RunnableContext) -> Result<Option<Vec<Value>>, ShellError> {
        Ok(Some(vec![Value::String(args.path.unwrap_or_default())]))
    }

    fn cd(&self, args: CdArgs) -> Result<Option<Vec<Value>>, ShellError> {
        Ok(Some(vec![Value::String(args.dst.unwrap_or_default())]))
    }

    fn mkdir(&self, args: MkDirArgs) -> Result<Option<Vec<Value>>, ShellError> {
        Ok(Some(args.rest.into_iter().map(Value::String).collect()))
    }

    fn path(&self) -> String {
        "/".to_string()
    }
}

#[test]
fn cd_destination_binds_to_src() {
    let registry = builtin_registry();
    let source = "cd src";
    let tokens = parse(source).unwrap();
    let pipeline = classify(&tokens, source, &registry).unwrap();
    assert_eq!(pipeline.commands.list.len(), 1);
    let internal = match &pipeline.commands.list[0] {
        ClassifiedCommand::Internal(ic) => ic.clone(),
        _ => panic!("expected an internal command"),
    };
    assert_eq!(internal.name, "cd");
    let args = evaluate_args(internal.args, source).unwrap();
    let mut binder = ConfigDeserializer::from_call_info(CallInfo { args }, Cd.signature());
    let dst = binder.opt_string_field("destination").unwrap();
    assert_eq!(dst, Some("src".to_string()));
    assert_eq!(CdArgs { dst }, CdArgs { dst: Some("src".to_string()) });
}

#[test]
fn unregistered_command_message() {
    let registry: CommandRegistry<Builtin> = CommandRegistry::empty();
    let err = registry.expect_command("foo").unwrap_err();
    assert_eq!(err.render(), "Could not load command: foo");
    assert!(matches!(err.error, ProximateShellError::RuntimeError(_)));
    assert!(err.cause.is_none());
}

#[test]
fn classify_external_command() {
    let registry = builtin_registry();
    let source = "foo bar 'baz qux'";
    let tokens = parse(source).unwrap();
    let pipeline = classify(&tokens, source, &registry).unwrap();
    assert_eq!(pipeline.commands.list.len(), 1);
    match &pipeline.commands.list[0] {
        ClassifiedCommand::External(ec) => {
            assert_eq!(ec.name, "foo");
            assert_eq!(ec.args.list, vec!["bar".to_string(), "baz qux".to_string()]);
        },
        _ => panic!("expected an external command"),
    }
}

#[test]
fn classify_internal_with_glob() {
    let registry = builtin_registry();
    let source = "ls *.txt";
    let tokens = parse(source).unwrap();
    let pipeline = classify(&tokens, source, &registry).unwrap();
    match &pipeline.commands.list[0] {
        ClassifiedCommand::Internal(ic) => {
            assert_eq!(ic.name, "ls");
            let positional = ic.args.positional.as_ref().unwrap();
            assert_eq!(positional.len(), 1);
            assert!(matches!(positional[0].item, Token::GlobPattern));
        },
        _ => panic!("expected an internal command"),
    }
}

#[test]
fn classify_twice_yields_equal_pipeline() {
    let registry = builtin_registry();
    let source = "ls *.txt;foo bar";
    let tokens = parse(source).unwrap();
    let first = classify(&tokens, source, &registry).unwrap();
    let reserialized = first.source_text(source);
    let tokens2 = parse(&reserialized).unwrap();
    let second = classify(&tokens2, &reserialized, &registry).unwrap();
    assert_eq!(first, second);
}

#[test]
fn classify_idempotent_after_discarded_tail() {
    let registry = builtin_registry();
    // the unparseable tail and the space before it are discarded by the lexer
    let source = "cd src ; foo (oops";
    let tokens = parse(source).unwrap();
    let first = classify(&tokens, source, &registry).unwrap();
    let reserialized = first.source_text(source);
    assert_eq!(reserialized, "cd src ; foo");
    let tokens2 = parse(&reserialized).unwrap();
    assert_eq!(tokens2, tokens);
    let second = classify(&tokens2, &reserialized, &registry).unwrap();
    assert_eq!(first, second);
}

#[test]
fn string_value_round_trip() {
    let value = Value::String("hello world".to_string());
    let literal = value.to_string();
    let line = format!("'{}'", literal);
    let tokens = parse(&line).unwrap();
    assert_eq!(tokens.item.len(), 1);
    let head = tokens.item[0];
    let call = Call {
        head,
        positional: Some(vec![head]),
        named: None,
        span: head.span,
    };
    let args = evaluate_args(call, &line).unwrap();
    assert_eq!(args.positional, Some(vec![value]));
}

#[test]
fn missing_required_argument() {
    let sig = Signature::build("need").required("what", SyntaxShape::String, "the thing");
    let head = Token::Bare.spanned(Span { start: 0, end: 4 });
    let err = build_call(&sig, head, &vec![], "need").unwrap_err();
    match err.error {
        ProximateShellError::ParseError(span, reason) => {
            assert_eq!(span, Span { start: 0, end: 4 });
            assert_eq!(reason.as_deref(), Some("missing required argument"));
        },
        _ => panic!("expected a parse error"),
    }
}

#[test]
fn unrecognized_flag() {
    let registry = builtin_registry();
    let source = "cd --bogus";
    let tokens = parse(source).unwrap();
    let err = classify(&tokens, source, &registry).unwrap_err();
    match err.error {
        ProximateShellError::ParseError(_, reason) => {
            assert_eq!(reason.as_deref(), Some("unrecognized flag"));
        },
        _ => panic!("expected a parse error"),
    }
}

#[test]
fn flag_expects_a_value() {
    let sig = Signature::build("t").named("level", SyntaxShape::Any, "how loud");
    let source = "--level";
    let tokens = parse(source).unwrap();
    let head = Token::Bare.spanned(Span { start: 0, end: 0 });
    let err = build_call(&sig, head, &tokens.item, source).unwrap_err();
    match err.error {
        ProximateShellError::ParseError(_, reason) => {
            assert_eq!(reason.as_deref(), Some("flag expects a value"));
        },
        _ => panic!("expected a parse error"),
    }
}

#[test]
fn flag_value_consumed() {
    let sig = Signature::build("t").named("level", SyntaxShape::Any, "how loud");
    let source = "--level 3";
    let tokens = parse(source).unwrap();
    let head = Token::Bare.spanned(Span { start: 0, end: 0 });
    let call = build_call(&sig, head, &tokens.item, source).unwrap();
    let args = evaluate_args(call, source).unwrap();
    let value = args.get_named("level").cloned();
    assert_eq!(value, Some(Value::String("3".to_string())));
}

#[test]
fn switch_present_and_absent() {
    let sig = Signature::build("t").switch("force", "go on regardless");
    let head = Token::Bare.spanned(Span { start: 0, end: 0 });

    let source = "--force";
    let tokens = parse(source).unwrap();
    let with_flag = build_call(&sig, head, &tokens.item, source).unwrap();
    assert!(with_flag.switch_present("force"));

    let without = build_call(&sig, head, &vec![], "").unwrap();
    assert!(!without.switch_present("force"));
    assert!(without.named.is_some());
}

#[test]
fn repeated_switch_replaces_in_place() {
    let sig = Signature::build("t").switch("force", "go on regardless");
    let head = Token::Bare.spanned(Span { start: 0, end: 0 });
    let source = "--force --force";
    let tokens = parse(source).unwrap();
    let call = build_call(&sig, head, &tokens.item, source).unwrap();
    assert!(call.switch_present("force"));
    assert_eq!(call.named.as_ref().unwrap().len(), 1);
}

#[test]
fn unexpected_argument() {
    let sig = Signature::build("bare");
    let source = "x";
    let tokens = parse(source).unwrap();
    let head = Token::Bare.spanned(Span { start: 0, end: 0 });
    let err = build_call(&sig, head, &tokens.item, source).unwrap_err();
    match err.error {
        ProximateShellError::ParseError(_, reason) => {
            assert_eq!(reason.as_deref(), Some("unexpected argument"));
        },
        _ => panic!("expected a parse error"),
    }
}

#[test]
fn mkdir_rest_collects_all() {
    let registry = builtin_registry();
    let source = "mkdir a b c";
    let tokens = parse(source).unwrap();
    let pipeline = classify(&tokens, source, &registry).unwrap();
    let internal = match &pipeline.commands.list[0] {
        ClassifiedCommand::Internal(ic) => ic.clone(),
        _ => panic!("expected an internal command"),
    };
    let args = evaluate_args(internal.args, source).unwrap();
    let mut binder = ConfigDeserializer::from_call_info(CallInfo { args }, MkDir.signature());
    let rest = binder.rest_strings();
    assert_eq!(rest, vec!["a".to_string(), "b".to_string(), "c".to_string()]);
}

#[test]
fn evaluate_rejects_whitespace_token() {
    let ws = Token::Whitespace.spanned(Span { start: 0, end: 1 });
    let call = Call { head: ws, positional: Some(vec![ws]), named: None, span: ws.span };
    let err = evaluate_args(call, " ").unwrap_err();
    assert_eq!(err.render(), "unexpected whitespace");
}

#[test]
fn run_reports_binding_fault_before_the_shell() {
    let args = EvaluatedArgs::new(Some(vec![Value::Boolean(true)]), None);
    let flag = AtomicBool::new(false);
    let err = Cd.run(CallInfo { args }, None, &flag, &EchoShell).unwrap_err();
    assert_eq!(err.render(), "expected a string value");

    let args2 = EvaluatedArgs::new(Some(vec![Value::Nothing]), None);
    let err2 = Ls.run(CallInfo { args: args2 }, None, &flag, &EchoShell).unwrap_err();
    assert_eq!(err2.render(), "expected a string value");
}

#[test]
fn binder_rejects_non_string_value() {
    let args = EvaluatedArgs::new(Some(vec![Value::Boolean(true)]), None);
    let sig = Signature::build("t").optional("field", SyntaxShape::String, "a field");
    let mut binder = ConfigDeserializer::from_call_info(CallInfo { args }, sig);
    let err = binder.opt_string_field("field").unwrap_err();
    assert_eq!(err.render(), "expected a string value");
}

#[test]
fn run_pipeline_dispatches_cd() {
    let mut context: Context<Builtin, EchoShell> = Context::new(EchoShell);
    context.registry.insert("cd".to_string(), Builtin::Cd(Cd));
    let source = "cd src";
    let tokens = parse(source).unwrap();
    let pipeline = classify(&tokens, source, &context.registry).unwrap();
    let out = run_pipeline(pipeline, &mut context, source).unwrap();
    assert_eq!(out, Some(vec![Value::String("src".to_string())]));
}

#[test]
fn run_pipeline_external_unsupported() {
    let mut context: Context<Builtin, EchoShell> = Context::new(EchoShell);
    let source = "foo bar";
    let tokens = parse(source).unwrap();
    let pipeline = classify(&tokens, source, &context.registry).unwrap();
    let err = run_pipeline(pipeline, &mut context, source).unwrap_err();
    assert_eq!(err.render(), "External commands are not supported");
}

#[test]
fn default_context_registers_ls_and_cd() {
    let context = create_default_context(EchoShell);
    assert!(context.registry.has("ls"));
    assert!(context.registry.has("cd"));
    assert!(!context.registry.has("mkdir"));
    let names = context.registry.names();
    assert_eq!(names, vec!["ls".to_string(), "cd".to_string()]);
}

#[test]
fn registry_insert_replaces_existing() {
    let mut registry: CommandRegistry<Builtin> = CommandRegistry::empty();
    registry.insert("cd".to_string(), Builtin::Cd(Cd));
    registry.insert("cd".to_string(), Builtin::Cd(Cd));
    assert_eq!(registry.names().len(), 1);
    assert!(registry.get("cd").is_some());
    assert!(registry.get("ls").is_none());
}

#[test]
fn two_commands_separated() {
    let registry = builtin_registry();
    let source = "cd a; cd b";
    let tokens = parse(source).unwrap();
    let pipeline = classify(&tokens, source, &registry).unwrap();
    assert_eq!(pipeline.commands.list.len(), 2);
    for node in &pipeline.commands.list {
        assert!(matches!(node, ClassifiedCommand::Internal(_)));
    }
}
