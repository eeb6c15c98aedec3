use queen_shell::hir::{NamedArguments, NamedValue};
use queen_shell::shell::{cd_target, format_entry, invalid_pattern_error, ls_target, not_a_directory_error};
use queen_shell::signature::{NamedType, Signature, SyntaxShape};
use queen_shell::{ProximateShellError, ShellError, Span, Value};

#[test]
fn int_renders_decimal() {
    assert_eq!(Value::Int(0).to_string(), "0");
    assert_eq!(Value::Int(-42).to_string(), "-42");
    assert_eq!(Value::Int(90125).to_string(), "90125");
    assert_eq!(Value::Int(i64::MIN).to_string(), "-9223372036854775808");
    assert_eq!(Value::Int(i64::MAX).to_string(), "9223372036854775807");
}

#[test]
fn list_renders_joined() {
    let v = Value::List(vec![
        Value::Int(1),
        Value::String("a".to_string()),
        Value::Boolean(true),
        Value::List(vec![Value::Path("/tmp".to_string())]),
    ]);
    assert_eq!(v.to_string(), "1 a true /tmp");
}

#[test]
fn scalar_renderings() {
    assert_eq!(Value::Nothing.to_string(), "");
    assert_eq!(Value::Boolean(false).to_string(), "false");
    assert_eq!(Value::Pattern("*.rs".to_string()).to_string(), "*.rs");
    assert_eq!(Value::Path("/a/b".to_string()).to_string(), "/a/b");
}

#[test]
fn parse_error_renders_marker_line() {
    let e = ShellError::parse_error(Span { start: 2, end: 5 }, Some("oops".to_string()));
    assert_eq!(e.render(), "  ^^^oops");
    let bare = ShellError::parse_error(Span { start: 0, end: 1 }, None);
    assert_eq!(bare.render(), "^");
}

#[test]
fn runtime_error_renders_message() {
    let e = ShellError::runtime_error("it broke".to_string());
    assert_eq!(e.render(), "it broke");
}

#[test]
fn cause_chain_keeps_inner_error() {
    let inner = ShellError::runtime_error("root cause".to_string());
    let outer = ShellError::runtime_error("outer".to_string()).caused_by(inner.clone());
    assert_eq!(outer.render(), "outer");
    assert_eq!(outer.cause.as_deref(), Some(&inner));
    assert!(inner.cause.is_none());
}

#[test]
fn named_arguments_keep_order_and_replace_in_place() {
    let mut named = NamedArguments::new();
    named.insert_switch("a".to_string(), Some(Span { start: 3, end: 7 }));
    named.insert_optional("b".to_string(), None);
    assert!(matches!(named.get("a"), Some(NamedValue::PresentSwitch(_))));
    assert!(matches!(named.get("b"), Some(NamedValue::AbsentValue)));
    assert!(named.get("c").is_none());
    assert_eq!(named.len(), 2);

    let order: Vec<String> = named.iter().into_iter().map(|e| e.0).collect();
    assert_eq!(order, vec!["a".to_string(), "b".to_string()]);

    named.insert_switch("a".to_string(), None);
    assert!(matches!(named.get("a"), Some(NamedValue::AbsentSwitch)));
    let order2: Vec<String> = named.iter().into_iter().map(|e| e.0).collect();
    assert_eq!(order2, vec!["a".to_string(), "b".to_string()]);
}

#[test]
fn signature_lookup_by_flag_name() {
    let sig = Signature::build("t")
        .switch("force", "go on")
        .named("level", SyntaxShape::Int, "how loud")
        .optional("path", SyntaxShape::Path, "where");
    assert_eq!(sig.get_named("force"), Some(NamedType::Switch));
    assert_eq!(sig.get_named("level"), Some(NamedType::Value(SyntaxShape::Int)));
    assert_eq!(sig.get_named("path"), None);
    assert_eq!(sig.positional.len(), 1);
}

#[test]
fn ls_target_choices() {
    assert_eq!(ls_target(None, false, true), None);
    assert_eq!(ls_target(None, false, false), Some("./*".to_string()));
    assert_eq!(ls_target(Some("src".to_string()), true, false), Some("src/*".to_string()));
    assert_eq!(ls_target(Some("src".to_string()), true, true), None);
    assert_eq!(ls_target(Some("a.txt".to_string()), false, false), Some("a.txt".to_string()));
}

#[test]
fn cd_target_choices() {
    assert_eq!(cd_target(Some("x".to_string()), None), Ok("x".to_string()));
    assert_eq!(cd_target(None, Some("/home".to_string())), Ok("/home".to_string()));
    let err = cd_target(None, None).unwrap_err();
    assert_eq!(err.render(), "Can not change to home directory");
}

#[test]
fn listing_entry_format() {
    assert_eq!(format_entry("d", "src"), "d: src");
    assert_eq!(format_entry(" ", "odd"), " : odd");
}

#[test]
fn invalid_pattern_message() {
    let e = invalid_pattern_error();
    assert_eq!(e.render(), "Invalid File or Pattern");
    assert!(e.cause.is_none());
}

#[test]
fn not_a_directory_message() {
    let e = not_a_directory_error("notes.txt");
    assert_eq!(e.render(), "notes.txt is not a directory");
    assert!(matches!(e.error, ProximateShellError::RuntimeError(_)));
}

#[test]
fn values_order_and_hash() {
    let mut values = vec![
        Value::String("b".to_string()),
        Value::Int(2),
        Value::Int(1),
        Value::String("a".to_string()),
    ];
    values.sort();
    assert_eq!(values[0], Value::Int(1));
    assert_eq!(values[1], Value::Int(2));
}

#[test]
fn char_repeat_is_plain_repetition() {
    // ties the rendering helper to std's repeat on a concrete case
    let e = ShellError::parse_error(Span { start: 4, end: 6 }, Some("x".to_string()));
    assert_eq!(e.render(), format!("{}{}{}", " ".repeat(4), "^".repeat(2), "x"));
}
