//! Front end of an interactive command shell: a span-tracked lexer, a
//! classifier that groups tokens into internal/external command nodes, a
//! signature-driven call builder, an evaluator from tokens to runtime values,
//! a binder from evaluated values onto typed argument records, and a command
//! registry that resolves names and dispatches calls.

pub mod classified;
pub mod classify;
pub mod commands;
pub mod context;
pub mod deserializer;
pub mod error;
pub mod evaluate;
pub mod hir;
pub mod imap;
pub mod laws;
pub mod parser;
pub mod shell;
pub mod signature;
pub mod span;
pub mod token;
pub mod value;

pub use error::{ProximateShellError, ShellError};
pub use shell::Shell;
pub use span::{HasSpan, Span, Spanned};
pub use token::{SpannedToken, Token};
pub use value::Value;
