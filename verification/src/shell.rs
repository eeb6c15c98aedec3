//! The shell capability: the external collaborator commands call back into
//! for anything that touches the operating system. Implementations live
//! outside the core; nothing is assumed of what they return.
//!
//! The small pure helpers here compute what those implementations decide
//! with: the glob target of a directory listing, the target of a directory
//! change, and the rendered form of a listing entry.

use vstd::prelude::*;

use core::sync::atomic::AtomicBool;

use crate::commands::{CdArgs, LsArgs, MkDirArgs};
use crate::error::{ProximateShellError, ShellError};
use crate::value::Value;

verus! {

/// What a command invocation hands a shell method besides its own arguments:
/// the optional upstream input values and the cooperative-cancellation flag,
/// polled between units of work.
pub struct RunnableContext<'a> {
    pub input: Option<Vec<Value>>,
    pub ctrl_c: &'a AtomicBool,
}

/// The capability interface to the operating system. `ls`, `cd` and `mkdir`
/// perform the built-in commands' effects; `path` names the current
/// location; `homedir` the user's home directory, when one is known.
pub trait Shell {
    fn name(&self) -> String;

    fn homedir(&self) -> Option<String>;

    fn ls(&self, args: LsArgs, ctx: &RunnableContext) -> Result<Option<Vec<Value>>, ShellError>;

    fn cd(&self, args: CdArgs) -> Result<Option<Vec<Value>>, ShellError>;

    fn mkdir(&self, args: MkDirArgs) -> Result<Option<Vec<Value>>, ShellError>;

    fn path(&self) -> String;
}

/// What a directory listing enumerates, given the argument and what the file
/// system says of it: nothing when the directory is empty, otherwise the
/// glob pattern to expand — the current directory's contents when no path
/// was given, the directory's contents for a directory, the path itself (a
/// file or a pattern) as it stands.
pub open spec fn spec_ls_target(
    path: Option<Seq<char>>,
    is_dir: bool,
    dir_empty: bool,
) -> Option<Seq<char>> {
    match path {
        None => if dir_empty {
            None
        } else {
            Some("./*"@)
        },
        Some(p) => if is_dir {
            if dir_empty {
                None
            } else {
                Some(p + "/*"@)
            }
        } else {
            Some(p)
        },
    }
}

/// Decide what a directory listing enumerates. `is_dir` and `dir_empty`
/// report what the file system said of the given path, or of the current
/// directory when none was given.
pub fn ls_target(path: Option<String>, is_dir: bool, dir_empty: bool) -> (r: Option<String>)
    ensures
        match r {
            Some(t) => spec_ls_target(
                match path {
                    Some(p) => Some(p@),
                    None => None,
                },
                is_dir,
                dir_empty,
            ) == Some(t@),
            None => spec_ls_target(
                match path {
                    Some(p) => Some(p@),
                    None => None,
                },
                is_dir,
                dir_empty,
            ) is None,
        },
{
    match path {
        None => {
            if dir_empty {
                None
            } else {
                Some(String::from_str("./*"))
            }
        },
        Some(p) => {
            if is_dir {
                if dir_empty {
                    None
                } else {
                    let mut t = p;
                    t.append("/*");
                    Some(t)
                }
            } else {
                Some(p)
            }
        },
    }
}

/// One rendered listing entry: the path kind, a colon and a blank, then the
/// file name.
pub fn format_entry(kind: &str, name: &str) -> (r: String)
    ensures
        r@ == kind@ + ": "@ + name@,
{
    let mut out = String::from_str(kind);
    out.append(": ");
    out.append(name);
    out
}

/// Where a directory change goes: the given target, or the home directory
/// when none was given; without a home directory the change fails, with
/// exactly this message.
pub fn cd_target(dst: Option<String>, home: Option<String>) -> (r: Result<String, ShellError>)
    ensures
        match dst {
            Some(d) => r == Ok::<String, ShellError>(d),
            None => match home {
                Some(h) => r == Ok::<String, ShellError>(h),
                None => r matches Err(e) && e.error matches ProximateShellError::RuntimeError(m)
                    && m@ == "Can not change to home directory"@ && e.cause is None,
            },
        },
{
    match dst {
        Some(d) => Ok(d),
        None => match home {
            Some(h) => Ok(h),
            None => Err(ShellError::runtime_error(String::from_str("Can not change to home directory"))),
        },
    }
}

/// The failure reported when a listing target names no file and matches no
/// pattern: exactly this wording.
pub fn invalid_pattern_error() -> (r: ShellError)
    ensures
        r.error matches ProximateShellError::RuntimeError(m) && m@ == "Invalid File or Pattern"@,
        r.cause is None,
{
    ShellError::runtime_error(String::from_str("Invalid File or Pattern"))
}

/// The failure reported when a change target exists but is no directory:
/// the path, then exactly this wording.
pub fn not_a_directory_error(target: &str) -> (r: ShellError)
    ensures
        r.error matches ProximateShellError::RuntimeError(m) && m@ == target@
            + " is not a directory"@,
        r.cause is None,
{
    let mut msg = String::from_str(target);
    msg.append(" is not a directory");
    ShellError::runtime_error(msg)
}

} // verus!
