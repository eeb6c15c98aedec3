//! The lexer: turns a line of source text into an ordered sequence of
//! spanned tokens. Disambiguation between quoted strings, flags, bare
//! (filename-shaped) words, glob patterns and external words follows a fixed
//! priority order, with maximal munch per token.
//!
//! Every lexing function is specified against a recursive specification-level
//! model of the grammar (`spec_node`, `spec_token_list`, ...), so the
//! executable lexer and its callers share one exact description.

use vstd::prelude::*;

use crate::error::{ProximateShellError, ShellError};
use crate::span::{Span, Spanned};
use crate::token::{SpannedToken, Token};

verus! {

// ---------------------------------------------------------------------------
// Character classes
// ---------------------------------------------------------------------------
/// Whether Unicode classifies `c` as a letter or a number; the result of
/// `char::is_alphanumeric`.
pub uninterp spec fn unicode_alphanumeric(c: char) -> bool;

/// Whether Unicode classifies `c` as white space; the result of
/// `char::is_whitespace`.
pub uninterp spec fn unicode_whitespace(c: char) -> bool;

/// Relies on `char::is_alphanumeric`: the result depends on the character
/// alone, by the `Alphabetic` and number general categories of Unicode.
/// Within ASCII those categories hold exactly the letters and digits, as the
/// documentation states.
#[verifier::external_body]
fn char_is_alphanumeric(c: char) -> (r: bool)
    ensures
        r == unicode_alphanumeric(c),
        ('a' as int) <= (c as int) <= ('z' as int) || ('A' as int) <= (c as int) <= ('Z' as int)
            || ('0' as int) <= (c as int) <= ('9' as int) ==> r,
        (c as int) < 128 && !(('a' as int) <= (c as int) <= ('z' as int) || ('A' as int) <= (
        c as int) <= ('Z' as int) || ('0' as int) <= (c as int) <= ('9' as int)) ==> !r,
{
    c.is_alphanumeric()
}

/// Relies on `char::is_whitespace`: the result depends on the character
/// alone, by the `White_Space` property of Unicode. Within ASCII that
/// property holds exactly the blank, the horizontal and vertical tabs, the
/// line and form feeds and the carriage return, as the documentation states.
#[verifier::external_body]
fn char_is_whitespace(c: char) -> (r: bool)
    ensures
        r == unicode_whitespace(c),
        c == ' ' || c == '\t' || c == '\n' || c == '\r' || c == '\u{B}' || c == '\u{C}' ==> r,
        (c as int) < 128 && !(c == ' ' || c == '\t' || c == '\n' || c == '\r' || c == '\u{B}'
            || c == '\u{C}') ==> !r,
{
    c.is_whitespace()
}

/// Characters an external word may contain: anything but shell punctuation
/// and white space.
pub open spec fn external_word_char(c: char) -> bool {
    !(c == ';' || c == '|' || c == '"' || c == '\'' || c == '$' || c == '(' || c == ')' || c == '['
        || c == ']' || c == '{' || c == '}' || c == '`') && !unicode_whitespace(c)
}

/// Characters that appear in globs and not in bare words.
pub open spec fn glob_specific_char(c: char) -> bool {
    c == '*' || c == '?'
}

pub open spec fn path_separator_char(c: char) -> bool {
    c == '\\' || c == '/' || c == ':'
}

/// Characters a filename-shaped word may start with.
pub open spec fn start_file_char(c: char) -> bool {
    c != '+' && (unicode_alphanumeric(c) || c == '\\' || c == '/' || c == '_' || c == '-' || c
        == '~' || c == '.')
}

/// Characters a filename-shaped word may continue with.
pub open spec fn file_char(c: char) -> bool {
    c == '+' || unicode_alphanumeric(c) || c == '\\' || c == '/' || c == '_' || c == '-' || c
        == '=' || c == '~' || c == ':' || c == '?'
}

/// Characters a glob pattern may start with.
pub open spec fn start_glob_char(c: char) -> bool {
    start_file_char(c) || glob_specific_char(c) || c == '.'
}

/// Characters a glob pattern may continue with.
pub open spec fn glob_char(c: char) -> bool {
    file_char(c) || glob_specific_char(c)
}

/// A filename continuation character that is neither a path separator nor
/// glob-specific: one the bare-word scan consumes without reclassifying.
pub open spec fn plain_file_char(c: char) -> bool {
    file_char(c) && !path_separator_char(c) && !glob_specific_char(c)
}

/// Characters that may follow a path separator inside one word.
pub open spec fn after_sep_char(c: char) -> bool {
    external_word_char(c) || file_char(c) || c == '.'
}

/// Space characters inside a line: blanks and tabs. Line breaks are
/// separators, not white space.
pub open spec fn space_char(c: char) -> bool {
    c == ' ' || c == '\t'
}

pub open spec fn separator_char(c: char) -> bool {
    c == ';' || c == '\n'
}

fn is_external_word_char(c: char) -> (r: bool)
    ensures
        r == external_word_char(c),
{
    match c {
        ';' | '|' | '"' | '\'' | '$' | '(' | ')' | '[' | ']' | '{' | '}' | '`' => false,
        _ => !char_is_whitespace(c),
    }
}

fn is_glob_specific_char(c: char) -> (r: bool)
    ensures
        r == glob_specific_char(c),
{
    c == '*' || c == '?'
}

fn is_path_separator(c: char) -> (r: bool)
    ensures
        r == path_separator_char(c),
{
    c == '\\' || c == '/' || c == ':'
}

fn is_start_file_char(c: char) -> (r: bool)
    ensures
        r == start_file_char(c),
{
    if c == '+' {
        false
    } else if char_is_alphanumeric(c) {
        true
    } else {
        c == '\\' || c == '/' || c == '_' || c == '-' || c == '~' || c == '.'
    }
}

fn is_file_char(c: char) -> (r: bool)
    ensures
        r == file_char(c),
{
    if c == '+' {
        true
    } else if char_is_alphanumeric(c) {
        true
    } else {
        c == '\\' || c == '/' || c == '_' || c == '-' || c == '=' || c == '~' || c == ':' || c
            == '?'
    }
}

fn is_start_glob_char(c: char) -> (r: bool)
    ensures
        r == start_glob_char(c),
{
    is_start_file_char(c) || is_glob_specific_char(c) || c == '.'
}

fn is_glob_char(c: char) -> (r: bool)
    ensures
        r == glob_char(c),
{
    is_file_char(c) || is_glob_specific_char(c)
}

// ---------------------------------------------------------------------------
// Scanning
// ---------------------------------------------------------------------------
/// The end of the maximal run of characters satisfying `pred` that starts at
/// `i`: the first position at or after `i` holding no such character.
pub open spec fn scan_while(s: Seq<char>, i: int, pred: spec_fn(char) -> bool) -> int
    decreases s.len() - i,
{
    if 0 <= i < s.len() && pred(s[i]) {
        scan_while(s, i + 1, pred)
    } else {
        i
    }
}

pub proof fn lemma_scan_while(s: Seq<char>, i: int, pred: spec_fn(char) -> bool)
    requires
        0 <= i <= s.len(),
    ensures
        i <= scan_while(s, i, pred) <= s.len(),
        forall|k: int| i <= k < scan_while(s, i, pred) ==> pred(s[k]),
        scan_while(s, i, pred) < s.len() ==> !pred(s[scan_while(s, i, pred)]),
    decreases s.len() - i,
{
    if i < s.len() && pred(s[i]) {
        lemma_scan_while(s, i + 1, pred);
    }
}

/// A run known to end at `j` pins the scan down: if every character in
/// `[i, j)` satisfies `pred` and `j` is the end or fails it, the scan from
/// `i` stops exactly at `j`.
pub proof fn lemma_scan_while_exact(s: Seq<char>, i: int, j: int, pred: spec_fn(char) -> bool)
    requires
        0 <= i <= j <= s.len(),
        forall|k: int| i <= k < j ==> pred(s[k]),
        j == s.len() || !pred(s[j]),
    ensures
        scan_while(s, i, pred) == j,
    decreases j - i,
{
    if i < j {
        lemma_scan_while_exact(s, i + 1, j, pred);
    }
}

/// The span `[a, b)`, built from specification-level positions.
pub open spec fn sp(a: int, b: int) -> Span {
    Span { start: a as usize, end: b as usize }
}

/// The character classes above, as values `scan_while` can take.
pub open spec fn space_pred() -> spec_fn(char) -> bool {
    |c: char| space_char(c)
}

pub open spec fn external_word_pred() -> spec_fn(char) -> bool {
    |c: char| external_word_char(c)
}

pub open spec fn quote_pred(q: char) -> spec_fn(char) -> bool {
    |c: char| c != q
}

pub open spec fn dot_pred() -> spec_fn(char) -> bool {
    |c: char| c == '.'
}

pub open spec fn plain_file_pred() -> spec_fn(char) -> bool {
    |c: char| plain_file_char(c)
}

pub open spec fn after_sep_pred() -> spec_fn(char) -> bool {
    |c: char| after_sep_char(c)
}

pub open spec fn glob_pred() -> spec_fn(char) -> bool {
    |c: char| glob_char(c)
}

/// The token `t` covering `[a, b)`, at the specification level.
pub open spec fn stok(t: Token, a: int, b: int) -> SpannedToken {
    Spanned { item: t, span: sp(a, b) }
}

/// How an executable lexing result corresponds to the specification model.
pub open spec fn res_matches(r: Option<(usize, SpannedToken)>, m: Option<(int, SpannedToken)>) -> bool {
    match r {
        Some(p) => m == Some((p.0 as int, p.1)),
        None => m is None,
    }
}

// ---------------------------------------------------------------------------
// Quoted strings, separators, white space, external words
// ---------------------------------------------------------------------------
/// A string delimited by the quote `q`: the token's inner span excludes the
/// delimiters. An unterminated quote matches nothing.
pub open spec fn spec_quoted(s: Seq<char>, i: int, q: char) -> Option<(int, SpannedToken)> {
    if 0 <= i < s.len() && s[i] == q {
        let j = scan_while(s, i + 1, quote_pred(q));
        if j < s.len() {
            Some((j + 1, stok(Token::String(sp(i + 1, j)), i, j + 1)))
        } else {
            None
        }
    } else {
        None
    }
}

pub open spec fn spec_sq_string(s: Seq<char>, i: int) -> Option<(int, SpannedToken)> {
    spec_quoted(s, i, '\'')
}

pub open spec fn spec_dq_string(s: Seq<char>, i: int) -> Option<(int, SpannedToken)> {
    spec_quoted(s, i, '"')
}

pub open spec fn spec_string(s: Seq<char>, i: int) -> Option<(int, SpannedToken)> {
    match spec_sq_string(s, i) {
        Some(r) => Some(r),
        None => spec_dq_string(s, i),
    }
}

pub open spec fn spec_separator(s: Seq<char>, i: int) -> Option<(int, SpannedToken)> {
    if 0 <= i < s.len() && separator_char(s[i]) {
        Some((i + 1, stok(Token::Separator, i, i + 1)))
    } else {
        None
    }
}

pub open spec fn spec_whitespace(s: Seq<char>, i: int) -> Option<(int, SpannedToken)> {
    let j = scan_while(s, i, space_pred());
    if j > i {
        Some((j, stok(Token::Whitespace, i, j)))
    } else {
        None
    }
}

pub open spec fn spec_external_word(s: Seq<char>, i: int) -> Option<(int, SpannedToken)> {
    let j = scan_while(s, i, external_word_pred());
    if j > i {
        Some((j, stok(Token::ExternalWord, i, j)))
    } else {
        None
    }
}

fn quoted(s: &Vec<char>, i: usize, q: char) -> (r: Option<(usize, SpannedToken)>)
    requires
        i <= s@.len(),
    ensures
        res_matches(r, spec_quoted(s@, i as int, q)),
{
    if i >= s.len() || s[i] != q {
        return None;
    }
    let mut j = i + 1;
    loop
        invariant
            i + 1 <= j <= s@.len(),
            i < s@.len(),
            s@[i as int] == q,
            scan_while(s@, i + 1, quote_pred(q)) == scan_while(s@, j as int, quote_pred(q)),
        ensures
            i + 1 <= j <= s@.len(),
            scan_while(s@, i + 1, quote_pred(q)) == j as int,
        decreases s@.len() - j,
    {
        if j == s.len() {
            proof {
                assert(scan_while(s@, j as int, quote_pred(q)) == j as int);
            }
            break ;
        }
        if s[j] == q {
            proof {
                assert(!quote_pred(q)(s@[j as int]));
                assert(scan_while(s@, j as int, quote_pred(q)) == j as int);
            }
            break ;
        }
        proof {
            assert(quote_pred(q)(s@[j as int]));
            assert(scan_while(s@, j as int, quote_pred(q)) == scan_while(s@, j + 1, quote_pred(q)));
        }
        j = j + 1;
    }
    if j < s.len() {
        Some((j + 1, Token::String(Span::new(i + 1, j)).spanned(Span::new(i, j + 1))))
    } else {
        None
    }
}

/// A single-quoted string literal.
pub fn sq_string(s: &Vec<char>, i: usize) -> (r: Option<(usize, SpannedToken)>)
    requires
        i <= s@.len(),
    ensures
        res_matches(r, spec_sq_string(s@, i as int)),
{
    quoted(s, i, '\'')
}

/// A double-quoted string literal.
pub fn dq_string(s: &Vec<char>, i: usize) -> (r: Option<(usize, SpannedToken)>)
    requires
        i <= s@.len(),
    ensures
        res_matches(r, spec_dq_string(s@, i as int)),
{
    quoted(s, i, '"')
}

/// A string literal of either quote kind.
pub fn string(s: &Vec<char>, i: usize) -> (r: Option<(usize, SpannedToken)>)
    requires
        i <= s@.len(),
    ensures
        res_matches(r, spec_string(s@, i as int)),
{
    match sq_string(s, i) {
        Some(r) => Some(r),
        None => dq_string(s, i),
    }
}

/// A statement separator: `;` or a line break.
pub fn separator(s: &Vec<char>, i: usize) -> (r: Option<(usize, SpannedToken)>)
    requires
        i <= s@.len(),
    ensures
        res_matches(r, spec_separator(s@, i as int)),
{
    if i < s.len() && (s[i] == ';' || s[i] == '\n') {
        Some((i + 1, Token::Separator.spanned(Span::new(i, i + 1))))
    } else {
        None
    }
}

/// A maximal run of blanks and tabs.
pub fn whitespace(s: &Vec<char>, i: usize) -> (r: Option<(usize, SpannedToken)>)
    requires
        i <= s@.len(),
    ensures
        res_matches(r, spec_whitespace(s@, i as int)),
{
    let mut j = i;
    loop
        invariant
            i <= j <= s@.len(),
            scan_while(s@, i as int, space_pred()) == scan_while(s@, j as int, space_pred()),
        ensures
            i <= j <= s@.len(),
            scan_while(s@, i as int, space_pred()) == j as int,
        decreases s@.len() - j,
    {
        if j == s.len() {
            proof {
                assert(scan_while(s@, j as int, space_pred()) == j as int);
            }
            break ;
        }
        if !(s[j] == ' ' || s[j] == '\t') {
            proof {
                assert(!space_pred()(s@[j as int]));
                assert(scan_while(s@, j as int, space_pred()) == j as int);
            }
            break ;
        }
        proof {
            assert(space_pred()(s@[j as int]));
            assert(scan_while(s@, j as int, space_pred()) == scan_while(s@, j + 1, space_pred()));
        }
        j = j + 1;
    }
    if j > i {
        Some((j, Token::Whitespace.spanned(Span::new(i, j))))
    } else {
        None
    }
}

/// A maximal run of external-word characters.
pub fn external_word(s: &Vec<char>, i: usize) -> (r: Option<(usize, SpannedToken)>)
    requires
        i <= s@.len(),
    ensures
        res_matches(r, spec_external_word(s@, i as int)),
{
    let mut j = i;
    loop
        invariant
            i <= j <= s@.len(),
            scan_while(s@, i as int, external_word_pred()) == scan_while(
                s@,
                j as int,
                external_word_pred(),
            ),
        ensures
            i <= j <= s@.len(),
            scan_while(s@, i as int, external_word_pred()) == j as int,
        decreases s@.len() - j,
    {
        if j == s.len() {
            proof {
                assert(scan_while(s@, j as int, external_word_pred()) == j as int);
            }
            break ;
        }
        if !is_external_word_char(s[j]) {
            proof {
                assert(!external_word_pred()(s@[j as int]));
                assert(scan_while(s@, j as int, external_word_pred()) == j as int);
            }
            break ;
        }
        proof {
            assert(external_word_pred()(s@[j as int]));
            assert(scan_while(s@, j as int, external_word_pred()) == scan_while(
                s@,
                j + 1,
                external_word_pred(),
            ));
        }
        j = j + 1;
    }
    if j > i {
        Some((j, Token::ExternalWord.spanned(Span::new(i, j))))
    } else {
        None
    }
}

// ---------------------------------------------------------------------------
// Runs of white space and separators
// ---------------------------------------------------------------------------
/// One space-like token: white space, or failing that a separator.
pub open spec fn spec_space_item(s: Seq<char>, i: int) -> Option<(int, SpannedToken)> {
    match spec_whitespace(s, i) {
        Some(r) => Some(r),
        None => spec_separator(s, i),
    }
}

/// One or more space-like tokens.
pub open spec fn spec_any_space(s: Seq<char>, i: int) -> Option<(int, Seq<SpannedToken>)>
    decreases s.len() - i,
{
    match spec_space_item(s, i) {
        None => None,
        Some((j, t)) => if i < j <= s.len() {
            match spec_any_space(s, j) {
                None => Some((j, seq![t])),
                Some((k, rest)) => Some((k, seq![t] + rest)),
            }
        } else {
            None
        },
    }
}

pub proof fn lemma_spec_space_item_bounds(s: Seq<char>, i: int)
    requires
        0 <= i <= s.len(),
    ensures
        spec_space_item(s, i) matches Some(p) ==> i < p.0 <= s.len(),
{
    lemma_scan_while(s, i, space_pred());
}

pub proof fn lemma_spec_any_space_bounds(s: Seq<char>, i: int)
    requires
        0 <= i <= s.len(),
    ensures
        spec_any_space(s, i) matches Some(p) ==> i < p.0 <= s.len(),
    decreases s.len() - i,
{
    lemma_spec_space_item_bounds(s, i);
    match spec_space_item(s, i) {
        None => {},
        Some((j, t)) => {
            lemma_spec_any_space_bounds(s, j);
        },
    }
}

fn space_item(s: &Vec<char>, i: usize) -> (r: Option<(usize, SpannedToken)>)
    requires
        i <= s@.len(),
    ensures
        res_matches(r, spec_space_item(s@, i as int)),
{
    match whitespace(s, i) {
        Some(r) => Some(r),
        None => separator(s, i),
    }
}

/// One or more white-space or separator tokens.
pub fn any_space(s: &Vec<char>, i: usize) -> (r: Option<(usize, Vec<SpannedToken>)>)
    requires
        i <= s@.len(),
    ensures
        match r {
            Some((j, toks)) => spec_any_space(s@, i as int) == Some((j as int, toks@)) && i < j
                <= s@.len(),
            None => spec_any_space(s@, i as int) is None,
        },
    decreases s@.len() - i,
{
    match space_item(s, i) {
        None => None,
        Some((j, t)) => {
            proof {
                lemma_spec_space_item_bounds(s@, i as int);
            }
            match any_space(s, j) {
                None => {
                    let mut v: Vec<SpannedToken> = Vec::new();
                    v.push(t);
                    proof {
                        assert(v@ =~= seq![t]);
                    }
                    Some((j, v))
                },
                Some((k, mut rest)) => {
                    let ghost rest0 = rest@;
                    rest.insert(0, t);
                    proof {
                        assert(rest@ =~= seq![t] + rest0);
                    }
                    Some((k, rest))
                },
            }
        },
    }
}

// ---------------------------------------------------------------------------
// Filename-shaped words, glob patterns, flags
// ---------------------------------------------------------------------------
/// Whether a glob-specific character occurs in `s[a .. b)`.
pub open spec fn has_glob_specific(s: Seq<char>, a: int, b: int) -> bool {
    exists|k: int| a <= k < b && glob_specific_char(s[k])
}

/// The rest of a word once a path separator or a glob-specific character has
/// been seen at `cur - 1`: everything up to the first character that cannot
/// follow a separator is consumed, and the word is a glob pattern exactly
/// when a glob-specific character was seen anywhere in it.
pub open spec fn spec_filename_finish(s: Seq<char>, start: int, cur: int, glob_seen: bool) -> (
    int,
    SpannedToken,
) {
    let j = scan_while(s, cur, after_sep_pred());
    if j == cur {
        (cur, stok(if glob_seen { Token::GlobPattern } else { Token::Bare }, start, cur))
    } else {
        let glob = glob_seen || has_glob_specific(s, cur, j);
        (j, stok(if glob { Token::GlobPattern } else { Token::Bare }, start, j))
    }
}

/// A filename-shaped word: a bare word, reclassified as a glob pattern when a
/// glob-specific character occurs in it or in its continuation after a path
/// separator.
pub open spec fn spec_filename(s: Seq<char>, i: int) -> Option<(int, SpannedToken)> {
    if !(0 <= i < s.len()) {
        None
    } else if path_separator_char(s[i]) {
        Some(spec_filename_finish(s, i, i + 1, false))
    } else if glob_specific_char(s[i]) {
        Some(spec_filename_finish(s, i, i + 1, true))
    } else if s[i] == '.' || start_file_char(s[i]) {
        let j0 = if s[i] == '.' {
            scan_while(s, i, dot_pred())
        } else {
            i + 1
        };
        let j = scan_while(s, j0, plain_file_pred());
        if j < s.len() && path_separator_char(s[j]) {
            Some(spec_filename_finish(s, i, j + 1, false))
        } else if j < s.len() && glob_specific_char(s[j]) {
            Some(spec_filename_finish(s, i, j + 1, true))
        } else {
            Some((j, stok(Token::Bare, i, j)))
        }
    } else {
        None
    }
}

/// A glob pattern recognized directly: a glob start followed by glob
/// characters, rejected when the next character could have continued a word.
pub open spec fn spec_pattern(s: Seq<char>, i: int) -> Option<(int, SpannedToken)> {
    if !(0 <= i < s.len()) {
        None
    } else if s[i] == '.' || start_glob_char(s[i]) {
        let j0 = if s[i] == '.' {
            scan_while(s, i, dot_pred())
        } else {
            i + 1
        };
        let j = scan_while(s, j0, glob_pred());
        if j < s.len() && s[j] != '.' && (external_word_char(s[j]) || glob_specific_char(s[j])) {
            None
        } else {
            Some((j, stok(Token::GlobPattern, i, j)))
        }
    } else {
        None
    }
}

/// `--` followed by a filename-shaped word; the token's inner span covers the
/// characters after `--`.
pub open spec fn spec_flag(s: Seq<char>, i: int) -> Option<(int, SpannedToken)> {
    if 0 <= i && i + 2 <= s.len() && s[i] == '-' && s[i + 1] == '-' {
        match spec_filename(s, i + 2) {
            Some((j, word)) => Some((j, stok(Token::Flag(word.span), i, j))),
            None => None,
        }
    } else {
        None
    }
}

/// One token: the alternatives in priority order.
pub open spec fn spec_node(s: Seq<char>, i: int) -> Option<(int, SpannedToken)> {
    match spec_string(s, i) {
        Some(r) => Some(r),
        None => match spec_flag(s, i) {
            Some(r) => Some(r),
            None => match spec_filename(s, i) {
                Some(r) => Some(r),
                None => match spec_pattern(s, i) {
                    Some(r) => Some(r),
                    None => spec_external_word(s, i),
                },
            },
        },
    }
}

pub proof fn lemma_spec_filename_bounds(s: Seq<char>, i: int)
    requires
        0 <= i <= s.len(),
    ensures
        spec_filename(s, i) matches Some(p) ==> i < p.0 <= s.len() && p.1.span == sp(i, p.0) && (
        p.1.item is Bare || p.1.item is GlobPattern),
{
    if i < s.len() {
        lemma_scan_while(s, i, dot_pred());
        let j0 = if s[i] == '.' {
            scan_while(s, i, dot_pred())
        } else {
            i + 1
        };
        if s[i] == '.' {
            assert(dot_pred()(s[i]));
            assert(scan_while(s, i, dot_pred()) == scan_while(s, i + 1, dot_pred()));
            lemma_scan_while(s, i + 1, dot_pred());
        }
        if i + 1 <= j0 <= s.len() {
            lemma_scan_while(s, j0, plain_file_pred());
            let j = scan_while(s, j0, plain_file_pred());
            if j < s.len() {
                lemma_spec_filename_finish_bounds(s, i, j + 1, false);
                lemma_spec_filename_finish_bounds(s, i, j + 1, true);
            }
        }
        lemma_spec_filename_finish_bounds(s, i, i + 1, false);
        lemma_spec_filename_finish_bounds(s, i, i + 1, true);
    }
}

pub proof fn lemma_spec_filename_finish_bounds(s: Seq<char>, start: int, cur: int, glob_seen: bool)
    requires
        0 <= start < cur <= s.len(),
    ensures
        ({
            let (j, t) = spec_filename_finish(s, start, cur, glob_seen);
            cur <= j <= s.len() && t.span == sp(start, j)
        }),
{
    lemma_scan_while(s, cur, after_sep_pred());
}

pub proof fn lemma_spec_pattern_bounds(s: Seq<char>, i: int)
    requires
        0 <= i <= s.len(),
    ensures
        spec_pattern(s, i) matches Some(p) ==> i < p.0 <= s.len() && p.1.span == sp(i, p.0),
{
    if i < s.len() {
        lemma_scan_while(s, i, dot_pred());
        let j0 = if s[i] == '.' {
            scan_while(s, i, dot_pred())
        } else {
            i + 1
        };
        if s[i] == '.' {
            assert(dot_pred()(s[i]));
            assert(scan_while(s, i, dot_pred()) == scan_while(s, i + 1, dot_pred()));
            lemma_scan_while(s, i + 1, dot_pred());
        }
        if i + 1 <= j0 <= s.len() {
            lemma_scan_while(s, j0, glob_pred());
        }
    }
}

pub proof fn lemma_spec_quoted_bounds(s: Seq<char>, i: int, q: char)
    requires
        0 <= i <= s.len() <= usize::MAX,
    ensures
        spec_quoted(s, i, q) matches Some(p) ==> i < p.0 <= s.len() && p.1.span == sp(i, p.0)
            && token_wf(p.1, s.len() as int) && token_contained(p.1),
{
    if i < s.len() {
        lemma_scan_while(s, i + 1, quote_pred(q));
    }
}

pub proof fn lemma_spec_node_bounds(s: Seq<char>, i: int)
    requires
        0 <= i <= s.len() <= usize::MAX,
    ensures
        spec_node(s, i) matches Some(p) ==> i < p.0 <= s.len() && p.1.span == sp(i, p.0)
            && token_wf(p.1, s.len() as int) && token_contained(p.1),
{
    lemma_spec_quoted_bounds(s, i, '\'');
    lemma_spec_quoted_bounds(s, i, '"');
    lemma_spec_filename_bounds(s, i);
    if i + 2 <= s.len() {
        lemma_spec_filename_bounds(s, i + 2);
    }
    lemma_spec_pattern_bounds(s, i);
    lemma_scan_while(s, i, external_word_pred());
}

// ---------------------------------------------------------------------------
// Executable scans over the filename character classes
// ---------------------------------------------------------------------------
fn scan_dots(s: &Vec<char>, i: usize) -> (j: usize)
    requires
        i <= s@.len(),
    ensures
        j as int == scan_while(s@, i as int, dot_pred()),
        i <= j <= s@.len(),
{
    let mut j = i;
    loop
        invariant
            i <= j <= s@.len(),
            scan_while(s@, i as int, dot_pred()) == scan_while(s@, j as int, dot_pred()),
        ensures
            i <= j <= s@.len(),
            scan_while(s@, i as int, dot_pred()) == j as int,
        decreases s@.len() - j,
    {
        if j == s.len() || !(s[j] == '.') {
            proof {
                assert(scan_while(s@, j as int, dot_pred()) == j as int);
            }
            break ;
        }
        proof {
            assert(dot_pred()(s@[j as int]));
            assert(scan_while(s@, j as int, dot_pred()) == scan_while(s@, j + 1, dot_pred()));
        }
        j = j + 1;
    }
    j
}

fn scan_plain_file(s: &Vec<char>, i: usize) -> (j: usize)
    requires
        i <= s@.len(),
    ensures
        j as int == scan_while(s@, i as int, plain_file_pred()),
        i <= j <= s@.len(),
{
    let mut j = i;
    loop
        invariant
            i <= j <= s@.len(),
            scan_while(s@, i as int, plain_file_pred()) == scan_while(
                s@,
                j as int,
                plain_file_pred(),
            ),
        ensures
            i <= j <= s@.len(),
            scan_while(s@, i as int, plain_file_pred()) == j as int,
        decreases s@.len() - j,
    {
        if j == s.len() {
            proof {
                assert(scan_while(s@, j as int, plain_file_pred()) == j as int);
            }
            break ;
        }
        let ok = is_file_char(s[j]) && !is_path_separator(s[j]) && !is_glob_specific_char(s[j]);
        if !ok {
            proof {
                assert(!plain_file_pred()(s@[j as int]));
                assert(scan_while(s@, j as int, plain_file_pred()) == j as int);
            }
            break ;
        }
        proof {
            assert(plain_file_pred()(s@[j as int]));
            assert(scan_while(s@, j as int, plain_file_pred()) == scan_while(
                s@,
                j + 1,
                plain_file_pred(),
            ));
        }
        j = j + 1;
    }
    j
}

fn scan_after_sep(s: &Vec<char>, i: usize) -> (j: usize)
    requires
        i <= s@.len(),
    ensures
        j as int == scan_while(s@, i as int, after_sep_pred()),
        i <= j <= s@.len(),
{
    let mut j = i;
    loop
        invariant
            i <= j <= s@.len(),
            scan_while(s@, i as int, after_sep_pred()) == scan_while(
                s@,
                j as int,
                after_sep_pred(),
            ),
        ensures
            i <= j <= s@.len(),
            scan_while(s@, i as int, after_sep_pred()) == j as int,
        decreases s@.len() - j,
    {
        if j == s.len() {
            proof {
                assert(scan_while(s@, j as int, after_sep_pred()) == j as int);
            }
            break ;
        }
        let ok = is_external_word_char(s[j]) || is_file_char(s[j]) || s[j] == '.';
        if !ok {
            proof {
                assert(!after_sep_pred()(s@[j as int]));
                assert(scan_while(s@, j as int, after_sep_pred()) == j as int);
            }
            break ;
        }
        proof {
            assert(after_sep_pred()(s@[j as int]));
            assert(scan_while(s@, j as int, after_sep_pred()) == scan_while(
                s@,
                j + 1,
                after_sep_pred(),
            ));
        }
        j = j + 1;
    }
    j
}

fn scan_glob(s: &Vec<char>, i: usize) -> (j: usize)
    requires
        i <= s@.len(),
    ensures
        j as int == scan_while(s@, i as int, glob_pred()),
        i <= j <= s@.len(),
{
    let mut j = i;
    loop
        invariant
            i <= j <= s@.len(),
            scan_while(s@, i as int, glob_pred()) == scan_while(s@, j as int, glob_pred()),
        ensures
            i <= j <= s@.len(),
            scan_while(s@, i as int, glob_pred()) == j as int,
        decreases s@.len() - j,
    {
        if j == s.len() {
            proof {
                assert(scan_while(s@, j as int, glob_pred()) == j as int);
            }
            break ;
        }
        if !is_glob_char(s[j]) {
            proof {
                assert(!glob_pred()(s@[j as int]));
                assert(scan_while(s@, j as int, glob_pred()) == j as int);
            }
            break ;
        }
        proof {
            assert(glob_pred()(s@[j as int]));
            assert(scan_while(s@, j as int, glob_pred()) == scan_while(s@, j + 1, glob_pred()));
        }
        j = j + 1;
    }
    j
}

fn find_glob_specific(s: &Vec<char>, a: usize, b: usize) -> (r: bool)
    requires
        a <= b <= s@.len(),
    ensures
        r == has_glob_specific(s@, a as int, b as int),
{
    let mut k = a;
    loop
        invariant
            a <= k <= b <= s@.len(),
            forall|m: int| a <= m < k ==> !glob_specific_char(s@[m]),
        ensures
            (k < b && glob_specific_char(s@[k as int]) && forall|m: int|
                a <= m < k ==> !glob_specific_char(s@[m])) || (k == b && forall|m: int|
                a <= m < b ==> !glob_specific_char(s@[m])),
        decreases b - k,
    {
        if k == b {
            break ;
        }
        if is_glob_specific_char(s[k]) {
            break ;
        }
        k = k + 1;
    }
    k < b
}

fn filename_finish(s: &Vec<char>, start: usize, cur: usize, glob_seen: bool) -> (r: (
    usize,
    SpannedToken,
))
    requires
        start < cur <= s@.len(),
    ensures
        ({
            let (j, t) = spec_filename_finish(s@, start as int, cur as int, glob_seen);
            r.0 as int == j && r.1 == t
        }),
{
    let j = scan_after_sep(s, cur);
    if j == cur {
        (
            cur,
            (if glob_seen {
                Token::GlobPattern
            } else {
                Token::Bare
            }).spanned(Span::new(start, cur)),
        )
    } else {
        let glob = glob_seen || find_glob_specific(s, cur, j);
        (
            j,
            (if glob {
                Token::GlobPattern
            } else {
                Token::Bare
            }).spanned(Span::new(start, j)),
        )
    }
}

/// A filename-shaped word, classified as `Bare` or reclassified as
/// `GlobPattern` when glob-specific characters occur in it.
pub fn filename(s: &Vec<char>, i: usize) -> (r: Option<(usize, SpannedToken)>)
    requires
        i <= s@.len(),
    ensures
        res_matches(r, spec_filename(s@, i as int)),
{
    if i >= s.len() {
        return None;
    }
    let c = s[i];
    if is_path_separator(c) {
        Some(filename_finish(s, i, i + 1, false))
    } else if is_glob_specific_char(c) {
        Some(filename_finish(s, i, i + 1, true))
    } else if c == '.' || is_start_file_char(c) {
        let j0 = if c == '.' {
            scan_dots(s, i)
        } else {
            i + 1
        };
        proof {
            if c == '.' {
                assert(dot_pred()(s@[i as int]));
                assert(scan_while(s@, i as int, dot_pred()) == scan_while(s@, i + 1, dot_pred()));
                lemma_scan_while(s@, i + 1, dot_pred());
            }
        }
        let j = scan_plain_file(s, j0);
        if j < s.len() && is_path_separator(s[j]) {
            Some(filename_finish(s, i, j + 1, false))
        } else if j < s.len() && is_glob_specific_char(s[j]) {
            Some(filename_finish(s, i, j + 1, true))
        } else {
            Some((j, Token::Bare.spanned(Span::new(i, j))))
        }
    } else {
        None
    }
}

/// The start of a filename-shaped word: a run of dots, or one character a
/// filename may start with.
pub fn start_filename(s: &Vec<char>, i: usize) -> (r: Option<usize>)
    requires
        i <= s@.len(),
    ensures
        ({
            let ok = i < s@.len() && (s@[i as int] == '.' || start_file_char(s@[i as int]));
            match r {
                Some(j) => ok && j as int == (if s@[i as int] == '.' {
                    scan_while(s@, i as int, dot_pred())
                } else {
                    i + 1
                }),
                None => !ok,
            }
        }),
{
    if i < s.len() && s[i] == '.' {
        Some(scan_dots(s, i))
    } else if i < s.len() && is_start_file_char(s[i]) {
        Some(i + 1)
    } else {
        None
    }
}

/// The start of a glob pattern: a run of dots, or one character a glob may
/// start with.
pub fn start_pattern(s: &Vec<char>, i: usize) -> (r: Option<usize>)
    requires
        i <= s@.len(),
    ensures
        ({
            let ok = i < s@.len() && (s@[i as int] == '.' || start_glob_char(s@[i as int]));
            match r {
                Some(j) => ok && j as int == (if s@[i as int] == '.' {
                    scan_while(s@, i as int, dot_pred())
                } else {
                    i + 1
                }),
                None => !ok,
            }
        }),
{
    if i < s.len() && s[i] == '.' {
        Some(scan_dots(s, i))
    } else if i < s.len() && is_start_glob_char(s[i]) {
        Some(i + 1)
    } else {
        None
    }
}

/// A glob pattern recognized directly.
pub fn pattern(s: &Vec<char>, i: usize) -> (r: Option<(usize, SpannedToken)>)
    requires
        i <= s@.len(),
    ensures
        res_matches(r, spec_pattern(s@, i as int)),
{
    match start_pattern(s, i) {
        None => None,
        Some(j0) => {
            proof {
                if s@[i as int] == '.' {
                    assert(dot_pred()(s@[i as int]));
                    assert(scan_while(s@, i as int, dot_pred()) == scan_while(
                        s@,
                        i + 1,
                        dot_pred(),
                    ));
                    lemma_scan_while(s@, i + 1, dot_pred());
                }
            }
            let j = scan_glob(s, j0);
            if j < s.len() && !(s[j] == '.') && (is_external_word_char(s[j])
                || is_glob_specific_char(s[j])) {
                None
            } else {
                Some((j, Token::GlobPattern.spanned(Span::new(i, j))))
            }
        },
    }
}

/// `--` followed by a filename-shaped word.
pub fn flag(s: &Vec<char>, i: usize) -> (r: Option<(usize, SpannedToken)>)
    requires
        i <= s@.len(),
    ensures
        res_matches(r, spec_flag(s@, i as int)),
{
    if i < s.len() && i + 1 < s.len() && s[i] == '-' && s[i + 1] == '-' {
        match filename(s, i + 2) {
            Some((j, word)) => {
                proof {
                    lemma_spec_filename_bounds(s@, i + 2);
                }
                Some((j, Token::Flag(word.span).spanned(Span::new(i, j))))
            },
            None => None,
        }
    } else {
        None
    }
}

/// One token at `i`: string, flag, filename, pattern or external word, in
/// that priority order.
pub fn node(s: &Vec<char>, i: usize) -> (r: Option<(usize, SpannedToken)>)
    requires
        i <= s@.len(),
    ensures
        res_matches(r, spec_node(s@, i as int)),
{
    match string(s, i) {
        Some(r) => Some(r),
        None => match flag(s, i) {
            Some(r) => Some(r),
            None => match filename(s, i) {
                Some(r) => Some(r),
                None => match pattern(s, i) {
                    Some(r) => Some(r),
                    None => external_word(s, i),
                },
            },
        },
    }
}

// ---------------------------------------------------------------------------
// Token lists
// ---------------------------------------------------------------------------
/// The greedy token list starting at `i`: tokens are read until none
/// matches; a run of space tokens read after the last node, with nothing
/// following it, is rolled back so the list never ends in dangling trailing
/// white space or separators. The first component is the position after the
/// consumed text.
pub open spec fn spec_token_list(s: Seq<char>, i: int) -> (int, Seq<SpannedToken>)
    decreases s.len() - i,
{
    match spec_node(s, i) {
        None => (i, Seq::<SpannedToken>::empty()),
        Some((j, tok)) => if i < j <= s.len() {
            match spec_any_space(s, j) {
                None => (j, seq![tok]),
                Some((k, sps)) => if j < k <= s.len() {
                    let rest = spec_token_list(s, k);
                    if rest.1.len() == 0 {
                        (j, seq![tok])
                    } else {
                        (rest.0, seq![tok] + sps + rest.1)
                    }
                } else {
                    (j, seq![tok])
                },
            }
        } else {
            (i, Seq::<SpannedToken>::empty())
        },
    }
}

/// The tokens preceded and followed by optional white space; leading space
/// tokens are dropped from the list, trailing ones are kept, and the span
/// covers both. The first component is the position after the consumed text.
pub open spec fn spec_spaced_token_list(s: Seq<char>, i: int) -> (int, Seq<SpannedToken>) {
    let i1 = match spec_any_space(s, i) {
        Some((j, _)) => j,
        None => i,
    };
    let (e, items) = spec_token_list(s, i1);
    match spec_any_space(s, e) {
        Some((j2, post)) => (j2, items + post),
        None => (e, items),
    }
}

/// Tokens whose spans lie inside `[lo, hi)`, in order and without overlap:
/// what the lexer guarantees of every token list it returns.
pub open spec fn spans_chained(toks: Seq<SpannedToken>, lo: int, hi: int) -> bool {
    &&& forall|m: int|
        0 <= m < toks.len() ==> ((#[trigger] toks[m]).span.wf() && lo <= toks[m].span.start
            && toks[m].span.end <= hi)
    &&& forall|m: int|
        0 <= m < toks.len() - 1 ==> (#[trigger] toks[m]).span.end <= toks[m + 1].span.start
}

/// Every span a token carries lies inside a source of length `n`: its own
/// span, and the inner span of a string or flag token.
pub open spec fn token_wf(tok: SpannedToken, n: int) -> bool {
    &&& tok.span.in_source(n)
    &&& match tok.item {
        Token::String(inner) => inner.in_source(n),
        Token::Flag(inner) => inner.in_source(n),
        _ => true,
    }
}

pub open spec fn tokens_wf(toks: Seq<SpannedToken>, n: int) -> bool {
    forall|m: int| 0 <= m < toks.len() ==> token_wf(#[trigger] toks[m], n)
}

/// The inner span a token carries lies inside the token's own span.
pub open spec fn token_contained(tok: SpannedToken) -> bool {
    match tok.item {
        Token::String(inner) => tok.span.start <= inner.start && inner.start <= inner.end
            && inner.end <= tok.span.end,
        Token::Flag(inner) => tok.span.start <= inner.start && inner.start <= inner.end
            && inner.end <= tok.span.end,
        _ => true,
    }
}

pub open spec fn tokens_contained(toks: Seq<SpannedToken>) -> bool {
    forall|m: int| 0 <= m < toks.len() ==> token_contained(#[trigger] toks[m])
}

pub proof fn lemma_chained_concat(
    a: Seq<SpannedToken>,
    b: Seq<SpannedToken>,
    lo: int,
    mid: int,
    hi: int,
)
    requires
        lo <= mid <= hi,
        spans_chained(a, lo, mid),
        spans_chained(b, mid, hi),
    ensures
        spans_chained(a + b, lo, hi),
{
    assert forall|m: int| 0 <= m < (a + b).len() implies ((#[trigger] (a + b)[m]).span.wf() && lo
        <= (a + b)[m].span.start && (a + b)[m].span.end <= hi) by {
        if m < a.len() {
            assert((a + b)[m] == a[m]);
        } else {
            assert((a + b)[m] == b[m - a.len()]);
        }
    }
    assert forall|m: int| 0 <= m < (a + b).len() - 1 implies (#[trigger] (a + b)[m]).span.end <= (a
        + b)[m + 1].span.start by {
        if m + 1 < a.len() {
            assert((a + b)[m] == a[m]);
            assert((a + b)[m + 1] == a[m + 1]);
        } else if m < a.len() {
            assert((a + b)[m] == a[m]);
            assert((a + b)[m + 1] == b[0]);
            assert(a[m].span.end <= mid);
        } else {
            assert((a + b)[m] == b[m - a.len()]);
            assert((a + b)[m + 1] == b[m + 1 - a.len()]);
        }
    }
}

#[verifier::rlimit(50)]
pub proof fn lemma_spec_any_space_chain(s: Seq<char>, i: int)
    requires
        0 <= i <= s.len() <= usize::MAX,
    ensures
        spec_any_space(s, i) matches Some(p) ==> p.1.len() >= 1 && spans_chained(p.1, i, p.0)
            && tokens_wf(p.1, s.len() as int) && tokens_contained(p.1),
    decreases s.len() - i,
{
    lemma_spec_space_item_bounds(s, i);
    match spec_space_item(s, i) {
        None => {},
        Some((j, t)) => {
            lemma_spec_any_space_chain(s, j);
            lemma_spec_any_space_bounds(s, j);
            match spec_any_space(s, j) {
                None => {},
                Some((k, rest)) => {
                    lemma_chained_concat(seq![t], rest, i, j, k);
                },
            }
        },
    }
}

#[verifier::rlimit(50)]
pub proof fn lemma_spec_token_list_chain(s: Seq<char>, i: int)
    requires
        0 <= i <= s.len() <= usize::MAX,
    ensures
        ({
            let (e, toks) = spec_token_list(s, i);
            i <= e <= s.len() && spans_chained(toks, i, e) && tokens_wf(toks, s.len() as int)
                && tokens_contained(toks)
        }),
    decreases s.len() - i,
{
    lemma_spec_node_bounds(s, i);
    match spec_node(s, i) {
        None => {},
        Some((j, tok)) => {
            lemma_spec_any_space_bounds(s, j);
            lemma_spec_any_space_chain(s, j);
            match spec_any_space(s, j) {
                None => {},
                Some((k, sps)) => {
                    lemma_spec_token_list_chain(s, k);
                    let rest = spec_token_list(s, k);
                    if rest.1.len() > 0 {
                        lemma_chained_concat(seq![tok], sps, i, j, k);
                        lemma_chained_concat(seq![tok] + sps, rest.1, i, k, rest.0);
                    }
                },
            }
        },
    }
}

/// The greedy token list starting at `i`. The returned span runs from `i` to
/// the end of the consumed text.
pub fn token_list(s: &Vec<char>, i: usize) -> (r: Spanned<Vec<SpannedToken>>)
    requires
        i <= s@.len(),
    ensures
        ({
            let (e, toks) = spec_token_list(s@, i as int);
            r.span == sp(i as int, e) && r.item@ == toks
        }),
    decreases s@.len() - i,
{
    match node(s, i) {
        None => Spanned::new(Vec::new(), Span::new(i, i)),
        Some((j, tok)) => {
            proof {
                assert(s.len() == s@.len());
                lemma_spec_node_bounds(s@, i as int);
            }
            match any_space(s, j) {
                None => {
                    let mut v: Vec<SpannedToken> = Vec::new();
                    v.push(tok);
                    proof {
                        assert(v@ =~= seq![tok]);
                    }
                    Spanned::new(v, Span::new(i, j))
                },
                Some((k, mut sps)) => {
                    let rest = token_list(s, k);
                    if rest.item.len() == 0 {
                        let mut v: Vec<SpannedToken> = Vec::new();
                        v.push(tok);
                        proof {
                            assert(v@ =~= seq![tok]);
                        }
                        Spanned::new(v, Span::new(i, j))
                    } else {
                        proof {
                            lemma_spec_token_list_chain(s@, k as int);
                        }
                        let mut v: Vec<SpannedToken> = Vec::new();
                        v.push(tok);
                        v.append(&mut sps);
                        let mut rest_items = rest.item;
                        v.append(&mut rest_items);
                        proof {
                            assert(v@ =~= seq![tok] + spec_any_space(s@, j as int)->Some_0.1
                                + spec_token_list(s@, k as int).1);
                        }
                        Spanned::new(v, Span::new(i, rest.span.end))
                    }
                },
            }
        },
    }
}

/// The token list with optional surrounding white space: leading space
/// tokens are consumed but dropped from the list, trailing ones are kept.
pub fn spaced_token_list(s: &Vec<char>, i: usize) -> (r: Spanned<Vec<SpannedToken>>)
    requires
        i <= s@.len(),
    ensures
        ({
            let (e, toks) = spec_spaced_token_list(s@, i as int);
            r.span == sp(i as int, e) && r.item@ == toks
        }),
{
    let i1 = match any_space(s, i) {
        Some((j, _)) => j,
        None => i,
    };
    let items = token_list(s, i1);
    proof {
        assert(s.len() == s@.len());
        lemma_spec_token_list_chain(s@, i1 as int);
    }
    let end = items.span.end;
    match any_space(s, end) {
        Some((j2, mut post)) => {
            let mut v = items.item;
            v.append(&mut post);
            Spanned::new(v, Span::new(i, j2))
        },
        None => Spanned::new(items.item, Span::new(i, end)),
    }
}

/// Convert a source string to its characters.
fn chars_vec(s: &str) -> (v: Vec<char>)
    ensures
        v@ == s@,
{
    let n = s.unicode_len();
    let mut v: Vec<char> = Vec::new();
    let mut i: usize = 0;
    while i < n
        invariant
            i <= n,
            n == s@.len(),
            v@ =~= s@.subrange(0, i as int),
        decreases n - i,
    {
        let c = s.get_char(i);
        v.push(c);
        i = i + 1;
        proof {
            assert(v@ =~= s@.subrange(0, i as int));
        }
    }
    proof {
        assert(v@ =~= s@);
    }
    v
}

/// The position where lexing stopped looking for another token: past the
/// consumed span and past any trailing white space and separators that were
/// rolled back.
pub open spec fn spec_stop_pos(s: Seq<char>) -> int {
    let e = spec_token_list(s, 0).0;
    match spec_any_space(s, e) {
        Some(p) => p.0,
        None => e,
    }
}

/// Whether the text at `i` begins a quoted string that never closes: the
/// incomplete input on which lexing fails.
pub open spec fn spec_unterminated_quote_at(s: Seq<char>, i: int) -> bool {
    &&& 0 <= i < s.len()
    &&& (s[i] == '\'' || s[i] == '"')
    &&& scan_while(s, i + 1, quote_pred(s[i])) >= s.len()
}

/// Lex a whole line: the tokens of the maximal prefix the grammar covers,
/// spanned by the consumed range. An unterminated quote at the stopping
/// point is a lexer failure: it reports a parse error at the unknown-span
/// sentinel. Any other trailing text the grammar does not cover is
/// discarded, and trailing space tokens that no further token follows are
/// rolled back.
///
/// On success, successive tokens cover non-decreasing, non-overlapping
/// ranges, and no token reaches past the end of the input.
pub fn parse(input: &str) -> (r: Result<Spanned<Vec<SpannedToken>>, ShellError>)
    ensures
        ({
            let (e, toks) = spec_token_list(input@, 0);
            if spec_unterminated_quote_at(input@, spec_stop_pos(input@)) {
                r matches Err(err) && err.error matches ProximateShellError::ParseError(
                    span,
                    reason,
                ) && span == (Span { start: 0usize, end: 0usize }) && (reason matches Some(m) && m@
                    == "parse error"@) && err.cause is None
            } else {
                r matches Ok(v) && ({
                    &&& v.span == sp(0, e)
                    &&& v.item@ == toks
                    &&& 0 <= e <= input@.len()
                    &&& spans_chained(toks, 0, e)
                    &&& tokens_wf(toks, input@.len() as int)
                })
            }
        }),
{
    let s = chars_vec(input);
    let r = token_list(&s, 0);
    proof {
        assert(s.len() == s@.len());
        lemma_spec_token_list_chain(input@, 0);
    }
    let e = r.span.end;
    let f = match any_space(&s, e) {
        Some((k, _)) => k,
        None => e,
    };
    if f < s.len() {
        let c = s[f];
        if c == '\'' || c == '"' {
            if quoted(&s, f, c).is_none() {
                return Err(
                    ShellError::parse_error(
                        Span::unknown(),
                        Some(String::from_str("parse error")),
                    ),
                );
            }
        }
    }
    Ok(r)
}

// ---------------------------------------------------------------------------
// Lexing the consumed prefix
// ---------------------------------------------------------------------------
// The lexer never reads past the end of the text it consumes. The lemmas
// below make that precise, one lexing function at a time: on the prefix of
// the source up to position `p`, each function repeats the answer it gave on
// the whole source, whenever that answer ends by `p`.
proof fn lemma_scan_prefix(s: Seq<char>, p: int, i: int, pred: spec_fn(char) -> bool)
    requires
        0 <= i <= p <= s.len(),
    ensures
        scan_while(s.subrange(0, p), i, pred) == if scan_while(s, i, pred) <= p {
            scan_while(s, i, pred)
        } else {
            p
        },
{
    let pre = s.subrange(0, p);
    let j = scan_while(s, i, pred);
    lemma_scan_while(s, i, pred);
    if j <= p {
        assert forall|k: int| i <= k < j implies pred(pre[k]) by {
            assert(pre[k] == s[k]);
        }
        if j < p {
            assert(pre[j] == s[j]);
        }
        lemma_scan_while_exact(pre, i, j, pred);
    } else {
        assert forall|k: int| i <= k < p implies pred(pre[k]) by {
            assert(pre[k] == s[k]);
        }
        lemma_scan_while_exact(pre, i, p, pred);
    }
}

proof fn lemma_quoted_prefix(s: Seq<char>, p: int, i: int, q: char)
    requires
        0 <= i < p <= s.len(),
    ensures
        match spec_quoted(s, i, q) {
            Some(r) => r.0 <= p ==> spec_quoted(s.subrange(0, p), i, q) == Some(r),
            None => spec_quoted(s.subrange(0, p), i, q) is None,
        },
{
    let pre = s.subrange(0, p);
    assert(pre[i] == s[i]);
    lemma_scan_prefix(s, p, i + 1, quote_pred(q));
    lemma_scan_while(s, i + 1, quote_pred(q));
}

proof fn lemma_whitespace_prefix(s: Seq<char>, p: int, i: int)
    requires
        0 <= i <= p <= s.len(),
    ensures
        match spec_whitespace(s, i) {
            Some(r) => r.0 <= p ==> spec_whitespace(s.subrange(0, p), i) == Some(r),
            None => spec_whitespace(s.subrange(0, p), i) is None,
        },
{
    lemma_scan_prefix(s, p, i, space_pred());
    lemma_scan_while(s, i, space_pred());
}

proof fn lemma_external_prefix(s: Seq<char>, p: int, i: int)
    requires
        0 <= i <= p <= s.len(),
    ensures
        match spec_external_word(s, i) {
            Some(r) => r.0 <= p ==> spec_external_word(s.subrange(0, p), i) == Some(r),
            None => spec_external_word(s.subrange(0, p), i) is None,
        },
{
    lemma_scan_prefix(s, p, i, external_word_pred());
    lemma_scan_while(s, i, external_word_pred());
}

proof fn lemma_space_item_prefix(s: Seq<char>, p: int, i: int)
    requires
        0 <= i <= p <= s.len(),
    ensures
        match spec_space_item(s, i) {
            Some(r) => r.0 <= p ==> spec_space_item(s.subrange(0, p), i) == Some(r),
            None => spec_space_item(s.subrange(0, p), i) is None,
        },
{
    let pre = s.subrange(0, p);
    lemma_whitespace_prefix(s, p, i);
    if i < p {
        assert(pre[i] == s[i]);
    }
}

proof fn lemma_any_space_prefix(s: Seq<char>, p: int, i: int)
    requires
        0 <= i <= p <= s.len(),
    ensures
        match spec_any_space(s, i) {
            Some(r) => r.0 <= p ==> spec_any_space(s.subrange(0, p), i) == Some(r),
            None => spec_any_space(s.subrange(0, p), i) is None,
        },
    decreases s.len() - i,
{
    let pre = s.subrange(0, p);
    lemma_space_item_prefix(s, p, i);
    lemma_spec_space_item_bounds(s, i);
    lemma_spec_space_item_bounds(pre, i);
    match spec_space_item(s, i) {
        None => {},
        Some((j, t)) => {
            lemma_spec_any_space_bounds(s, j);
            match spec_any_space(s, j) {
                None => {
                    if j <= p {
                        lemma_any_space_prefix(s, p, j);
                    }
                },
                Some((k, rest)) => {
                    if k <= p {
                        lemma_any_space_prefix(s, p, j);
                    }
                },
            }
        },
    }
}

proof fn lemma_finish_prefix(s: Seq<char>, p: int, start: int, cur: int, g: bool)
    requires
        0 <= start < cur <= p <= s.len(),
    ensures
        ({
            let r = spec_filename_finish(s, start, cur, g);
            r.0 <= p ==> spec_filename_finish(s.subrange(0, p), start, cur, g) == r
        }),
{
    let pre = s.subrange(0, p);
    lemma_scan_prefix(s, p, cur, after_sep_pred());
    lemma_scan_while(s, cur, after_sep_pred());
    let j2 = scan_while(s, cur, after_sep_pred());
    if j2 > cur && j2 <= p {
        assert(has_glob_specific(pre, cur, j2) == has_glob_specific(s, cur, j2)) by {
            if has_glob_specific(s, cur, j2) {
                let k = choose|k: int| cur <= k < j2 && glob_specific_char(s[k]);
                assert(pre[k] == s[k]);
                assert(glob_specific_char(pre[k]));
            }
            if has_glob_specific(pre, cur, j2) {
                let k = choose|k: int| cur <= k < j2 && glob_specific_char(pre[k]);
                assert(pre[k] == s[k]);
                assert(glob_specific_char(s[k]));
            }
        }
    }
}

proof fn lemma_filename_prefix(s: Seq<char>, p: int, i: int)
    requires
        0 <= i <= p <= s.len(),
    ensures
        match spec_filename(s, i) {
            Some(r) => r.0 <= p ==> spec_filename(s.subrange(0, p), i) == Some(r),
            None => spec_filename(s.subrange(0, p), i) is None,
        },
{
    let pre = s.subrange(0, p);
    if i == p {
        lemma_spec_filename_bounds(s, i);
    } else {
        assert(pre[i] == s[i]);
        if path_separator_char(s[i]) || glob_specific_char(s[i]) {
            lemma_spec_filename_finish_bounds(s, i, i + 1, false);
            lemma_spec_filename_finish_bounds(s, i, i + 1, true);
            let r = spec_filename(s, i)->Some_0;
            if r.0 <= p {
                lemma_finish_prefix(s, p, i, i + 1, false);
                lemma_finish_prefix(s, p, i, i + 1, true);
            }
        } else if s[i] == '.' || start_file_char(s[i]) {
            lemma_scan_while(s, i, dot_pred());
            if s[i] == '.' {
                assert(dot_pred()(s[i]));
                assert(scan_while(s, i, dot_pred()) == scan_while(s, i + 1, dot_pred()));
                lemma_scan_while(s, i + 1, dot_pred());
            }
            let j0 = if s[i] == '.' {
                scan_while(s, i, dot_pred())
            } else {
                i + 1
            };
            lemma_scan_while(s, j0, plain_file_pred());
            let j = scan_while(s, j0, plain_file_pred());
            let r = spec_filename(s, i)->Some_0;
            if j < s.len() && (path_separator_char(s[j]) || glob_specific_char(s[j])) {
                lemma_spec_filename_finish_bounds(s, i, j + 1, false);
                lemma_spec_filename_finish_bounds(s, i, j + 1, true);
            }
            if r.0 <= p {
                // every scan stays at or before the answer's end
                assert(j0 <= j <= r.0);
                lemma_scan_prefix(s, p, i, dot_pred());
                lemma_scan_prefix(s, p, j0, plain_file_pred());
                if j < s.len() && (path_separator_char(s[j]) || glob_specific_char(s[j])) {
                    assert(j < r.0);
                    assert(pre[j] == s[j]);
                    lemma_finish_prefix(s, p, i, j + 1, false);
                    lemma_finish_prefix(s, p, i, j + 1, true);
                } else {
                    if j < p {
                        assert(pre[j] == s[j]);
                    }
                }
            }
        }
    }
}

/// Where no filename-shaped word starts, no glob pattern starts either: the
/// pattern alternative never decides a token on its own.
proof fn lemma_filename_none_pattern_none(s: Seq<char>, i: int)
    ensures
        spec_filename(s, i) is None ==> spec_pattern(s, i) is None,
{
}

proof fn lemma_flag_prefix(s: Seq<char>, p: int, i: int)
    requires
        0 <= i <= p <= s.len(),
    ensures
        match spec_flag(s, i) {
            Some(r) => r.0 <= p ==> spec_flag(s.subrange(0, p), i) == Some(r),
            None => spec_flag(s.subrange(0, p), i) is None,
        },
{
    let pre = s.subrange(0, p);
    match spec_flag(s, i) {
        Some(r) => {
            lemma_spec_filename_bounds(s, i + 2);
            if r.0 <= p {
                assert(pre[i] == s[i]);
                assert(pre[i + 1] == s[i + 1]);
                lemma_filename_prefix(s, p, i + 2);
            }
        },
        None => {
            if i + 2 <= p {
                assert(pre[i] == s[i]);
                assert(pre[i + 1] == s[i + 1]);
                if 0 <= i && i + 2 <= s.len() && s[i] == '-' && s[i + 1] == '-' {
                    lemma_filename_prefix(s, p, i + 2);
                }
            }
        },
    }
}

proof fn lemma_node_prefix(s: Seq<char>, p: int, i: int)
    requires
        0 <= i <= p <= s.len() <= usize::MAX,
    ensures
        match spec_node(s, i) {
            Some(r) => r.0 <= p ==> spec_node(s.subrange(0, p), i) == Some(r),
            None => spec_node(s.subrange(0, p), i) is None,
        },
{
    let pre = s.subrange(0, p);
    if i == p {
        lemma_spec_node_bounds(s, i);
        lemma_scan_while(pre, i, external_word_pred());
    } else {
        lemma_quoted_prefix(s, p, i, '\'');
        lemma_quoted_prefix(s, p, i, '"');
        lemma_flag_prefix(s, p, i);
        lemma_filename_prefix(s, p, i);
        lemma_filename_none_pattern_none(s, i);
        lemma_filename_none_pattern_none(pre, i);
        lemma_external_prefix(s, p, i);
    }
}

/// Re-lexing the consumed prefix of a line reproduces the same tokens and
/// consumes the whole prefix: the lexer never reads past what it consumed.
pub proof fn lemma_token_list_prefix(s: Seq<char>, p: int, i: int)
    requires
        0 <= i <= p <= s.len() <= usize::MAX,
        spec_token_list(s, i).0 == p,
    ensures
        spec_token_list(s.subrange(0, p), i) == spec_token_list(s, i),
    decreases s.len() - i,
{
    let pre = s.subrange(0, p);
    lemma_spec_node_bounds(s, i);
    lemma_node_prefix(s, p, i);
    match spec_node(s, i) {
        None => {},
        Some((j, tok)) => {
            lemma_spec_any_space_bounds(s, j);
            match spec_any_space(s, j) {
                None => {
                    lemma_any_space_prefix(s, p, j);
                },
                Some((k, sps)) => {
                    let rest = spec_token_list(s, k);
                    lemma_spec_token_list_chain(s, k);
                    if rest.1.len() == 0 {
                        // rolled back: the spaces lie past the consumed end,
                        // and the prefix simply ends there
                        assert(j == p);
                        assert(scan_while(pre, j, space_pred()) == j) by {
                            lemma_scan_while_exact(pre, j, j, space_pred());
                        }
                        assert(spec_whitespace(pre, j) is None);
                        assert(spec_separator(pre, j) is None);
                        assert(spec_any_space(pre, j) is None);
                    } else {
                        lemma_any_space_prefix(s, p, j);
                        lemma_token_list_prefix(s, p, k);
                    }
                },
            }
        },
    }
}

} // verus!
