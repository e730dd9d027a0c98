//! Regular expressions from the `regex` crate, with the facts that this
//! library relies on for its fixed patterns.
use vstd::prelude::*;
use crate::text::has_prefix;

verus! {

#[verifier::external_type_specification]
#[verifier::external_body]
pub struct ExRegex(regex::Regex);

/// A compiled regular expression with the pattern it was compiled from.
pub struct Pattern {
    regex: regex::Regex,
    source: String,
}

impl View for Pattern {
    type V = Seq<char>;

    /// The pattern text.
    closed spec fn view(&self) -> Seq<char> {
        self.source@
    }
}

impl Pattern {
    /// The expression compiled from the pattern text.
    pub closed spec fn compiled(&self) -> regex::Regex {
        self.regex
    }

    /// The compiled expression, for callers that match with it directly.
    pub fn regex(&self) -> (r: &regex::Regex)
        ensures
            *r == self.compiled(),
    {
        &self.regex
    }
}

/// `regex::Regex::new` accepts the pattern.
pub uninterp spec fn regex_compiles(pattern: Seq<char>) -> bool;

/// `regex::Regex::is_match` finds a match of the pattern in the text.
pub uninterp spec fn regex_finds(pattern: Seq<char>, text: Seq<char>) -> bool;

/// What `regex::Regex::replace` makes of the text: its leftmost-first
/// match replaced by the replacement (with `$` references expanded).
pub uninterp spec fn regex_replaced(pattern: Seq<char>, text: Seq<char>, rep: Seq<char>) -> Seq<char>;

/// The characters that `regex::escape` escapes (regex-syntax's
/// `is_meta_character`).
pub open spec fn is_meta_character(c: char) -> bool {
    c == '\\' || c == '.' || c == '+' || c == '*' || c == '?' || c == '(' || c == ')' || c == '|' || c == '['
        || c == ']' || c == '{' || c == '}' || c == '^' || c == '$' || c == '#' || c == '&' || c == '-'
        || c == '~'
}

/// The text with a backslash before every meta character, which then
/// matches itself literally in a regular expression.
pub open spec fn regex_escaped(text: Seq<char>) -> Seq<char>
    decreases text.len(),
{
    if text.len() == 0 {
        Seq::empty()
    } else {
        let prev = regex_escaped(text.drop_last());
        let c = text.last();
        if is_meta_character(c) {
            prev.push('\\').push(c)
        } else {
            prev.push(c)
        }
    }
}

/// The pattern for an `AWS_PROFILE` export line of a `.envrc` file.
pub open spec fn envrc_pattern() -> Seq<char> {
    "(?m)^export AWS_PROFILE=.*$"@
}

/// The start of an `AWS_PROFILE` export line.
pub open spec fn export_prefix() -> Seq<char> {
    "export AWS_PROFILE="@
}

/// Position `i` starts a line of `t`.
pub open spec fn line_start(t: Seq<char>, i: int) -> bool {
    i == 0 || (0 < i <= t.len() && t[i - 1] == '\n')
}

/// A line of `t` starts at `i` with `pre`.
pub open spec fn prefix_line_at(t: Seq<char>, i: int, pre: Seq<char>) -> bool {
    0 <= i <= t.len() && line_start(t, i) && has_prefix(t.subrange(i, t.len() as int), pre)
}

/// Some line of `t` starts with `pre`.
pub open spec fn has_prefix_line(t: Seq<char>, pre: Seq<char>) -> bool {
    exists|i: int| prefix_line_at(t, i, pre)
}

/// A line of `t` starts at `i` with `pre`, and no line before it does.
pub open spec fn is_first_prefix_line(t: Seq<char>, pre: Seq<char>, i: int) -> bool {
    prefix_line_at(t, i, pre) && forall|j: int| 0 <= j < i ==> !prefix_line_at(t, j, pre)
}

/// The first line of `t` that starts with `pre`.
pub open spec fn first_prefix_line(t: Seq<char>, pre: Seq<char>) -> int {
    choose|i: int| is_first_prefix_line(t, pre, i)
}

/// `e` ends the line of `t` that contains position `i`: it is the next
/// newline at or after `i`, or the end of `t`.
pub open spec fn is_line_end(t: Seq<char>, i: int, e: int) -> bool {
    i <= e <= t.len() && (e == t.len() || t[e] == '\n') && forall|k: int| i <= k < e ==> t[k] != '\n'
}

/// The end of the line of `t` that contains position `i`.
pub open spec fn line_end(t: Seq<char>, i: int) -> int {
    choose|e: int| is_line_end(t, i, e)
}

/// Calls `regex::Regex::new`. Whether it accepts the pattern is named
/// `regex_compiles`; the `.envrc` export pattern is valid syntax.
#[verifier::external_body]
pub(crate) fn compile(pattern: &str) -> (r: Option<Pattern>)
    ensures
        r is Some <==> regex_compiles(pattern@),
        r matches Some(p) ==> p@ == pattern@,
        pattern@ == envrc_pattern() ==> r is Some,
{
    match regex::Regex::new(pattern) {
        Ok(regex) => Some(Pattern { regex, source: pattern.to_string() }),
        Err(_) => None,
    }
}

/// Calls `regex::Regex::is_match`; the result is named `regex_finds`.
/// With the `.envrc` export pattern (multi-line: `^` and `$` match at
/// line starts and ends, which only `\n` delimits, and `.*` matches the
/// rest of the line) a match exists exactly when some line starts with
/// `export AWS_PROFILE=`.
#[verifier::external_body]
pub(crate) fn is_match(p: &Pattern, text: &str) -> (r: bool)
    ensures
        r == regex_finds(p@, text@),
        p@ == envrc_pattern() ==> (r == has_prefix_line(text@, export_prefix())),
{
    p.regex.is_match(text)
}

/// Calls `regex::Regex::replace`; the result is named `regex_replaced`.
/// With the `.envrc` export pattern and a replacement without `$`, the
/// first line that starts with `export AWS_PROFILE=` (up to, not
/// including, its newline) is replaced by the replacement.
#[verifier::external_body]
pub(crate) fn replace_first(p: &Pattern, text: &str, rep: &str) -> (r: String)
    ensures
        r@ == regex_replaced(p@, text@, rep@),
        p@ == envrc_pattern() && !rep@.contains('$') && has_prefix_line(text@, export_prefix()) ==> r@
            == text@.subrange(0, first_prefix_line(text@, export_prefix())) + rep@ + text@.subrange(
            line_end(text@, first_prefix_line(text@, export_prefix())),
            text@.len() as int,
        ),
{
    p.regex.replace(text, rep).into_owned()
}

/// Calls `regex::escape`, which puts a backslash before every meta
/// character (see `regex_escaped`).
#[verifier::external_body]
pub(crate) fn escape(text: &str) -> (r: String)
    ensures
        r@ == regex_escaped(text@),
{
    regex::escape(text)
}

} // verus!
