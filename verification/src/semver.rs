//! Semantic versions and ranges, as the `node_semver` crate reads them.
//!
//! The crate's parser and matcher are called, not rebuilt. Their results are
//! named by the three functions without a body below, and the three trusted
//! functions say that a call returns what the names stand for. One thing is
//! decided here, and verified: which range texts are handed to the parser at
//! all, since it aborts on a few shapes of text.

use crate::text::chars_of;
use node_semver::Version as SemanticVersion;
use vstd::prelude::*;

verus! {

/// A range of the `node_semver` crate. Verus sees nothing inside it.
#[verifier::external_type_specification]
#[verifier::external_body]
pub struct ExRange(node_semver::Range);

/// A version of the `node_semver` crate. Verus sees nothing inside it.
#[verifier::external_type_specification]
#[verifier::external_body]
pub struct ExSemanticVersion(SemanticVersion);

/// The error of the `node_semver` crate's parsers. Verus sees nothing inside
/// it.
#[verifier::external_type_specification]
#[verifier::external_body]
pub struct ExSemverError(node_semver::SemverError);

/// Whether `node_semver::Range::parse` accepts `text` as a range.
pub uninterp spec fn semver_range_parses(text: Seq<char>) -> bool;

/// Whether `node_semver::Version::parse` accepts `text` as a version.
pub uninterp spec fn semver_version_parses(text: Seq<char>) -> bool;

/// Whether the version that `node_semver::Version::parse` reads from
/// `version` satisfies, by `node_semver::Version::satisfies`, the range that
/// `node_semver::Range::parse` reads from `range`.
pub uninterp spec fn semver_satisfies(version: Seq<char>, range: Seq<char>) -> bool;

/// A range together with the text that it was read from.
pub struct ParsedRange {
    text: String,
    range: node_semver::Range,
}

/// A version together with the text that it was read from.
pub struct ParsedVersion {
    text: String,
    version: SemanticVersion,
}

impl ParsedRange {
    /// The text that the range was read from.
    pub closed spec fn source(&self) -> Seq<char> {
        self.text@
    }
}

impl ParsedVersion {
    /// The text that the version was read from.
    pub closed spec fn source(&self) -> Seq<char> {
        self.text@
    }
}

/// A space or a tab: what the range grammar skips as blank.
pub open spec fn is_blank(c: char) -> bool {
    c == ' ' || c == '\t'
}

/// `x`, `X` or `*`: what the range grammar reads as "any number".
pub open spec fn is_wildcard(c: char) -> bool {
    c == 'x' || c == 'X' || c == '*'
}

/// A decimal digit.
pub open spec fn is_digit(c: char) -> bool {
    '0' <= c && c <= '9'
}

/// The first position at or after `from` that holds no blank.
pub open spec fn after_blanks(s: Seq<char>, from: int) -> int
    decreases s.len() - from,
{
    if 0 <= from < s.len() && is_blank(s[from]) {
        after_blanks(s, from + 1)
    } else {
        from
    }
}

/// The first position at or after `from` that holds no digit.
pub open spec fn after_digits(s: Seq<char>, from: int) -> int
    decreases s.len() - from,
{
    if 0 <= from < s.len() && is_digit(s[from]) {
        after_digits(s, from + 1)
    } else {
        from
    }
}

/// The position after `c`, where `from` holds it; `from` itself otherwise.
pub open spec fn after_char(s: Seq<char>, from: int, c: char) -> int {
    if 0 <= from < s.len() && s[from] == c {
        from + 1
    } else {
        from
    }
}

/// Where the numbers of a version start when its operator ends at `from`:
/// after blanks, a `v` if there is one, and blanks again.
pub open spec fn version_start(s: Seq<char>, from: int) -> int {
    after_blanks(s, after_char(s, after_blanks(s, from), 'v'))
}

/// Position `at` holds a wildcard.
pub open spec fn wildcard_at(s: Seq<char>, at: int) -> bool {
    0 <= at < s.len() && is_wildcard(s[at])
}

/// At `at` stands a number, a dot, a wildcard, a dot and a digit: a version
/// that leaves its minor number open and still gives a patch number.
pub open spec fn skips_minor_at(s: Seq<char>, at: int) -> bool {
    let dot = after_digits(s, at);
    &&& at < dot
    &&& dot + 3 < s.len()
    &&& s[dot] == '.'
    &&& is_wildcard(s[dot + 1])
    &&& s[dot + 2] == '.'
    &&& is_digit(s[dot + 3])
}

/// A comparator of a range can start at `at`: at the start of the text, or
/// behind a blank or a `||`.
pub open spec fn comparator_start(s: Seq<char>, at: int) -> bool {
    &&& 0 <= at < s.len()
    &&& {
        ||| at == 0
        ||| is_blank(s[at - 1])
        ||| at >= 2 && s[at - 1] == '|' && s[at - 2] == '|'
    }
}

/// The comparator that starts at `at` is one that the parser of
/// `node_semver` aborts on: `=` before a version that starts with a
/// wildcard, or `~` before a version that starts with a wildcard or that
/// leaves its minor number open and gives a patch number.
pub open spec fn aborts_at(s: Seq<char>, at: int) -> bool {
    &&& comparator_start(s, at)
    &&& {
        ||| s[at] == '=' && wildcard_at(s, version_start(s, at + 1))
        ||| s[at] == '~' && wildcard_at(s, tilde_version_start(s, at))
        ||| s[at] == '~' && skips_minor_at(s, tilde_version_start(s, at))
    }
}

/// Where the numbers start behind a `~` at `at`: after blanks, a `>` if
/// there is one, and what may stand before the numbers of any version.
pub open spec fn tilde_version_start(s: Seq<char>, at: int) -> int {
    version_start(s, after_char(s, after_blanks(s, at + 1), '>'))
}

/// The text holds a comparator that the parser of `node_semver` aborts on.
/// Such a text is never handed to the parser.
pub open spec fn range_text_aborts(s: Seq<char>) -> bool {
    exists|at: int| aborts_at(s, at)
}

fn skip_blanks(s: &Vec<char>, from: usize) -> (res: usize)
    requires
        from <= s.len(),
    ensures
        res == after_blanks(s@, from as int),
        from <= res <= s.len(),
    decreases s.len() - from,
{
    if from < s.len() && (s[from] == ' ' || s[from] == '\t') {
        skip_blanks(s, from + 1)
    } else {
        from
    }
}

fn skip_digits(s: &Vec<char>, from: usize) -> (res: usize)
    requires
        from <= s.len(),
    ensures
        res == after_digits(s@, from as int),
        from <= res <= s.len(),
    decreases s.len() - from,
{
    if from < s.len() && '0' <= s[from] && s[from] <= '9' {
        skip_digits(s, from + 1)
    } else {
        from
    }
}

fn skip_char(s: &Vec<char>, from: usize, c: char) -> (res: usize)
    requires
        from <= s.len(),
    ensures
        res == after_char(s@, from as int, c),
        from <= res <= s.len(),
{
    if from < s.len() && s[from] == c {
        from + 1
    } else {
        from
    }
}

fn holds_wildcard(s: &Vec<char>, at: usize) -> (res: bool)
    ensures
        res == wildcard_at(s@, at as int),
{
    at < s.len() && (s[at] == 'x' || s[at] == 'X' || s[at] == '*')
}

fn holds_skipped_minor(s: &Vec<char>, at: usize) -> (res: bool)
    requires
        at <= s.len(),
    ensures
        res == skips_minor_at(s@, at as int),
{
    let dot = skip_digits(s, at);
    at < dot && s.len() - dot > 3 && s[dot] == '.' && (s[dot + 1] == 'x' || s[dot + 1] == 'X'
        || s[dot + 1] == '*') && s[dot + 2] == '.' && '0' <= s[dot + 3] && s[dot + 3] <= '9'
}

fn comparator_aborts(s: &Vec<char>, at: usize) -> (res: bool)
    requires
        at < s.len(),
    ensures
        res == aborts_at(s@, at as int),
{
    if !(at == 0 || s[at - 1] == ' ' || s[at - 1] == '\t' || (at >= 2 && s[at - 1] == '|' && s[at
        - 2] == '|')) {
        return false;
    }
    if s[at] == '=' {
        let start = skip_blanks(s, skip_char(s, skip_blanks(s, at + 1), 'v'));
        holds_wildcard(s, start)
    } else if s[at] == '~' {
        let operator_end = skip_char(s, skip_blanks(s, at + 1), '>');
        let start = skip_blanks(s, skip_char(s, skip_blanks(s, operator_end), 'v'));
        holds_wildcard(s, start) || holds_skipped_minor(s, start)
    } else {
        false
    }
}

/// Whether a range text can be handed to the parser of `node_semver`.
pub fn range_text_is_safe(text: &str) -> (res: bool)
    ensures
        res == !range_text_aborts(text@),
{
    let chars = chars_of(text);
    let mut at: usize = 0;
    while at < chars.len()
        invariant
            at <= chars.len(),
            chars@ == text@,
            forall|p: int| 0 <= p < at ==> !aborts_at(text@, p),
        decreases chars.len() - at,
    {
        if comparator_aborts(&chars, at) {
            return false;
        }
        at += 1;
    }
    true
}

/// Calls `node_semver::Range::parse`. Trusted: the call returns, for every
/// text that holds no comparator on which the parser aborts; it is `Ok`
/// exactly if the parser accepts the text; and the range that comes back is
/// kept together with the text that it was read from.
#[verifier::external_body]
pub(crate) fn parse_range(text: &str) -> (res: Result<ParsedRange, node_semver::SemverError>)
    requires
        !range_text_aborts(text@),
    ensures
        res is Ok <==> semver_range_parses(text@),
        res is Ok ==> res->Ok_0.source() == text@,
{
    node_semver::Range::parse(text).map(|range| ParsedRange { text: text.to_owned(), range })
}

/// Calls `node_semver::Version::parse`. Trusted: it is `Ok` exactly if the
/// parser accepts the text, and the version that comes back is kept together
/// with the text that it was read from.
#[verifier::external_body]
pub(crate) fn parse_version(text: &str) -> (res: Result<ParsedVersion, node_semver::SemverError>)
    ensures
        res is Ok <==> semver_version_parses(text@),
        res is Ok ==> res->Ok_0.source() == text@,
{
    SemanticVersion::parse(text).map(|version| ParsedVersion { text: text.to_owned(), version })
}

/// Calls `node_semver::Version::satisfies`. Trusted: what it returns for a
/// version and a range depends on nothing but the texts that they were read
/// from.
#[verifier::external_body]
pub(crate) fn version_satisfies(version: &ParsedVersion, range: &ParsedRange) -> (res: bool)
    ensures
        res == semver_satisfies(version.source(), range.source()),
{
    version.version.satisfies(&range.range)
}

} // verus!
