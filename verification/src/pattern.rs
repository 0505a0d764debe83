//! The two line patterns, and the calls into the regex engine that compile a
//! pattern and search a line with it.

use regex::Regex;
use vstd::prelude::*;

verus! {

/// The identifier annotation: a trailing comment `// @id: 0xHHHH`, whose
/// first group is the literal with its four hexadecimal digits.
pub const ANNOTATION_PATTERN: &'static str = r"//\s*@id:\s*(0[xX][0-9a-fA-F]{4})\s*$";

/// The message declaration: the keyword `message`, white space, and a token
/// free of white space, which is the first group; then optional white space
/// and opening braces up to the end of the line.
pub const DECLARATION_PATTERN: &'static str = r"message\s+([^\s]+)\s*\{*$";

/// `regex::Regex`, a compiled pattern. Nothing of its inside is known here.
#[verifier::external_type_specification]
#[verifier::external_body]
pub struct ExRegex(Regex);

/// Whether the regex engine accepts `pattern`.
pub uninterp spec fn pattern_compiles(pattern: Seq<char>) -> bool;

/// What the regex engine finds when `haystack` is searched with `pattern`,
/// for a pattern that it accepts: one entry for each of the successive
/// matches that do not overlap, from left to right. The entry is the text
/// that the first capture group matched, or `None` where that group took no
/// part in the match.
pub uninterp spec fn first_groups(pattern: Seq<char>, haystack: Seq<char>) -> Seq<
    Option<Seq<char>>,
>;

/// The outcome of reading `haystack` with `pattern`: nothing where the
/// engine rejects the pattern, else what it finds.
pub open spec fn findings(pattern: Seq<char>, haystack: Seq<char>) -> Option<
    Seq<Option<Seq<char>>>,
> {
    if pattern_compiles(pattern) {
        Some(first_groups(pattern, haystack))
    } else {
        None
    }
}

/// A pattern that the engine accepted, with its compiled form. The view is
/// the text of the pattern. `compile` is the only place where one is made,
/// so the compiled form is always that of the text beside it.
pub(crate) struct LinePattern {
    source: String,
    regex: Regex,
}

impl View for LinePattern {
    type V = Seq<char>;

    closed spec fn view(&self) -> Seq<char> {
        self.source@
    }
}

/// `regex::Regex::new`. The contract claims that the engine accepts or
/// rejects a pattern by its text alone, and that what comes back stands for
/// the text that went in.
#[verifier::external_body]
pub(crate) fn compile(pattern: &str) -> (compiled: Option<LinePattern>)
    ensures
        compiled is Some <==> pattern_compiles(pattern@),
        compiled matches Some(p) ==> p@ == pattern@,
{
    match Regex::new(pattern) {
        Ok(regex) => Some(LinePattern { source: pattern.to_string(), regex }),
        Err(_) => None,
    }
}

/// `regex::Regex::captures_iter`, with `Captures::get` for group 1 of each
/// match. The contract claims only that the outcome is the one that
/// `first_groups` names: the engine is deterministic, so the same pattern and
/// haystack give the same groups. Nothing is claimed of which texts match.
#[verifier::external_body]
pub(crate) fn search(pattern: &LinePattern, haystack: &str) -> (found: Vec<Option<String>>)
    ensures
        found.deep_view() == first_groups(pattern@, haystack@),
{
    pattern.regex.captures_iter(haystack).map(|c| c.get(1).map(|m| m.as_str().to_string())).collect()
}

/// The two line patterns, compiled once for many lines. Each is absent where
/// the engine rejected it.
pub(crate) struct LinePatterns {
    annotation: Option<LinePattern>,
    declaration: Option<LinePattern>,
}

impl LinePatterns {
    /// Each pattern present is the one it is held for, and is absent only
    /// where it was rejected.
    pub(crate) closed spec fn well_formed(&self) -> bool {
        &&& self.annotation is Some <==> pattern_compiles(ANNOTATION_PATTERN@)
        &&& self.annotation matches Some(p) ==> p@ == ANNOTATION_PATTERN@
        &&& self.declaration is Some <==> pattern_compiles(DECLARATION_PATTERN@)
        &&& self.declaration matches Some(p) ==> p@ == DECLARATION_PATTERN@
    }

    /// Compiles the two patterns.
    pub(crate) fn new() -> (patterns: LinePatterns)
        ensures
            patterns.well_formed(),
    {
        LinePatterns {
            annotation: compile(ANNOTATION_PATTERN),
            declaration: compile(DECLARATION_PATTERN),
        }
    }

    /// Reads `text` with the annotation pattern.
    pub(crate) fn find_annotation(&self, text: &str) -> (found: Option<Vec<Option<String>>>)
        requires
            self.well_formed(),
        ensures
            found.deep_view() == findings(ANNOTATION_PATTERN@, text@),
    {
        match &self.annotation {
            Some(pattern) => Some(search(pattern, text)),
            None => None,
        }
    }

    /// Reads `text` with the declaration pattern.
    pub(crate) fn find_declaration(&self, text: &str) -> (found: Option<Vec<Option<String>>>)
        requires
            self.well_formed(),
        ensures
            found.deep_view() == findings(DECLARATION_PATTERN@, text@),
    {
        match &self.declaration {
            Some(pattern) => Some(search(pattern, text)),
            None => None,
        }
    }
}

} // verus!
