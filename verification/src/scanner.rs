//! The annotation scanner: one pass over the lines of a file, with one slot
//! for an identifier that waits for its declaration.

use crate::model::{MessageMetadata, MessageMetadataView};
use crate::pattern::{findings, LinePatterns, ANNOTATION_PATTERN, DECLARATION_PATTERN};
use vstd::prelude::*;

verus! {

/// Why a scan was given up. `line` counts the lines of the file from zero.
#[derive(Debug, Clone, Copy, PartialEq, Eq, Structural)]
pub enum ScanError {
    /// The regex engine rejected one of the two line patterns.
    BadPattern,
    /// A match on this line came without the text of its first group.
    MissingGroup { line: usize },
    /// This line declares a second message after the pending identifier was
    /// consumed by the first.
    MalformedPairing { line: usize },
}

/// The scanner between two lines: the identifier that waits for a
/// declaration, and the records made so far.
pub struct ScanView {
    pub pending: Option<Seq<char>>,
    pub messages: Seq<MessageMetadataView>,
}

/// The scanner before the first line.
pub open spec fn start() -> ScanView {
    ScanView { pending: None, messages: Seq::empty() }
}

/// Every match carries the text of its first group.
pub open spec fn all_present(groups: Seq<Option<Seq<char>>>) -> bool {
    forall|i: int| 0 <= i < groups.len() ==> (#[trigger] groups[i]) is Some
}

/// What an idle scanner takes from a line, given what the annotation pattern
/// found on it: the identifier of the last match, or nothing where the line
/// has no match.
pub open spec fn annotation_reading(found: Option<Seq<Option<Seq<char>>>>, line: usize) -> Result<
    Option<Seq<char>>,
    ScanError,
> {
    match found {
        None => Err(ScanError::BadPattern),
        Some(groups) => if !all_present(groups) {
            Err(ScanError::MissingGroup { line })
        } else if groups.len() == 0 {
            Ok(None)
        } else {
            Ok(groups.last())
        },
    }
}

/// What a waiting scanner takes from a line, given what the declaration
/// pattern found on it: the name of the only match, or nothing where the line
/// has no match. A second match finds the slot empty, which is an error.
pub open spec fn declaration_reading(found: Option<Seq<Option<Seq<char>>>>, line: usize) -> Result<
    Option<Seq<char>>,
    ScanError,
> {
    match found {
        None => Err(ScanError::BadPattern),
        Some(groups) => if groups.len() == 0 {
            Ok(None)
        } else if groups[0] is None {
            Err(ScanError::MissingGroup { line })
        } else if groups.len() == 1 {
            Ok(groups[0])
        } else if groups[1] is None {
            Err(ScanError::MissingGroup { line })
        } else {
            Err(ScanError::MalformedPairing { line })
        },
    }
}

/// The scanner after one more line. While the slot is empty the line is read
/// for an annotation only; while it is full, for a declaration only.
pub open spec fn after_line(state: ScanView, text: Seq<char>, line: usize) -> Result<
    ScanView,
    ScanError,
> {
    match state.pending {
        None => match annotation_reading(findings(ANNOTATION_PATTERN@, text), line) {
            Ok(pending) => Ok(ScanView { pending, messages: state.messages }),
            Err(e) => Err(e),
        },
        Some(id) => match declaration_reading(findings(DECLARATION_PATTERN@, text), line) {
            Ok(None) => Ok(state),
            Ok(Some(name)) => Ok(
                ScanView {
                    pending: None,
                    messages: state.messages.push(MessageMetadataView { name, id }),
                },
            ),
            Err(e) => Err(e),
        },
    }
}

/// The scanner after `lines`, entered in `state`, where the first of the
/// lines is line `base` of its file. The first error ends the scan.
pub open spec fn scan_from(state: ScanView, lines: Seq<Seq<char>>, base: nat) -> Result<
    ScanView,
    ScanError,
>
    decreases lines.len(),
{
    if lines.len() == 0 {
        Ok(state)
    } else {
        match scan_from(state, lines.drop_last(), base) {
            Ok(s) => after_line(s, lines.last(), (base + lines.len() - 1) as usize),
            Err(e) => Err(e),
        }
    }
}

/// The records of a whole file. An identifier that still waits at the end of
/// the file is dropped.
pub open spec fn scan_spec(lines: Seq<Seq<char>>) -> Result<Seq<MessageMetadataView>, ScanError> {
    match scan_from(start(), lines, 0) {
        Ok(s) => Ok(s.messages),
        Err(e) => Err(e),
    }
}

/// A reading, as character sequences.
pub open spec fn reading_view(r: Result<Option<String>, ScanError>) -> Result<
    Option<Seq<char>>,
    ScanError,
> {
    match r {
        Ok(text) => Ok(text.deep_view()),
        Err(e) => Err(e),
    }
}

/// The outcome of a scan, as character sequences.
pub open spec fn outcome_view(r: Result<Vec<MessageMetadata>, ScanError>) -> Result<
    Seq<MessageMetadataView>,
    ScanError,
> {
    match r {
        Ok(messages) => Ok(messages.deep_view()),
        Err(e) => Err(e),
    }
}

/// Reads what the annotation pattern found on line `line`.
pub fn read_annotation(found: Option<Vec<Option<String>>>, line: usize) -> (r: Result<
    Option<String>,
    ScanError,
>)
    ensures
        reading_view(r) == annotation_reading(found.deep_view(), line),
{
    match found {
        None => Err(ScanError::BadPattern),
        Some(mut groups) => {
            let ghost all = groups.deep_view();
            let mut i: usize = 0;
            while i < groups.len()
                invariant
                    i <= groups.len(),
                    groups.deep_view() == all,
                    found.deep_view() == Some(all),
                    forall|j: int| 0 <= j < i ==> (#[trigger] all[j]) is Some,
                decreases groups.len() - i,
            {
                if groups[i].is_none() {
                    assert(all[i as int] is None);
                    return Err(ScanError::MissingGroup { line });
                }
                i += 1;
            }
            match groups.pop() {
                None => Ok(None),
                Some(last) => {
                    Ok(last)
                },
            }
        },
    }
}

/// Reads what the declaration pattern found on line `line`.
pub fn read_declaration(found: Option<Vec<Option<String>>>, line: usize) -> (r: Result<
    Option<String>,
    ScanError,
>)
    ensures
        reading_view(r) == declaration_reading(found.deep_view(), line),
{
    match found {
        None => Err(ScanError::BadPattern),
        Some(mut groups) => {
            let ghost all = groups.deep_view();
            if groups.len() == 0 {
                Ok(None)
            } else if groups[0].is_none() {
                Err(ScanError::MissingGroup { line })
            } else if groups.len() == 1 {
                let only = groups.pop();
                match only {
                    Some(name) => {
                        Ok(name)
                    },
                    None => Ok(None),
                }
            } else if groups[1].is_none() {
                Err(ScanError::MissingGroup { line })
            } else {
                Err(ScanError::MalformedPairing { line })
            }
        },
    }
}

/// An error met on the way ends every longer scan too.
proof fn lemma_error_stays(state: ScanView, lines: Seq<Seq<char>>, base: nat, n: int)
    requires
        0 <= n <= lines.len(),
        scan_from(state, lines.take(n), base) is Err,
    ensures
        scan_from(state, lines, base) == scan_from(state, lines.take(n), base),
    decreases lines.len() - n,
{
    if n < lines.len() {
        assert(lines.take(n + 1).drop_last() == lines.take(n));
        lemma_error_stays(state, lines, base, n + 1);
    } else {
        assert(lines.take(n) == lines);
    }
}

/// Scans the lines of one file with patterns that are compiled already.
pub(crate) fn scan_with(patterns: &LinePatterns, lines: &Vec<String>) -> (r: Result<
    Vec<MessageMetadata>,
    ScanError,
>)
    requires
        patterns.well_formed(),
    ensures
        outcome_view(r) == scan_spec(lines.deep_view()),
{
    let ghost texts = lines.deep_view();
    let mut pending: Option<String> = None;
    let mut messages: Vec<MessageMetadata> = Vec::new();
    let mut i: usize = 0;
    assert(messages.deep_view() == Seq::<MessageMetadataView>::empty());
    while i < lines.len()
        invariant
            i <= lines.len(),
            texts == lines.deep_view(),
            patterns.well_formed(),
            scan_from(start(), texts.take(i as int), 0) == Ok::<ScanView, ScanError>(
                ScanView { pending: pending.deep_view(), messages: messages.deep_view() },
            ),
        decreases lines.len() - i,
    {
        let text = lines[i].as_str();
        assert(texts.take(i + 1).drop_last() == texts.take(i as int));
        let ghost before = messages.deep_view();
        match pending {
            None => {
                let found = patterns.find_annotation(text);
                match read_annotation(found, i) {
                    Ok(id) => {
                        pending = id;
                    },
                    Err(e) => {
                        proof {
                            lemma_error_stays(start(), texts, 0, i + 1);
                        }
                        return Err(e);
                    },
                }
            },
            Some(id) => {
                let found = patterns.find_declaration(text);
                match read_declaration(found, i) {
                    Ok(Some(name)) => {
                        let record = MessageMetadata::new(name, id);
                        messages.push(record);
                        pending = None;
                        assert(messages.deep_view() == before.push(record@));
                    },
                    Ok(None) => {
                        pending = Some(id);
                    },
                    Err(e) => {
                        proof {
                            lemma_error_stays(start(), texts, 0, i + 1);
                        }
                        return Err(e);
                    },
                }
            },
        }
        i += 1;
    }
    assert(texts.take(i as int) == texts);
    Ok(messages)
}

/// Scans the lines of one file and returns its records in the order of their
/// declarations, each with the identifier that was pending when its
/// declaration came.
pub fn scan_lines(lines: &Vec<String>) -> (r: Result<Vec<MessageMetadata>, ScanError>)
    ensures
        outcome_view(r) == scan_spec(lines.deep_view()),
{
    let patterns = LinePatterns::new();
    scan_with(&patterns, lines)
}

} // verus!
