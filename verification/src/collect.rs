//! The collection driver: from the schema files of a directory, as they were
//! read, to one record for each file.

use crate::model::{MessageMetadataView, ProtoMessageInfo, ProtoMessageInfoView};
use crate::pattern::LinePatterns;
use crate::scanner::{scan_spec, scan_with, ScanError};
use std::path::Path;
use vstd::prelude::*;
use vstd::string::*;

verus! {

/// One schema file as it was read, as character sequences.
pub struct SourceFileView {
    pub path: Seq<char>,
    pub stem: Seq<char>,
    pub lines: Seq<Seq<char>>,
}

/// One schema file as it was read: its path, the stem of its file name, and
/// its lines without their line endings.
#[derive(Debug, PartialEq, Eq)]
pub struct SourceFile {
    path: String,
    stem: String,
    lines: Vec<String>,
}

impl View for SourceFile {
    type V = SourceFileView;

    closed spec fn view(&self) -> SourceFileView {
        SourceFileView { path: self.path@, stem: self.stem@, lines: self.lines.deep_view() }
    }
}

impl DeepView for SourceFile {
    type V = SourceFileView;

    open spec fn deep_view(&self) -> SourceFileView {
        self@
    }
}

/// `std::path::Path::file_stem` of `path`: the last component of the path
/// without its extension, if the path has a last component. Nothing is
/// claimed of the result: where a component begins depends on the platform.
#[verifier::external_body]
fn file_stem(path: &str) -> (stem: Option<String>) {
    Path::new(path).file_stem().and_then(|s| s.to_str()).map(|s| s.to_string())
}

/// The file at `path` once a stem was looked for: the file under that stem,
/// or nothing where the path has none.
pub open spec fn source_with_stem(
    path: Seq<char>,
    stem: Option<Seq<char>>,
    lines: Seq<Seq<char>>,
) -> Option<SourceFileView> {
    match stem {
        Some(stem) => Some(SourceFileView { path, stem, lines }),
        None => None,
    }
}

impl SourceFile {
    /// The file at `path` with the stem `stem` and the lines `lines`.
    pub fn new(path: String, stem: String, lines: Vec<String>) -> (file: SourceFile)
        ensures
            file@.path == path@,
            file@.stem == stem@,
            file@.lines == lines.deep_view(),
    {
        SourceFile { path, stem, lines }
    }

    /// The file at `path` with the lines `lines`, under the stem that was
    /// found for the path; nothing where none was found.
    pub fn with_stem(path: String, stem: Option<String>, lines: Vec<String>) -> (file: Option<
        SourceFile,
    >)
        ensures
            file.deep_view() == source_with_stem(path@, stem.deep_view(), lines.deep_view()),
    {
        match stem {
            Some(stem) => Some(SourceFile::new(path, stem, lines)),
            None => None,
        }
    }

    /// The file at `path` with the lines `lines`, under the stem that the
    /// path has on this platform; nothing where the path names no file.
    /// Which stem that is, and whether there is one, the platform's path
    /// rules decide: `with_stem` says what becomes of either answer.
    pub fn from_path(path: String, lines: Vec<String>) -> (file: Option<SourceFile>)
        ensures
            file matches Some(f) ==> f@.path == path@ && f@.lines == lines.deep_view(),
    {
        let stem = file_stem(path.as_str());
        SourceFile::with_stem(path, stem, lines)
    }

    /// The path of the file.
    pub fn path(&self) -> (path: &str)
        ensures
            path@ == self@.path,
    {
        self.path.as_str()
    }

    /// The stem of the file name.
    pub fn stem(&self) -> (stem: &str)
        ensures
            stem@ == self@.stem,
    {
        self.stem.as_str()
    }

    /// The lines of the file.
    pub fn lines(&self) -> (lines: &Vec<String>)
        ensures
            lines.deep_view() == self@.lines,
    {
        &self.lines
    }
}

/// The scan of one file failed: `file` counts the files from zero.
#[derive(Debug, Clone, Copy, PartialEq, Eq, Structural)]
pub struct CollectError {
    pub file: usize,
    pub error: ScanError,
}

/// `info` is the record of `file`: it has the file's path and stem, and the
/// records that the scan of its lines gives.
pub open spec fn is_record_of(info: ProtoMessageInfoView, file: SourceFileView) -> bool {
    &&& info.file_path == file.path
    &&& info.file_name == file.stem
    &&& scan_spec(file.lines) == Ok::<Seq<MessageMetadataView>, ScanError>(info.messages)
}

/// The pattern that selects the schema files directly inside `dir`.
pub fn proto_glob_pattern(dir: &str) -> (pattern: String)
    ensures
        pattern@ == dir@ + "/*.proto"@,
{
    String::from_str(dir).concat("/*.proto")
}

/// Scans every file and returns the records, one for each file and in the
/// order of the files. The first file whose scan fails ends the run.
pub fn get_protos_info(files: &Vec<SourceFile>) -> (r: Result<Vec<ProtoMessageInfo>, CollectError>)
    ensures
        match r {
            Ok(infos) => {
                &&& infos.len() == files.len()
                &&& forall|i: int|
                    0 <= i < files.len() ==> is_record_of(#[trigger] infos[i]@, files[i]@)
            },
            Err(e) => {
                &&& e.file < files.len()
                &&& scan_spec(files[e.file as int]@.lines) == Err::<
                    Seq<MessageMetadataView>,
                    ScanError,
                >(e.error)
                &&& forall|j: int| 0 <= j < e.file ==> scan_spec(#[trigger] files[j]@.lines) is Ok
            },
        },
{
    let patterns = LinePatterns::new();
    let mut infos: Vec<ProtoMessageInfo> = Vec::new();
    let mut i: usize = 0;
    while i < files.len()
        invariant
            patterns.well_formed(),
            i <= files.len(),
            infos.len() == i,
            forall|k: int| 0 <= k < i ==> is_record_of(#[trigger] infos[k]@, files[k]@),
        decreases files.len() - i,
    {
        let file = &files[i];
        match scan_with(&patterns, &file.lines) {
            Ok(messages) => {
                infos.push(ProtoMessageInfo::new(file.path.clone(), file.stem.clone(), messages));
            },
            Err(error) => {
                assert forall|j: int| 0 <= j < i implies scan_spec(
                    #[trigger] files[j]@.lines,
                ) is Ok by {
                    assert(is_record_of(infos[j]@, files[j]@));
                }
                return Err(CollectError { file: i, error });
            },
        }
        i += 1;
    }
    Ok(infos)
}

/// The paths of the scanned files, in their order.
pub fn get_proto_list<'a>(v: &'a Vec<ProtoMessageInfo>) -> (paths: Vec<&'a str>)
    ensures
        paths.len() == v.len(),
        forall|i: int| 0 <= i < v.len() ==> (#[trigger] paths[i])@ == v[i]@.file_path,
{
    let mut paths: Vec<&'a str> = Vec::new();
    let mut i: usize = 0;
    while i < v.len()
        invariant
            i <= v.len(),
            paths.len() == i,
            forall|k: int| 0 <= k < i ==> (#[trigger] paths[k])@ == v[k]@.file_path,
        decreases v.len() - i,
    {
        paths.push(v[i].file_path());
        i += 1;
    }
    paths
}

/// The records follow the files: whatever is a list of records of the same
/// files, one for each and in their order, is the same list. So two runs over
/// files that were handed over in the same order give the same records in
/// the same order.
pub proof fn lemma_records_follow_the_files(
    files: Seq<SourceFileView>,
    a: Seq<ProtoMessageInfoView>,
    b: Seq<ProtoMessageInfoView>,
)
    requires
        a.len() == files.len(),
        b.len() == files.len(),
        forall|i: int| 0 <= i < files.len() ==> is_record_of(#[trigger] a[i], files[i]),
        forall|i: int| 0 <= i < files.len() ==> is_record_of(#[trigger] b[i], files[i]),
    ensures
        a == b,
{
    assert(a =~= b);
}

} // verus!
