//! The placement resolver: maps a record's file type, document kind and
//! content signals to the relative directory the file should move to. An
//! empty result means the file stays where it is.

use crate::fold::{lower_spec, lowercase};
use crate::record::FileRecord;
use crate::text::{contains_seq, contains_str};
use crate::{DocumentKind, FileType};
use vstd::prelude::*;

verus! {

/// The scripts subdirectory for a shell script, decided by the first
/// matching content signal: install or setup, then test, then build, then
/// the generic scripts folder.
pub open spec fn script_subdir_spec(content_l: Seq<char>) -> Seq<char> {
    if contains_seq(content_l, "install"@) || contains_seq(content_l, "setup"@) {
        "scripts/setup"@
    } else if contains_seq(content_l, "test"@) {
        "scripts/tests"@
    } else if contains_seq(content_l, "build"@) {
        "scripts/build"@
    } else {
        "scripts"@
    }
}

/// The relative target directory for a file type, a document kind and the
/// lowered content; empty for any combination that is not relocated.
pub open spec fn placement_spec(
    ftype: FileType,
    kind: DocumentKind,
    content_l: Seq<char>,
) -> Seq<char> {
    match (ftype, kind) {
        (FileType::Markdown, DocumentKind::Rubric) => "docs/rubrics"@,
        (FileType::Markdown, DocumentKind::Report) => "docs/reports"@,
        (FileType::Markdown, DocumentKind::Guide) => "docs/guides"@,
        (FileType::Markdown, DocumentKind::Summary) => "docs/summaries"@,
        (FileType::Shell, DocumentKind::Script) => script_subdir_spec(content_l),
        _ => Seq::<char>::empty(),
    }
}

/// An ephemeral target descriptor for one record: the relative directory
/// it should move to (empty for none) and the file name it should carry.
pub struct PlacementDecision {
    pub target_directory: String,
    pub target_filename: String,
}

/// Produces the target descriptor for a record: the placement table picks
/// the directory, the name synthesizer the file name.
pub fn plan_placement(record: &FileRecord) -> (d: PlacementDecision)
    ensures
        d.target_directory@ == placement_spec(
            record.file_type,
            record.doc_kind,
            crate::fold::lower_spec(record.content@),
        ),
        d.target_filename@ == crate::naming::synthesized_spec(
            crate::record::stem_of(record.name@),
            record.doc_kind,
            record.file_type,
            record.name@,
        ),
{
    PlacementDecision {
        target_directory: suggest_target_directory(record),
        target_filename: record.generate_new_filename(),
    }
}

/// Resolves the relative target directory for a record; an empty result
/// means no relocation.
pub fn suggest_target_directory(record: &FileRecord) -> (r: String)
    ensures
        r@ == placement_spec(record.file_type, record.doc_kind, lower_spec(record.content@)),
{
    match (record.file_type, record.doc_kind) {
        (FileType::Markdown, DocumentKind::Rubric) => String::from_str("docs/rubrics"),
        (FileType::Markdown, DocumentKind::Report) => String::from_str("docs/reports"),
        (FileType::Markdown, DocumentKind::Guide) => String::from_str("docs/guides"),
        (FileType::Markdown, DocumentKind::Summary) => String::from_str("docs/summaries"),
        (FileType::Shell, DocumentKind::Script) => {
            let content_l = lowercase(record.content.as_str());
            if contains_str(content_l.as_str(), "install") || contains_str(
                content_l.as_str(),
                "setup",
            ) {
                String::from_str("scripts/setup")
            } else if contains_str(content_l.as_str(), "test") {
                String::from_str("scripts/tests")
            } else if contains_str(content_l.as_str(), "build") {
                String::from_str("scripts/build")
            } else {
                String::from_str("scripts")
            }
        },
        _ => {
            let r = String::new();
            r
        },
    }
}

} // verus!
