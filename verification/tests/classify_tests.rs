use maid::classify::classify;
use maid::record::FileRecord;
use maid::{DocumentKind, FileType};

fn record(name: &str, content: &str, created_at: Option<i64>) -> FileRecord {
    FileRecord::new(
        name.to_string(),
        name.to_string(),
        content.to_string(),
        created_at,
    )
}

#[test]
fn shell_extension_falls_back_to_script() {
    assert_eq!(
        classify("install_deps.sh", "# installs project dependencies"),
        DocumentKind::Script
    );
}

#[test]
fn rubric_by_name() {
    assert_eq!(classify("rubric_v2.md", "anything"), DocumentKind::Rubric);
}

#[test]
fn rubric_by_content() {
    assert_eq!(
        classify("notes.md", "This file holds the Evaluation Rubric for the project."),
        DocumentKind::Rubric
    );
}

#[test]
fn rubric_name_beats_shell_extension() {
    assert_eq!(classify("rubric.sh", "echo hi"), DocumentKind::Rubric);
}

#[test]
fn report_by_name_and_content() {
    assert_eq!(classify("status_update.md", ""), DocumentKind::Report);
    assert_eq!(classify("notes.md", "# Completion\nAll done."), DocumentKind::Report);
    assert_eq!(classify("notes.md", "task completion details"), DocumentKind::Report);
}

#[test]
fn guide_by_name_and_content() {
    assert_eq!(classify("howto_use.md", ""), DocumentKind::Guide);
    assert_eq!(classify("notes.md", "Step by step walkthrough"), DocumentKind::Guide);
}

#[test]
fn summary_by_name_and_content() {
    assert_eq!(classify("synopsis.md", ""), DocumentKind::Summary);
    assert_eq!(classify("notes.md", "# Summary\nof things"), DocumentKind::Summary);
    assert_eq!(classify("notes.md", "In conclusion, it works."), DocumentKind::Summary);
}

#[test]
fn unknown_when_nothing_matches() {
    assert_eq!(classify("notes.md", "nothing special here"), DocumentKind::Unknown);
}

#[test]
fn classification_is_case_insensitive() {
    assert_eq!(classify("RUBRIC.MD", ""), DocumentKind::Rubric);
    assert_eq!(classify("notes.md", "EVALUATION RUBRIC"), DocumentKind::Rubric);
}

#[test]
fn classification_is_deterministic() {
    let a = classify("weird_name.md", "some content with # overview");
    let b = classify("weird_name.md", "some content with # overview");
    assert_eq!(a, b);
    assert_eq!(a, DocumentKind::Summary);
}

#[test]
fn priority_rubric_over_report() {
    // Both a rubric and a report signal: the rubric rule runs first.
    assert_eq!(
        classify("report.md", "scoring guide inside"),
        DocumentKind::Rubric
    );
}

#[test]
fn record_derives_kind_and_type_once() {
    let r = record("install_deps.sh", "# installs project dependencies", None);
    assert_eq!(r.doc_kind, DocumentKind::Script);
    assert_eq!(r.file_type, FileType::Shell);
    let m = record("plan.md", "", Some(7));
    assert_eq!(m.file_type, FileType::Markdown);
    assert_eq!(m.doc_kind, DocumentKind::Unknown);
    assert_eq!(m.created_at, Some(7));
    let o = record("data.txt", "", None);
    assert_eq!(o.file_type, FileType::Other);
}

#[test]
fn extension_edge_cases() {
    // Only the final extension counts.
    assert_eq!(record("archive.tar.md", "", None).file_type, FileType::Markdown);
    // A hidden file's leading dot is no extension marker.
    assert_eq!(record(".md", "", None).file_type, FileType::Other);
    // No dot, no handled extension.
    assert_eq!(record("README", "", None).file_type, FileType::Other);
    // Extension matching is case-sensitive, as for the path inspection it models.
    assert_eq!(record("notes.MD", "", None).file_type, FileType::Other);
}

#[test]
fn hidden_names() {
    assert!(maid::record::is_hidden_name(".gitignore"));
    assert!(!maid::record::is_hidden_name("notes.md"));
    assert!(!maid::record::is_hidden_name(""));
}
