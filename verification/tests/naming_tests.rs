use maid::naming::{improve_name, normalize_base, replace_dashes, synthesize_name, title_case};
use maid::record::FileRecord;
use maid::{DocumentKind, FileType};

#[test]
fn dashes_and_underscores_become_spaces() {
    assert_eq!(replace_dashes("a_b-c"), "a b c");
}

#[test]
fn normalization_lowercases() {
    assert_eq!(normalize_base("Install_DEPS"), "install deps");
}

#[test]
fn install_pattern_captures_remainder() {
    assert_eq!(improve_name("install deps"), "Install deps");
    assert_eq!(improve_name("setup environment"), "Install environment");
}

#[test]
fn last_matching_pattern_wins() {
    // Matches the setup pattern first, then the deploy pattern overwrites.
    assert_eq!(improve_name("setup and deploy app"), "Deploy app");
}

#[test]
fn configuration_pattern_consumes_long_form() {
    assert_eq!(improve_name("configuration of server"), "Configuration of server");
    assert_eq!(improve_name("config server"), "Configuration server");
}

#[test]
fn no_pattern_leaves_name() {
    assert_eq!(improve_name("meeting notes"), "meeting notes");
}

#[test]
fn title_case_capitalizes_words() {
    assert_eq!(title_case("hello brave world"), "Hello Brave World");
}

#[test]
fn title_case_collapses_whitespace() {
    assert_eq!(title_case("  a   b "), "A B");
}

#[test]
fn title_case_is_idempotent_on_ascii() {
    let once = title_case("install deps now");
    let twice = title_case(&once);
    assert_eq!(once, twice);
    assert_eq!(once, "Install Deps Now");
}

#[test]
fn synthesized_name_for_shell_script() {
    let r = FileRecord::new(
        "install_deps.sh".to_string(),
        "install_deps.sh".to_string(),
        "# installs project dependencies".to_string(),
        None,
    );
    assert_eq!(r.generate_new_filename(), "Install Deps.sh");
}

#[test]
fn synthesized_name_carries_kind_prefix() {
    let r = FileRecord::new(
        "rubric_v2.md".to_string(),
        "rubric_v2.md".to_string(),
        "Evaluation Rubric".to_string(),
        None,
    );
    assert_eq!(r.generate_new_filename(), "Rubric - Rubric V2.md");
}

#[test]
fn other_file_type_keeps_original_name() {
    let out = synthesize_name("data", DocumentKind::Unknown, FileType::Other, "data.txt");
    assert_eq!(out, "data.txt");
}

#[test]
fn prefixes_per_kind() {
    assert_eq!(
        synthesize_name("status", DocumentKind::Report, FileType::Markdown, "status.md"),
        "Report - Status.md"
    );
    assert_eq!(
        synthesize_name("howto", DocumentKind::Guide, FileType::Markdown, "howto.md"),
        "Guide - Howto.md"
    );
    assert_eq!(
        synthesize_name("recap", DocumentKind::Summary, FileType::Markdown, "recap.md"),
        "Summary - Recap.md"
    );
}
