use maid::placement::{plan_placement, suggest_target_directory};
use maid::record::FileRecord;

fn record(name: &str, content: &str) -> FileRecord {
    FileRecord::new(name.to_string(), name.to_string(), content.to_string(), None)
}

#[test]
fn npm_test_script_goes_to_scripts_tests() {
    let r = record("run.sh", "#!/bin/sh\nnpm test\n");
    assert_eq!(suggest_target_directory(&r), "scripts/tests");
}

#[test]
fn install_script_goes_to_scripts_setup() {
    let r = record("run.sh", "apt-get install things");
    assert_eq!(suggest_target_directory(&r), "scripts/setup");
    let s = record("run.sh", "SETUP the env");
    assert_eq!(suggest_target_directory(&s), "scripts/setup");
}

#[test]
fn build_script_goes_to_scripts_build() {
    let r = record("run.sh", "cargo build --release");
    assert_eq!(suggest_target_directory(&r), "scripts/build");
}

#[test]
fn plain_script_goes_to_scripts() {
    let r = record("run.sh", "echo hello");
    assert_eq!(suggest_target_directory(&r), "scripts");
}

#[test]
fn install_beats_test_in_script_content() {
    let r = record("run.sh", "npm test after npm install");
    assert_eq!(suggest_target_directory(&r), "scripts/setup");
}

#[test]
fn placement_decision_pairs_directory_and_name() {
    let r = record("install_deps.sh", "# installs project dependencies");
    let d = plan_placement(&r);
    assert_eq!(d.target_directory, "scripts/setup");
    assert_eq!(d.target_filename, "Install Deps.sh");
}

#[test]
fn markdown_kinds_go_to_docs() {
    assert_eq!(
        suggest_target_directory(&record("rubric.md", "")),
        "docs/rubrics"
    );
    assert_eq!(
        suggest_target_directory(&record("status.md", "")),
        "docs/reports"
    );
    assert_eq!(
        suggest_target_directory(&record("guide.md", "")),
        "docs/guides"
    );
    assert_eq!(
        suggest_target_directory(&record("recap.md", "")),
        "docs/summaries"
    );
}

#[test]
fn unplaced_combinations_stay_put() {
    assert_eq!(suggest_target_directory(&record("notes.md", "plain")), "");
    assert_eq!(suggest_target_directory(&record("data.txt", "")), "");
    // A shell file whose name carries a rubric signal is a Rubric, not a
    // Script, so it is not relocated either.
    assert_eq!(suggest_target_directory(&record("rubric.sh", "")), "");
}
