use maid::stats::CleanStats;
use maid::trash::{new_trash_dir_name, numbered_trash_name, self_destruct_script, trash_dir_name, u64_to_string};
use maid::FileType;

#[test]
fn decimal_rendering() {
    assert_eq!(u64_to_string(0), "0");
    assert_eq!(u64_to_string(7), "7");
    assert_eq!(u64_to_string(10), "10");
    assert_eq!(u64_to_string(90210), "90210");
    assert_eq!(u64_to_string(u64::MAX), "18446744073709551615");
}

#[test]
fn trash_dir_is_keyed_by_stamp() {
    assert_eq!(trash_dir_name("20240101_120000"), "/tmp/maid-trash-bin-20240101_120000");
}

#[test]
fn fresh_trash_dir_has_prefix() {
    let name = new_trash_dir_name();
    assert!(name.starts_with("/tmp/maid-trash-bin-"));
}

#[test]
fn numbered_names_resolve_collisions() {
    assert_eq!(numbered_trash_name("report", 1, "md"), "report-1.md");
    assert_eq!(numbered_trash_name("script", 12, "sh"), "script-12.sh");
    assert_eq!(numbered_trash_name("noext", 3, ""), "noext-3.");
}

#[test]
fn self_destruct_script_embeds_directory() {
    let script = self_destruct_script("/tmp/maid-trash-bin-x");
    assert!(script.starts_with("#!/bin/bash\n"));
    assert!(script.contains("trap \"rm -rf /tmp/maid-trash-bin-x\" EXIT"));
    assert!(script.ends_with("exec bash"));
}

#[test]
fn stats_accumulate() {
    let mut s = CleanStats::new();
    s.record_processed();
    s.record_processed();
    s.record_skipped();
    s.record_file_type(FileType::Markdown);
    s.record_file_type(FileType::Shell);
    s.record_file_type(FileType::Shell);
    s.record_file_type(FileType::Other);
    assert_eq!(s.processed, 2);
    assert_eq!(s.skipped, 1);
    assert_eq!(s.markdown, 1);
    assert_eq!(s.shell, 2);
}
