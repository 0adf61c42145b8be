use maid::partition::{partition, Partition};
use maid::record::FileRecord;

fn record(name: &str, content: &str, created_at: Option<i64>) -> FileRecord {
    FileRecord::new(
        name.to_string(),
        name.to_string(),
        content.to_string(),
        created_at,
    )
}

fn check_is_partition(p: &Partition, n: usize) {
    for i in 0..n {
        let kept = p.keep.contains(&i);
        let dropped = p.discard.contains(&i);
        assert!(kept != dropped, "index {} must land in exactly one set", i);
    }
    assert_eq!(p.keep.len() + p.discard.len(), n);
}

#[test]
fn wordiest_rubric_survives() {
    let long = format!("Evaluation Rubric {}", "word ".repeat(500));
    let short = format!("Evaluation Rubric {}", "word ".repeat(200));
    let records = vec![
        record("rubric_v1.md", &short, None),
        record("rubric_v2.md", &long, None),
    ];
    let p = partition(&records);
    check_is_partition(&p, 2);
    assert_eq!(p.keep, vec![1]);
    assert_eq!(p.discard, vec![0]);
}

#[test]
fn rubric_tie_keeps_first() {
    let records = vec![
        record("rubric_a.md", "Evaluation Rubric one two", None),
        record("rubric_b.md", "Evaluation Rubric six ten", None),
    ];
    let p = partition(&records);
    assert_eq!(p.keep, vec![0]);
    assert_eq!(p.discard, vec![1]);
}

#[test]
fn timestamped_summary_beats_absent() {
    let records = vec![
        record("one.md", "# Summary\nfirst", Some(86_400_000)),
        record("two.md", "# Summary\nsecond", None),
    ];
    let p = partition(&records);
    check_is_partition(&p, 2);
    assert_eq!(p.keep, vec![0]);
    assert_eq!(p.discard, vec![1]);
}

#[test]
fn newest_report_survives() {
    let records = vec![
        record("status_a.md", "", Some(5)),
        record("status_b.md", "", Some(9)),
        record("status_c.md", "", Some(7)),
    ];
    let p = partition(&records);
    assert_eq!(p.keep, vec![1]);
    assert_eq!(p.discard, vec![0, 2]);
}

#[test]
fn report_tie_keeps_first() {
    let records = vec![
        record("status_a.md", "", Some(5)),
        record("status_b.md", "", Some(5)),
    ];
    let p = partition(&records);
    assert_eq!(p.keep, vec![0]);
}

#[test]
fn guides_and_unknowns_always_kept() {
    let records = vec![
        record("howto_a.md", "", None),
        record("howto_b.md", "", None),
        record("misc.md", "plain", None),
        record("misc2.md", "plain", None),
    ];
    let p = partition(&records);
    check_is_partition(&p, 4);
    assert_eq!(p.keep, vec![0, 1, 2, 3]);
    assert!(p.discard.is_empty());
}

#[test]
fn three_scripts_first_of_duplicates_wins() {
    // B and C duplicate A's trimmed content; only A survives of the three.
    let records = vec![
        record("a.sh", "echo hi\n", None),
        record("b.sh", "  echo hi  ", None),
        record("c.sh", "\necho hi", None),
        record("d.sh", "echo other", None),
    ];
    let p = partition(&records);
    check_is_partition(&p, 4);
    assert_eq!(p.keep, vec![0, 3]);
    assert_eq!(p.discard, vec![1, 2]);
}

#[test]
fn singleton_groups_fully_kept() {
    let records = vec![
        record("rubric.md", "Evaluation Rubric", None),
        record("status.md", "", Some(1)),
        record("guide.md", "", None),
        record("recap.md", "", None),
        record("run.sh", "echo", None),
        record("misc.md", "plain", None),
    ];
    let p = partition(&records);
    check_is_partition(&p, 6);
    assert_eq!(p.keep, vec![0, 1, 2, 3, 4, 5]);
    assert!(p.discard.is_empty());
}

#[test]
fn mixed_set_covers_all_indices() {
    let records = vec![
        record("rubric_a.md", "Evaluation Rubric small", None),
        record("rubric_b.md", "Evaluation Rubric much bigger text here", None),
        record("status.md", "", Some(3)),
        record("old_status.md", "", Some(1)),
        record("a.sh", "echo hi", None),
        record("b.sh", "echo hi", None),
        record("notes.md", "plain", None),
    ];
    let p = partition(&records);
    check_is_partition(&p, 7);
    assert_eq!(p.keep, vec![1, 2, 4, 6]);
    assert_eq!(p.discard, vec![0, 3, 5]);
}

#[test]
fn empty_input_gives_empty_partition() {
    let records: Vec<FileRecord> = Vec::new();
    let p = partition(&records);
    assert!(p.keep.is_empty());
    assert!(p.discard.is_empty());
}
