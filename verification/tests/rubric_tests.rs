use maid::record::FileRecord;
use maid::rubric::{generate_rubric, generate_rubric_now, keywords_str};

fn record(name: &str, content: &str) -> FileRecord {
    FileRecord::new(name.to_string(), name.to_string(), content.to_string(), None)
}

const HEADER: &str = "# Comprehensive Project Rubric\n\n*Generated by Maid - AI-generated file organizer*\n\n## Overview\n\nThis rubric is automatically generated based on the analysis of project documentation and scripts.\n\nGenerated on: ";
const KEY_TERMS: &str = "\n\n## Key Project Components\n\n### Key Terms\n\n";
const CRITERIA: &str = "\n## Evaluation Criteria\n\n";
const DOC_TABLE: &str = "### Documentation Quality\n\n| Criterion | Poor | Satisfactory | Excellent |\n|-----------|------|--------------|----------|\n| Completeness | Documentation missing key components | Most features documented | Comprehensive documentation of all features |\n| Clarity | Confusing or unclear | Generally clear with some issues | Clear, concise, and well-organized |\n| Examples | Few or no examples | Some examples provided | Rich examples covering typical use cases |\n\n";
const SCRIPT_TABLE: &str = "### Script Quality\n\n| Criterion | Poor | Satisfactory | Excellent |\n|-----------|------|--------------|----------|\n| Functionality | Scripts fail to accomplish tasks | Scripts work but have limitations | Scripts work flawlessly for all use cases |\n| Readability | Poorly commented and structured | Adequate comments and structure | Well-commented, clear structure |\n| Error Handling | Little or no error handling | Basic error handling | Comprehensive error handling with helpful messages |\n\n";
const CLOSING: &str = "## Note on Documentation Management\n\nResearch has shown that having too many redundant documentation files can lead to confusion and AI hallucinations when used as reference material. This rubric is generated as part of an effort to consolidate and organize project documentation.\n\n### References\n\n- Hallucination in Large Language Models: [https://arxiv.org/abs/2309.01219](https://arxiv.org/abs/2309.01219)\n- The Impact of Contradictory Data on AI Training: [https://www.nature.com/articles/s41467-023-42879-y](https://www.nature.com/articles/s41467-023-42879-y)\n";

#[test]
fn keywords_split_lowercase_and_filter() {
    let toks = keywords_str("Alpha, beta!! cc_dd x y1z2 no");
    assert_eq!(toks, vec!["alpha".to_string(), "beta".to_string(), "cc_dd".to_string(), "y1z2".to_string()]);
}

#[test]
fn keywords_drop_short_tokens() {
    let toks = keywords_str("a bb ccc dddd");
    assert_eq!(toks, vec!["dddd".to_string()]);
}

#[test]
fn document_for_one_markdown_record() {
    let records = vec![record("notes.md", "alpha beta alpha")];
    let doc = generate_rubric(&records, "2024-01-01");
    let expected = format!(
        "{}2024-01-01{}- alpha\n- beta\n{}{}{}",
        HEADER, KEY_TERMS, CRITERIA, DOC_TABLE, CLOSING
    );
    assert_eq!(doc, expected);
}

#[test]
fn document_for_one_shell_record() {
    let records = vec![record("run.sh", "echo")];
    let doc = generate_rubric(&records, "2024-06-30");
    let expected = format!(
        "{}2024-06-30{}- echo\n{}{}{}",
        HEADER, KEY_TERMS, CRITERIA, SCRIPT_TABLE, CLOSING
    );
    assert_eq!(doc, expected);
}

#[test]
fn frequency_orders_keywords() {
    let records = vec![record("notes.md", "beta alpha beta gamma alpha beta")];
    let doc = generate_rubric(&records, "2024-01-01");
    let terms_at = doc.find("### Key Terms").unwrap();
    let criteria_at = doc.find("\n## Evaluation Criteria").unwrap();
    let bullets = &doc[terms_at..criteria_at];
    assert!(bullets.contains("- beta\n- alpha\n- gamma\n"));
}

#[test]
fn at_most_fifteen_keywords() {
    let content = (0..20).map(|i| format!("keyword{:02} ", i)).collect::<String>();
    let records = vec![record("notes.md", &content)];
    let doc = generate_rubric(&records, "2024-01-01");
    let bullet_count = doc.matches("\n- ").count() + if doc.contains("\n\n- ") { 0 } else { 0 };
    // Two closing reference bullets are fixed; fifteen keyword bullets at most.
    assert_eq!(doc.matches("- keyword").count(), 15);
    assert!(bullet_count >= 15);
}

#[test]
fn both_tables_with_mixed_records() {
    let records = vec![record("notes.md", "words here"), record("run.sh", "echo")];
    let doc = generate_rubric(&records, "2024-01-01");
    assert!(doc.contains("### Documentation Quality"));
    assert!(doc.contains("### Script Quality"));
}

#[test]
fn no_tables_without_markdown_or_shell() {
    let records = vec![record("data.txt", "words here")];
    let doc = generate_rubric(&records, "2024-01-01");
    assert!(!doc.contains("### Documentation Quality"));
    assert!(!doc.contains("### Script Quality"));
}

#[test]
fn dated_document_embeds_its_date() {
    let records = vec![record("notes.md", "alpha")];
    let (doc, date) = generate_rubric_now(&records);
    assert!(doc.starts_with(HEADER));
    assert!(doc.contains(&format!("Generated on: {}", date)));
}
