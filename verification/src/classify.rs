//! The document classifier: infers a [`DocumentKind`] from a file name and
//! its content. Matching is case-insensitive (both inputs are lowercased
//! first) and candidate kinds are tried in a fixed priority order; the first
//! match wins.

use crate::fold::{lower_spec, lowercase};
use crate::text::{contains_seq, contains_str, ends_with_seq, ends_with_str};
use crate::DocumentKind;
use vstd::prelude::*;

verus! {

/// A rubric signal in the lowered name or content.
pub open spec fn rubric_signal(n: Seq<char>, c: Seq<char>) -> bool {
    contains_seq(n, "rubric"@) || contains_seq(c, "# rubric"@) || contains_seq(c, "rubric for"@)
        || contains_seq(c, "evaluation rubric"@) || contains_seq(c, "assessment criteria"@)
        || contains_seq(c, "scoring guide"@)
}

/// A report, completion or status signal in the lowered name or content.
pub open spec fn report_signal(n: Seq<char>, c: Seq<char>) -> bool {
    contains_seq(n, "report"@) || contains_seq(n, "complete"@) || contains_seq(n, "status"@)
        || contains_seq(n, "analysis"@) || contains_seq(n, "assessment"@) || contains_seq(
        c,
        "# report"@,
    ) || contains_seq(c, "# completion"@) || contains_seq(c, "# status"@) || contains_seq(
        c,
        "# analysis"@,
    ) || contains_seq(c, "task completion"@) || contains_seq(c, "completion report"@)
        || contains_seq(c, "status update"@)
}

/// A guide, manual or tutorial signal in the lowered name or content.
pub open spec fn guide_signal(n: Seq<char>, c: Seq<char>) -> bool {
    contains_seq(n, "guide"@) || contains_seq(n, "how_to"@) || contains_seq(n, "howto"@)
        || contains_seq(n, "manual"@) || contains_seq(n, "tutorial"@) || contains_seq(
        n,
        "instructions"@,
    ) || contains_seq(c, "# guide"@) || contains_seq(c, "# how to"@) || contains_seq(
        c,
        "step by step"@,
    ) || contains_seq(c, "# tutorial"@) || contains_seq(c, "# instructions"@) || contains_seq(
        c,
        "how to use"@,
    ) || contains_seq(c, "usage instructions"@)
}

/// A summary or overview signal in the lowered name or content.
pub open spec fn summary_signal(n: Seq<char>, c: Seq<char>) -> bool {
    contains_seq(n, "summary"@) || contains_seq(n, "overview"@) || contains_seq(n, "recap"@)
        || contains_seq(n, "synopsis"@) || contains_seq(c, "# summary"@) || contains_seq(
        c,
        "## summary"@,
    ) || contains_seq(c, "# overview"@) || contains_seq(c, "# recap"@) || contains_seq(
        c,
        "in conclusion"@,
    ) || contains_seq(c, "executive summary"@) || contains_seq(c, "project summary"@)
}

/// The document kind for a lowered name and lowered content: the first of
/// rubric, report, guide and summary whose signal matches, else the shell
/// extension fallback, else unknown.
pub open spec fn classify_spec(n: Seq<char>, c: Seq<char>) -> DocumentKind {
    if rubric_signal(n, c) {
        DocumentKind::Rubric
    } else if report_signal(n, c) {
        DocumentKind::Report
    } else if guide_signal(n, c) {
        DocumentKind::Guide
    } else if summary_signal(n, c) {
        DocumentKind::Summary
    } else if ends_with_seq(n, ".sh"@) {
        DocumentKind::Script
    } else {
        DocumentKind::Unknown
    }
}

/// Classifies a name and content that are already lowercase.
pub fn classify_lowered(name_l: &str, content_l: &str) -> (k: DocumentKind)
    ensures
        k == classify_spec(name_l@, content_l@),
{
    if contains_str(name_l, "rubric") || contains_str(content_l, "# rubric") || contains_str(
        content_l,
        "rubric for",
    ) || contains_str(content_l, "evaluation rubric") || contains_str(
        content_l,
        "assessment criteria",
    ) || contains_str(content_l, "scoring guide") {
        return DocumentKind::Rubric;
    }
    if contains_str(name_l, "report") || contains_str(name_l, "complete") || contains_str(
        name_l,
        "status",
    ) || contains_str(name_l, "analysis") || contains_str(name_l, "assessment") || contains_str(
        content_l,
        "# report",
    ) || contains_str(content_l, "# completion") || contains_str(content_l, "# status")
        || contains_str(content_l, "# analysis") || contains_str(content_l, "task completion")
        || contains_str(content_l, "completion report") || contains_str(
        content_l,
        "status update",
    ) {
        return DocumentKind::Report;
    }
    if contains_str(name_l, "guide") || contains_str(name_l, "how_to") || contains_str(
        name_l,
        "howto",
    ) || contains_str(name_l, "manual") || contains_str(name_l, "tutorial") || contains_str(
        name_l,
        "instructions",
    ) || contains_str(content_l, "# guide") || contains_str(content_l, "# how to")
        || contains_str(content_l, "step by step") || contains_str(content_l, "# tutorial")
        || contains_str(content_l, "# instructions") || contains_str(content_l, "how to use")
        || contains_str(content_l, "usage instructions") {
        return DocumentKind::Guide;
    }
    if contains_str(name_l, "summary") || contains_str(name_l, "overview") || contains_str(
        name_l,
        "recap",
    ) || contains_str(name_l, "synopsis") || contains_str(content_l, "# summary")
        || contains_str(content_l, "## summary") || contains_str(content_l, "# overview")
        || contains_str(content_l, "# recap") || contains_str(content_l, "in conclusion")
        || contains_str(content_l, "executive summary") || contains_str(
        content_l,
        "project summary",
    ) {
        return DocumentKind::Summary;
    }
    if ends_with_str(name_l, ".sh") {
        return DocumentKind::Script;
    }
    DocumentKind::Unknown
}

/// Classifies a file by its name (with extension) and its content.
pub fn classify(name: &str, content: &str) -> (k: DocumentKind)
    ensures
        k == classify_spec(lower_spec(name@), lower_spec(content@)),
{
    let name_l = lowercase(name);
    let content_l = lowercase(content);
    classify_lowered(name_l.as_str(), content_l.as_str())
}

/// Classification is a pure function of the name and the content: two calls
/// on equal inputs yield the same kind, independent of call order.
pub proof fn lemma_classify_deterministic(
    n1: Seq<char>,
    c1: Seq<char>,
    n2: Seq<char>,
    c2: Seq<char>,
)
    requires
        n1 == n2,
        c1 == c2,
    ensures
        classify_spec(lower_spec(n1), lower_spec(c1)) == classify_spec(
            lower_spec(n2),
            lower_spec(c2),
        ),
{
}

/// A name with the shell extension never classifies as unknown: it is a
/// script unless one of the higher-priority name or content rules matches
/// first, in which case that rule's kind wins.
pub proof fn lemma_shell_extension_is_script(n: Seq<char>, c: Seq<char>)
    requires
        ends_with_seq(n, ".sh"@),
    ensures
        classify_spec(n, c) != DocumentKind::Unknown,
        (classify_spec(n, c) == DocumentKind::Script <==> !(rubric_signal(n, c) || report_signal(
            n,
            c,
        ) || guide_signal(n, c) || summary_signal(n, c))),
{
}

} // verus!
