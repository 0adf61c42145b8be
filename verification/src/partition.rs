//! The redundancy resolver: splits a record set into the records to keep
//! and the records to discard, by a document-kind-specific retention
//! policy. The comparison of script bodies is quadratic in the size of the
//! script group; that is accepted here, since groups are expected to stay
//! small, and the duplicate-detection semantics must not be traded away for
//! speed.

use crate::record::FileRecord;
use crate::text::{count_words, eq_str, trim_spec, trim_str, word_count};
use crate::DocumentKind;
use vstd::prelude::*;

verus! {

/// The ordering key of an optional creation time: absence sorts as older
/// than any present timestamp.
pub open spec fn time_key(t: Option<i64>) -> int {
    match t {
        Option::Some(v) => v as int,
        Option::None => (i64::MIN as int) - 1,
    }
}

/// Record `i` exists and has document kind `k`.
pub open spec fn is_kind(recs: Seq<FileRecord>, i: int, k: DocumentKind) -> bool {
    0 <= i < recs.len() && recs[i].doc_kind == k
}

/// Record `i` is the surviving rubric: the one with the highest
/// whitespace-delimited word count, the earliest on a tie.
pub open spec fn best_rubric(recs: Seq<FileRecord>, i: int) -> bool {
    is_kind(recs, i, DocumentKind::Rubric) && (forall|j: int|
        #[trigger] is_kind(recs, j, DocumentKind::Rubric) ==> word_count(recs[j].content@)
            <= word_count(recs[i].content@)) && (forall|j: int|
        #[trigger] is_kind(recs, j, DocumentKind::Rubric) && word_count(recs[j].content@)
            == word_count(recs[i].content@) ==> i <= j)
}

/// Record `i` is the surviving record of kind `k` by creation time: the
/// newest, the earliest on a tie, with an absent timestamp oldest.
pub open spec fn best_by_time(recs: Seq<FileRecord>, i: int, k: DocumentKind) -> bool {
    is_kind(recs, i, k) && (forall|j: int|
        #[trigger] is_kind(recs, j, k) ==> time_key(recs[j].created_at) <= time_key(
            recs[i].created_at,
        )) && (forall|j: int|
        #[trigger] is_kind(recs, j, k) && time_key(recs[j].created_at) == time_key(
            recs[i].created_at,
        ) ==> i <= j)
}

/// An earlier script whose trimmed content equals that of record `i` stands
/// somewhere before position `m`.
pub open spec fn script_dup_before(recs: Seq<FileRecord>, i: int, m: int) -> bool {
    exists|j: int|
        #[trigger] is_kind(recs, j, DocumentKind::Script) && j < m && trim_spec(recs[j].content@)
            == trim_spec(recs[i].content@)
}

/// The retention policy: whether record `i` survives.
///
/// Unknown records and guides are always kept; of the rubrics only the
/// wordiest survives, of the reports and the summaries only the newest; a
/// script survives unless an earlier script has the same trimmed content.
pub open spec fn kept_spec(recs: Seq<FileRecord>, i: int) -> bool {
    match recs[i].doc_kind {
        DocumentKind::Unknown => true,
        DocumentKind::Guide => true,
        DocumentKind::Rubric => best_rubric(recs, i),
        DocumentKind::Report => best_by_time(recs, i, DocumentKind::Report),
        DocumentKind::Summary => best_by_time(recs, i, DocumentKind::Summary),
        DocumentKind::Script => !script_dup_before(recs, i, i),
    }
}

/// Whether `a` is strictly newer than `b`, with absence oldest.
fn newer_time(a: Option<i64>, b: Option<i64>) -> (r: bool)
    ensures
        r == (time_key(a) > time_key(b)),
{
    match (a, b) {
        (Option::Some(x), Option::Some(y)) => x > y,
        (Option::Some(_), Option::None) => true,
        _ => false,
    }
}

/// Finds the surviving rubric, if any rubric exists.
fn best_rubric_index(records: &Vec<FileRecord>) -> (r: Option<usize>)
    ensures
        match r {
            Option::Some(b) => best_rubric(records@, b as int),
            Option::None => forall|j: int| !is_kind(records@, j, DocumentKind::Rubric),
        },
{
    let n: usize = records.len();
    let mut best: Option<usize> = Option::None;
    let mut best_wc: usize = 0;
    let mut i: usize = 0;
    while i < n
        invariant
            n == records@.len(),
            0 <= i <= n,
            match best {
                Option::Some(b) => b < i && is_kind(records@, b as int, DocumentKind::Rubric)
                    && best_wc == word_count(records@[b as int].content@) && (forall|j: int|
                    #[trigger] is_kind(records@, j, DocumentKind::Rubric) && j < i ==> word_count(
                        records@[j].content@,
                    ) <= best_wc) && (forall|j: int|
                    #[trigger] is_kind(records@, j, DocumentKind::Rubric) && j < i && word_count(
                        records@[j].content@,
                    ) == best_wc ==> b <= j),
                Option::None => forall|j: int|
                    !(#[trigger] is_kind(records@, j, DocumentKind::Rubric) && j < i),
            },
        decreases n - i,
    {
        if records[i].doc_kind == DocumentKind::Rubric {
            let wc = count_words(records[i].content.as_str());
            match best {
                Option::None => {
                    best = Option::Some(i);
                    best_wc = wc;
                },
                Option::Some(_) => {
                    if wc > best_wc {
                        best = Option::Some(i);
                        best_wc = wc;
                    }
                },
            }
        }
        i += 1;
    }
    best
}

/// Finds the surviving record of kind `k` by creation time, if any exists.
fn best_time_index(records: &Vec<FileRecord>, k: DocumentKind) -> (r: Option<usize>)
    ensures
        match r {
            Option::Some(b) => best_by_time(records@, b as int, k),
            Option::None => forall|j: int| !is_kind(records@, j, k),
        },
{
    let n: usize = records.len();
    let mut best: Option<usize> = Option::None;
    let mut i: usize = 0;
    while i < n
        invariant
            n == records@.len(),
            0 <= i <= n,
            match best {
                Option::Some(b) => b < i && is_kind(records@, b as int, k) && (forall|j: int|
                    #[trigger] is_kind(records@, j, k) && j < i ==> time_key(
                        records@[j].created_at,
                    ) <= time_key(records@[b as int].created_at)) && (forall|j: int|
                    #[trigger] is_kind(records@, j, k) && j < i && time_key(
                        records@[j].created_at,
                    ) == time_key(records@[b as int].created_at) ==> b <= j),
                Option::None => forall|j: int| !(#[trigger] is_kind(records@, j, k) && j < i),
            },
        decreases n - i,
    {
        if records[i].doc_kind == k {
            match best {
                Option::None => {
                    best = Option::Some(i);
                },
                Option::Some(b) => {
                    if newer_time(records[i].created_at, records[b].created_at) {
                        best = Option::Some(i);
                    }
                },
            }
        }
        i += 1;
    }
    best
}

/// Whether an earlier script duplicates record `i`'s trimmed content.
fn has_earlier_duplicate(records: &Vec<FileRecord>, i: usize) -> (r: bool)
    requires
        (i as int) < records@.len(),
    ensures
        r == script_dup_before(records@, i as int, i as int),
{
    let trimmed_i = trim_str(records[i].content.as_str());
    let mut j: usize = 0;
    let mut found: bool = false;
    while j < i
        invariant
            (i as int) < records@.len(),
            0 <= j <= i,
            trimmed_i@ == trim_spec(records@[i as int].content@),
            found == script_dup_before(records@, i as int, j as int),
        decreases i - j,
    {
        if records[j].doc_kind == DocumentKind::Script {
            let trimmed_j = trim_str(records[j].content.as_str());
            if eq_str(trimmed_j, trimmed_i) {
                proof {
                    assert(is_kind(records@, j as int, DocumentKind::Script));
                }
                found = true;
            }
        }
        proof {
            if script_dup_before(records@, i as int, j as int) {
                assert(script_dup_before(records@, i as int, j as int + 1));
            }
        }
        j += 1;
    }
    found
}

/// The keep/discard split of a record set, as positions into the input.
pub struct Partition {
    pub keep: Vec<usize>,
    pub discard: Vec<usize>,
}

/// Splits the record set into kept and discarded positions.
///
/// Every input position lands in exactly one of the two lists, each list is
/// strictly increasing, and a position is kept exactly when the retention
/// policy says so.
pub fn partition(records: &Vec<FileRecord>) -> (p: Partition)
    ensures
        forall|t: int| 0 <= t < p.keep@.len() ==> (#[trigger] p.keep@[t] as int) < records@.len(),
        forall|t: int|
            0 <= t < p.discard@.len() ==> (#[trigger] p.discard@[t] as int) < records@.len(),
        forall|a: int, b: int| 0 <= a < b < p.keep@.len() ==> p.keep@[a] < p.keep@[b],
        forall|a: int, b: int| 0 <= a < b < p.discard@.len() ==> p.discard@[a] < p.discard@[b],
        forall|i: int|
            0 <= i < records@.len() ==> (p.keep@.contains(i as usize) <==> kept_spec(records@, i)),
        forall|i: int|
            0 <= i < records@.len() ==> (p.discard@.contains(i as usize) <==> !kept_spec(
                records@,
                i,
            )),
{
    let n: usize = records.len();
    let rubric_best = best_rubric_index(records);
    let report_best = best_time_index(records, DocumentKind::Report);
    let summary_best = best_time_index(records, DocumentKind::Summary);
    let mut keep: Vec<usize> = Vec::new();
    let mut discard: Vec<usize> = Vec::new();
    let mut i: usize = 0;
    while i < n
        invariant
            n == records@.len(),
            0 <= i <= n,
            match rubric_best {
                Option::Some(b) => best_rubric(records@, b as int),
                Option::None => forall|j: int| !is_kind(records@, j, DocumentKind::Rubric),
            },
            match report_best {
                Option::Some(b) => best_by_time(records@, b as int, DocumentKind::Report),
                Option::None => forall|j: int| !is_kind(records@, j, DocumentKind::Report),
            },
            match summary_best {
                Option::Some(b) => best_by_time(records@, b as int, DocumentKind::Summary),
                Option::None => forall|j: int| !is_kind(records@, j, DocumentKind::Summary),
            },
            forall|t: int| 0 <= t < keep@.len() ==> (#[trigger] keep@[t] as int) < i,
            forall|t: int| 0 <= t < discard@.len() ==> (#[trigger] discard@[t] as int) < i,
            forall|a: int, b: int| 0 <= a < b < keep@.len() ==> keep@[a] < keep@[b],
            forall|a: int, b: int| 0 <= a < b < discard@.len() ==> discard@[a] < discard@[b],
            forall|t: int|
                0 <= t < i ==> (keep@.contains(t as usize) <==> kept_spec(records@, t)),
            forall|t: int|
                0 <= t < i ==> (discard@.contains(t as usize) <==> !kept_spec(records@, t)),
        decreases n - i,
    {
        let kind = records[i].doc_kind;
        let kept: bool = match kind {
            DocumentKind::Unknown => true,
            DocumentKind::Guide => true,
            DocumentKind::Rubric => {
                match rubric_best {
                    Option::Some(b) => {
                        proof {
                            if best_rubric(records@, i as int) {
                                assert(is_kind(records@, b as int, DocumentKind::Rubric));
                                assert(is_kind(records@, i as int, DocumentKind::Rubric));
                            }
                        }
                        i == b
                    },
                    Option::None => {
                        proof {
                            assert(is_kind(records@, i as int, DocumentKind::Rubric));
                        }
                        false
                    },
                }
            },
            DocumentKind::Report => {
                match report_best {
                    Option::Some(b) => {
                        proof {
                            if best_by_time(records@, i as int, DocumentKind::Report) {
                                assert(is_kind(records@, b as int, DocumentKind::Report));
                                assert(is_kind(records@, i as int, DocumentKind::Report));
                            }
                        }
                        i == b
                    },
                    Option::None => {
                        proof {
                            assert(is_kind(records@, i as int, DocumentKind::Report));
                        }
                        false
                    },
                }
            },
            DocumentKind::Summary => {
                match summary_best {
                    Option::Some(b) => {
                        proof {
                            if best_by_time(records@, i as int, DocumentKind::Summary) {
                                assert(is_kind(records@, b as int, DocumentKind::Summary));
                                assert(is_kind(records@, i as int, DocumentKind::Summary));
                            }
                        }
                        i == b
                    },
                    Option::None => {
                        proof {
                            assert(is_kind(records@, i as int, DocumentKind::Summary));
                        }
                        false
                    },
                }
            },
            DocumentKind::Script => !has_earlier_duplicate(records, i),
        };
        assert(kept == kept_spec(records@, i as int));
        let ghost keep0 = keep@;
        let ghost discard0 = discard@;
        if kept {
            keep.push(i);
        } else {
            discard.push(i);
        }
        proof {
            let pushed = if kept {
                keep0
            } else {
                discard0
            };
            assert forall|v: usize|
                (#[trigger] pushed.push(i as usize).contains(v)) == (pushed.contains(v) || v
                == i as usize) by {
                if pushed.push(i as usize).contains(v) {
                    let k = choose|k: int|
                        0 <= k < pushed.push(i as usize).len() && (#[trigger] pushed.push(
                            i as usize,
                        )[k]) == v;
                    if k < pushed.len() {
                        assert(pushed[k] == v);
                    }
                }
                if pushed.contains(v) {
                    let k = choose|k: int| 0 <= k < pushed.len() && (#[trigger] pushed[k]) == v;
                    assert(pushed.push(i as usize)[k] == v);
                }
                assert(pushed.push(i as usize)[pushed.len() as int] == i as usize);
            }
        }
        i += 1;
    }
    Partition { keep, discard }
}

/// A singleton group is always fully kept: a record that is the only one of
/// its document kind is never discarded, whatever its kind.
pub proof fn lemma_singleton_kept(recs: Seq<FileRecord>, i: int)
    requires
        0 <= i < recs.len(),
        forall|j: int|
            0 <= j < recs.len() && j != i ==> (#[trigger] recs[j].doc_kind) != recs[i].doc_kind,
    ensures
        kept_spec(recs, i),
{
    let k = recs[i].doc_kind;
    assert forall|j: int| #[trigger] is_kind(recs, j, k) implies j == i by {
        if j != i {
            assert(recs[j].doc_kind != recs[i].doc_kind);
        }
    }
    match k {
        DocumentKind::Unknown => {},
        DocumentKind::Guide => {},
        DocumentKind::Rubric => {
            assert(is_kind(recs, i, DocumentKind::Rubric));
        },
        DocumentKind::Report => {
            assert(is_kind(recs, i, DocumentKind::Report));
        },
        DocumentKind::Summary => {
            assert(is_kind(recs, i, DocumentKind::Summary));
        },
        DocumentKind::Script => {
            assert(!script_dup_before(recs, i, i)) by {
                if script_dup_before(recs, i, i) {
                    let j = choose|j: int|
                        #[trigger] is_kind(recs, j, DocumentKind::Script) && j < i && trim_spec(
                            recs[j].content@,
                        ) == trim_spec(recs[i].content@);
                    assert(j == i);
                }
            }
        },
    }
}

/// Script deduplication is order-stable: when the earliest script of a
/// content-duplicate group is itself no duplicate of anything before it, it
/// is kept, and every later script with the same trimmed content is
/// discarded, whatever the order inside the group.
pub proof fn lemma_script_first_wins(recs: Seq<FileRecord>, a: int, b: int)
    requires
        is_kind(recs, a, DocumentKind::Script),
        is_kind(recs, b, DocumentKind::Script),
        a < b,
        trim_spec(recs[a].content@) == trim_spec(recs[b].content@),
        !script_dup_before(recs, a, a),
    ensures
        kept_spec(recs, a),
        !kept_spec(recs, b),
{
    assert(is_kind(recs, a, DocumentKind::Script) && a < b && trim_spec(recs[a].content@)
        == trim_spec(recs[b].content@));
    assert(script_dup_before(recs, b, b));
}

} // verus!
