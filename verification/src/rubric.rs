//! The rubric synthesizer: aggregates keyword frequencies and file-type
//! presence across the kept records into a generated evaluation document.
//! Equal-frequency keywords are ordered by first appearance, a fixed,
//! deterministic secondary key.

use crate::fold::{alnum_spec, is_alnum_char, lower_spec, lowercase};
use crate::record::FileRecord;
use crate::FileType;
use vstd::prelude::*;

verus! {

/// A keyword-forming character: alphanumeric or underscore.
pub open spec fn is_word_char(c: char) -> bool {
    alnum_spec(c) || c == '_'
}

/// Decides whether a character can form a keyword.
fn is_word_char_exec(c: char) -> (b: bool)
    ensures
        b == is_word_char(c),
{
    is_alnum_char(c) || c == '_'
}

/// The maximal keyword-character runs of a sequence, defined by how the run
/// list grows as one character is appended at the end.
pub open spec fn raw_tokens(s: Seq<char>) -> Seq<Seq<char>>
    decreases s.len(),
{
    if s.len() == 0 {
        Seq::<Seq<char>>::empty()
    } else {
        let prev = raw_tokens(s.drop_last());
        let c = s.last();
        if !is_word_char(c) {
            prev
        } else if s.len() >= 2 && is_word_char(s[s.len() - 2]) && prev.len() > 0 {
            prev.update(prev.len() - 1, prev.last().push(c))
        } else {
            prev.push(seq![c])
        }
    }
}

/// The tokens that count as keywords: runs of more than three characters,
/// lowercased.
pub open spec fn select_keywords(ts: Seq<Seq<char>>) -> Seq<Seq<char>>
    decreases ts.len(),
{
    if ts.len() == 0 {
        Seq::<Seq<char>>::empty()
    } else {
        let front = select_keywords(ts.drop_last());
        if ts.last().len() > 3 {
            front.push(lower_spec(ts.last()))
        } else {
            front
        }
    }
}

/// The keywords of one record body.
pub open spec fn keywords_of(s: Seq<char>) -> Seq<Seq<char>> {
    select_keywords(raw_tokens(s))
}

/// The views of a list of owned strings.
pub open spec fn views_of(v: Seq<String>) -> Seq<Seq<char>> {
    v.map(|i: int, s: String| s@)
}

/// Extracts the keywords of one body: maximal alphanumeric-or-underscore
/// runs longer than three characters, lowercased, in order of appearance.
pub fn keywords_str(s: &str) -> (r: Vec<String>)
    ensures
        views_of(r@) == keywords_of(s@),
{
    let n: usize = s.unicode_len();
    let mut out: Vec<String> = Vec::new();
    let mut cur = String::new();
    let ghost mut done: Seq<Seq<char>> = Seq::empty();
    let mut i: usize = 0;
    while i < n
        invariant
            n == s@.len(),
            0 <= i <= n,
            cur@.len() == 0 ==> raw_tokens(s@.take(i as int)) == done,
            cur@.len() > 0 ==> raw_tokens(s@.take(i as int)) == done.push(cur@),
            i > 0 ==> (is_word_char(s@[i as int - 1]) <==> cur@.len() > 0),
            i == 0 ==> cur@.len() == 0,
            views_of(out@) == select_keywords(done),
        decreases n - i,
    {
        let c = s.get_char(i);
        let w = is_word_char_exec(c);
        proof {
            assert(s@.take(i as int + 1).drop_last() =~= s@.take(i as int));
            assert(s@.take(i as int + 1).last() == s@[i as int]);
        }
        if w {
            let ghost cur0 = cur@;
            crate::fold::push_char(&mut cur, c);
            proof {
                if cur0.len() > 0 {
                    assert(raw_tokens(s@.take(i as int + 1)) == done.push(cur0).update(
                        done.len() as int,
                        cur0.push(c),
                    ));
                    assert(done.push(cur0).update(done.len() as int, cur0.push(c)) =~= done.push(
                        cur0.push(c),
                    ));
                } else {
                    assert(raw_tokens(s@.take(i as int + 1)) == done.push(seq![c]));
                    assert(cur0.push(c) =~= seq![c]);
                }
            }
        } else {
            if cur.unicode_len() > 3 {
                let low = lowercase(cur.as_str());
                let ghost out0 = views_of(out@);
                out.push(low);
                proof {
                    assert(views_of(out@) =~= out0.push(lower_spec(cur@)));
                }
            }
            proof {
                if cur@.len() > 0 {
                    assert(select_keywords(done.push(cur@)) == if cur@.len() > 3 {
                        select_keywords(done).push(lower_spec(cur@))
                    } else {
                        select_keywords(done)
                    }) by {
                        assert(done.push(cur@).drop_last() =~= done);
                    }
                    done = done.push(cur@);
                }
            }
            cur = String::new();
        }
        i += 1;
    }
    if cur.unicode_len() > 3 {
        let low = lowercase(cur.as_str());
        let ghost out0 = views_of(out@);
        out.push(low);
        proof {
            assert(views_of(out@) =~= out0.push(lower_spec(cur@)));
        }
    }
    proof {
        assert(s@.take(n as int) =~= s@);
        if cur@.len() > 0 {
            assert(select_keywords(done.push(cur@)) == if cur@.len() > 3 {
                select_keywords(done).push(lower_spec(cur@))
            } else {
                select_keywords(done)
            }) by {
                assert(done.push(cur@).drop_last() =~= done);
            }
        }
    }
    out
}

/// The first index holding the key in the frequency table, or -1.
pub open spec fn key_index(tab: Seq<(Seq<char>, int)>, key: Seq<char>) -> int
    decreases tab.len(),
{
    if tab.len() == 0 {
        -1
    } else if tab[0].0 == key {
        0
    } else {
        let r = key_index(tab.drop_first(), key);
        if r < 0 {
            -1
        } else {
            r + 1
        }
    }
}

/// One token counted into the table: a new entry in first-seen position, or
/// the existing entry's count raised by one.
pub open spec fn bump(tab: Seq<(Seq<char>, int)>, key: Seq<char>) -> Seq<(Seq<char>, int)> {
    let k = key_index(tab, key);
    if k < 0 {
        tab.push((key, 1))
    } else {
        tab.update(k, (key, tab[k].1 + 1))
    }
}

/// The keyword frequency table of a token list, keys in first-seen order.
pub open spec fn freq_table(toks: Seq<Seq<char>>) -> Seq<(Seq<char>, int)>
    decreases toks.len(),
{
    if toks.len() == 0 {
        Seq::<(Seq<char>, int)>::empty()
    } else {
        bump(freq_table(toks.drop_last()), toks.last())
    }
}

/// The view of an executable frequency table.
pub open spec fn tab_view(t: Seq<(String, u64)>) -> Seq<(Seq<char>, int)> {
    t.map(|i: int, p: (String, u64)| (p.0@, p.1 as int))
}

proof fn lemma_key_index(tab: Seq<(Seq<char>, int)>, key: Seq<char>)
    ensures
        key_index(tab, key) >= 0 ==> key_index(tab, key) < tab.len() && tab[key_index(
            tab,
            key,
        )].0 == key && forall|j: int| 0 <= j < key_index(tab, key) ==> (#[trigger] tab[j].0)
            != key,
        key_index(tab, key) < 0 ==> forall|j: int|
            0 <= j < tab.len() ==> (#[trigger] tab[j].0) != key,
    decreases tab.len(),
{
    if tab.len() > 0 && tab[0].0 != key {
        let d = tab.drop_first();
        lemma_key_index(d, key);
        assert(forall|j: int| 0 <= j < d.len() ==> #[trigger] d[j] == tab[j + 1]);
        let r = key_index(d, key);
        if r >= 0 {
            assert(key_index(tab, key) == r + 1);
            assert(tab[r + 1].0 == d[r].0);
            assert forall|j: int| 0 <= j < r + 1 implies (#[trigger] tab[j].0) != key by {
                if j > 0 {
                    assert(d[j - 1].0 != key);
                    assert(tab[j] == d[j - 1]);
                }
            }
        } else {
            assert forall|j: int| 0 <= j < tab.len() implies (#[trigger] tab[j].0) != key by {
                if j > 0 {
                    assert(d[j - 1].0 != key);
                    assert(tab[j] == d[j - 1]);
                }
            }
        }
    }
}

/// Every count in the frequency table lies between one and the number of
/// tokens counted, and the table has no more entries than tokens.
proof fn lemma_freq_table_bounds(toks: Seq<Seq<char>>)
    ensures
        freq_table(toks).len() <= toks.len(),
        forall|k: int|
            0 <= k < freq_table(toks).len() ==> 1 <= (#[trigger] freq_table(toks)[k]).1
                <= toks.len(),
    decreases toks.len(),
{
    if toks.len() > 0 {
        lemma_freq_table_bounds(toks.drop_last());
        let prev = freq_table(toks.drop_last());
        let key = toks.last();
        lemma_key_index(prev, key);
        let k = key_index(prev, key);
        if k < 0 {
            assert(freq_table(toks) == prev.push((key, 1)));
        } else {
            assert(freq_table(toks) == prev.update(k, (key, prev[k].1 + 1)));
        }
    }
}

/// Finds the entry holding the key, scanning from the front.
fn find_entry(tab: &Vec<(String, u64)>, key: &String) -> (r: Option<usize>)
    ensures
        match r {
            Option::Some(j) => (j as int) < tab@.len() && tab@[j as int].0@ == key@ && forall|
                q: int,
            | 0 <= q < j ==> (#[trigger] tab@[q].0)@ != key@,
            Option::None => forall|q: int| 0 <= q < tab@.len() ==> (#[trigger] tab@[q].0)@ != key@,
        },
{
    let m: usize = tab.len();
    let mut j: usize = 0;
    while j < m
        invariant
            m == tab@.len(),
            0 <= j <= m,
            forall|q: int| 0 <= q < j ==> (#[trigger] tab@[q].0)@ != key@,
        decreases m - j,
    {
        if tab[j].0 == *key {
            return Option::Some(j);
        }
        j += 1;
    }
    Option::None
}

/// Counts the tokens into a frequency table, keys in first-seen order.
pub fn count_tokens(toks: &Vec<String>) -> (tab: Vec<(String, u64)>)
    ensures
        tab_view(tab@) == freq_table(views_of(toks@)),
{
    let n: usize = toks.len();
    let mut tab: Vec<(String, u64)> = Vec::new();
    let mut i: usize = 0;
    while i < n
        invariant
            n == toks@.len(),
            0 <= i <= n,
            tab_view(tab@) == freq_table(views_of(toks@).take(i as int)),
        decreases n - i,
    {
        proof {
            assert(views_of(toks@).take(i as int + 1).drop_last() =~= views_of(toks@).take(
                i as int,
            ));
            assert(views_of(toks@).take(i as int + 1).last() == toks@[i as int]@);
            lemma_key_index(tab_view(tab@), toks@[i as int]@);
            lemma_freq_table_bounds(views_of(toks@).take(i as int));
        }
        let ghost tv = tab_view(tab@);
        let ghost key = toks@[i as int]@;
        let hit = find_entry(&tab, &toks[i]);
        if let Option::Some(j) = hit {
            proof {
                assert(key_index(tv, key) == j as int) by {
                    assert(tv[j as int].0 == key);
                    if key_index(tv, key) < 0 {
                        assert(tv[j as int].0 != key);
                    } else if key_index(tv, key) < j as int {
                        assert(tab@[key_index(tv, key)].0@ != key);
                        assert(tv[key_index(tv, key)].0 == key);
                    } else if key_index(tv, key) > j as int {
                        assert(tab@[j as int].0@ != key);
                    }
                }
                assert(1 <= tv[j as int].1 <= i as int);
            }
            let key_clone = tab[j].0.clone();
            let c0: u64 = tab[j].1;
            tab.set(j, (key_clone, c0 + 1));
            proof {
                assert(tab_view(tab@) =~= tv.update(j as int, (key, c0 as int + 1)));
            }
        } else {
            proof {
                assert(key_index(tv, key) < 0) by {
                    if key_index(tv, key) >= 0 {
                        assert(tab@[key_index(tv, key)].0@ != key);
                        assert(tv[key_index(tv, key)].0 == key);
                    }
                }
            }
            let key_clone = toks[i].clone();
            tab.push((key_clone, 1));
            proof {
                assert(tab_view(tab@) =~= tv.push((key, 1)));
            }
        }
        i += 1;
    }
    proof {
        assert(views_of(toks@).take(n as int) =~= views_of(toks@));
    }
    tab
}

/// The index of the entry with the highest count, the earliest on a tie.
pub open spec fn best_idx(tab: Seq<(Seq<char>, int)>) -> int
    decreases tab.len(),
{
    if tab.len() <= 1 {
        0
    } else {
        let r = 1 + best_idx(tab.drop_first());
        if tab[0].1 >= tab[r].1 {
            0
        } else {
            r
        }
    }
}

proof fn lemma_best_idx(tab: Seq<(Seq<char>, int)>)
    requires
        tab.len() > 0,
    ensures
        0 <= best_idx(tab) < tab.len(),
        forall|j: int| 0 <= j < tab.len() ==> (#[trigger] tab[j]).1 <= tab[best_idx(tab)].1,
        forall|j: int|
            0 <= j < tab.len() && (#[trigger] tab[j]).1 == tab[best_idx(tab)].1 ==> best_idx(tab)
                <= j,
    decreases tab.len(),
{
    if tab.len() > 1 {
        let d = tab.drop_first();
        lemma_best_idx(d);
        assert(forall|j: int| 0 <= j < d.len() ==> #[trigger] d[j] == tab[j + 1]);
        let r = 1 + best_idx(d);
        assert(tab[r] == d[r - 1]);
        let b = best_idx(tab);
        assert forall|j: int| 0 <= j < tab.len() implies (#[trigger] tab[j]).1 <= tab[b].1 by {
            if j > 0 {
                assert(tab[j] == d[j - 1]);
                assert(d[j - 1].1 <= d[best_idx(d)].1);
            }
        }
        assert forall|j: int|
            0 <= j < tab.len() && (#[trigger] tab[j]).1 == tab[b].1 implies b <= j by {
            if j > 0 && b > 0 {
                assert(tab[j] == d[j - 1]);
                assert(d[j - 1].1 == d[best_idx(d)].1 ==> best_idx(d) <= j - 1);
            }
        }
    }
}

/// The highest-count keywords of the table, at most `k` of them, with equal
/// counts ordered by first appearance.
pub open spec fn top_keywords(tab: Seq<(Seq<char>, int)>, k: nat) -> Seq<Seq<char>>
    decreases k,
{
    if k == 0 || tab.len() == 0 {
        Seq::<Seq<char>>::empty()
    } else {
        let b = best_idx(tab);
        seq![tab[b].0] + top_keywords(tab.remove(b), (k - 1) as nat)
    }
}

/// Selects the highest-count keywords from the table, at most `k` of them.
pub fn select_top_keywords(tab: Vec<(String, u64)>, k: usize) -> (r: Vec<String>)
    ensures
        views_of(r@) == top_keywords(tab_view(tab@), k as nat),
{
    let ghost tab0 = tab_view(tab@);
    let mut work = tab;
    let mut out: Vec<String> = Vec::new();
    let mut remaining: usize = k;
    while remaining > 0 && work.len() > 0
        invariant
            views_of(out@) + top_keywords(tab_view(work@), remaining as nat) == top_keywords(
                tab0,
                k as nat,
            ),
        decreases remaining,
    {
        let m: usize = work.len();
        let mut b: usize = 0;
        let mut j: usize = 1;
        while j < m
            invariant
                m == work@.len(),
                m > 0,
                0 <= b < j <= m,
                forall|q: int| 0 <= q < j ==> (#[trigger] work@[q]).1 <= work@[b as int].1,
                forall|q: int|
                    0 <= q < j && (#[trigger] work@[q]).1 == work@[b as int].1 ==> b as int <= q,
            decreases m - j,
        {
            if work[j].1 > work[b].1 {
                b = j;
            }
            j += 1;
        }
        let ghost wv = tab_view(work@);
        proof {
            lemma_best_idx(wv);
            assert(wv[b as int].1 == work@[b as int].1 as int);
            assert(best_idx(wv) == b as int) by {
                let bb = best_idx(wv);
                assert(work@[bb].1 as int == wv[bb].1);
                assert(wv[b as int].1 <= wv[bb].1);
                assert(work@[bb].1 <= work@[b as int].1);
            }
        }
        let entry = work.remove(b);
        let ghost out0 = views_of(out@);
        out.push(entry.0);
        remaining -= 1;
        proof {
            assert(tab_view(work@) =~= wv.remove(b as int));
            assert(views_of(out@) =~= out0.push(entry.0@));
            assert(top_keywords(wv, (remaining + 1) as nat) == seq![wv[b as int].0]
                + top_keywords(wv.remove(b as int), remaining as nat));
            assert(out0.push(entry.0@) + top_keywords(wv.remove(b as int), remaining as nat)
                =~= out0 + (seq![wv[b as int].0] + top_keywords(
                wv.remove(b as int),
                remaining as nat,
            )));
        }
    }
    proof {
        assert(top_keywords(tab_view(work@), remaining as nat) =~= Seq::<Seq<char>>::empty());
        assert(views_of(out@) + Seq::<Seq<char>>::empty() =~= views_of(out@));
    }
    out
}

/// The keywords of every record body, in record order.
pub open spec fn all_tokens(recs: Seq<FileRecord>) -> Seq<Seq<char>>
    decreases recs.len(),
{
    if recs.len() == 0 {
        Seq::<Seq<char>>::empty()
    } else {
        all_tokens(recs.drop_last()) + keywords_of(recs.last().content@)
    }
}

/// Some record is a Markdown file.
pub open spec fn has_markdown(recs: Seq<FileRecord>) -> bool {
    exists|j: int| 0 <= j < recs.len() && (#[trigger] recs[j].file_type) == FileType::Markdown
}

/// Some record is a shell file.
pub open spec fn has_shell(recs: Seq<FileRecord>) -> bool {
    exists|j: int| 0 <= j < recs.len() && (#[trigger] recs[j].file_type) == FileType::Shell
}

/// Collects the keywords of every record body, in record order.
fn collect_tokens(records: &Vec<FileRecord>) -> (r: Vec<String>)
    ensures
        views_of(r@) == all_tokens(records@),
{
    let n: usize = records.len();
    let mut out: Vec<String> = Vec::new();
    let mut i: usize = 0;
    while i < n
        invariant
            n == records@.len(),
            0 <= i <= n,
            views_of(out@) == all_tokens(records@.take(i as int)),
        decreases n - i,
    {
        let mut toks = keywords_str(records[i].content.as_str());
        let ghost out0 = views_of(out@);
        let ghost tv = views_of(toks@);
        out.append(&mut toks);
        proof {
            assert(views_of(out@) =~= out0 + tv);
            assert(records@.take(i as int + 1).drop_last() =~= records@.take(i as int));
            assert(records@.take(i as int + 1).last() == records@[i as int]);
        }
        i += 1;
    }
    proof {
        assert(records@.take(n as int) =~= records@);
    }
    out
}

/// Whether any record has the given file type.
fn scan_file_type(records: &Vec<FileRecord>, t: FileType) -> (r: bool)
    ensures
        r == exists|j: int|
            0 <= j < records@.len() && (#[trigger] records@[j].file_type) == t,
{
    let n: usize = records.len();
    let mut i: usize = 0;
    while i < n
        invariant
            n == records@.len(),
            0 <= i <= n,
            forall|j: int| 0 <= j < i ==> (#[trigger] records@[j].file_type) != t,
        decreases n - i,
    {
        if records[i].file_type == t {
            return true;
        }
        i += 1;
    }
    false
}

/// The keyword bullet list, one line per keyword.
pub open spec fn bullet_list(kws: Seq<Seq<char>>) -> Seq<char>
    decreases kws.len(),
{
    if kws.len() == 0 {
        Seq::<char>::empty()
    } else {
        bullet_list(kws.drop_last()) + "- "@ + kws.last() + "\n"@
    }
}

/// The generated evaluation document for the kept records and a date line.
///
/// The section structure is fixed; the key-terms list holds the fifteen
/// highest-frequency keywords across all kept bodies, and the two criteria
/// tables appear exactly when a Markdown or a shell record was kept.
pub open spec fn rubric_doc_spec(recs: Seq<FileRecord>, date: Seq<char>) -> Seq<char> {
    "# Comprehensive Project Rubric\n\n*Generated by Maid - AI-generated file organizer*\n\n## Overview\n\nThis rubric is automatically generated based on the analysis of project documentation and scripts.\n\nGenerated on: "@
        + date
        + "\n\n## Key Project Components\n\n### Key Terms\n\n"@
        + bullet_list(top_keywords(freq_table(all_tokens(recs)), 15))
        + "\n## Evaluation Criteria\n\n"@
        + (if has_markdown(recs) {
            "### Documentation Quality\n\n| Criterion | Poor | Satisfactory | Excellent |\n|-----------|------|--------------|----------|\n| Completeness | Documentation missing key components | Most features documented | Comprehensive documentation of all features |\n| Clarity | Confusing or unclear | Generally clear with some issues | Clear, concise, and well-organized |\n| Examples | Few or no examples | Some examples provided | Rich examples covering typical use cases |\n\n"@
        } else {
            Seq::<char>::empty()
        })
        + (if has_shell(recs) {
            "### Script Quality\n\n| Criterion | Poor | Satisfactory | Excellent |\n|-----------|------|--------------|----------|\n| Functionality | Scripts fail to accomplish tasks | Scripts work but have limitations | Scripts work flawlessly for all use cases |\n| Readability | Poorly commented and structured | Adequate comments and structure | Well-commented, clear structure |\n| Error Handling | Little or no error handling | Basic error handling | Comprehensive error handling with helpful messages |\n\n"@
        } else {
            Seq::<char>::empty()
        })
        + "## Note on Documentation Management\n\nResearch has shown that having too many redundant documentation files can lead to confusion and AI hallucinations when used as reference material. This rubric is generated as part of an effort to consolidate and organize project documentation.\n\n### References\n\n- Hallucination in Large Language Models: [https://arxiv.org/abs/2309.01219](https://arxiv.org/abs/2309.01219)\n- The Impact of Contradictory Data on AI Training: [https://www.nature.com/articles/s41467-023-42879-y](https://www.nature.com/articles/s41467-023-42879-y)\n"@
}

/// Generates the evaluation document for the kept records, dated with the
/// current local date; gives back the date line that was used.
pub fn generate_rubric_now(records: &Vec<FileRecord>) -> (r: (String, String))
    ensures
        r.0@ == rubric_doc_spec(records@, r.1@),
{
    let date = crate::clock::current_date_string();
    let doc = generate_rubric(records, date.as_str());
    (doc, date)
}

/// Generates the evaluation document for the kept records, dated with the
/// given date line.
pub fn generate_rubric(records: &Vec<FileRecord>, date: &str) -> (r: String)
    ensures
        r@ == rubric_doc_spec(records@, date@),
{
    let tokens = collect_tokens(records);
    let table = count_tokens(&tokens);
    let top = select_top_keywords(table, 15);
    let has_docs = scan_file_type(records, FileType::Markdown);
    let has_scripts = scan_file_type(records, FileType::Shell);
    let mut out = String::from_str(
        "# Comprehensive Project Rubric\n\n*Generated by Maid - AI-generated file organizer*\n\n## Overview\n\nThis rubric is automatically generated based on the analysis of project documentation and scripts.\n\nGenerated on: ",
    );
    out.append(date);
    out.append("\n\n## Key Project Components\n\n### Key Terms\n\n");
    let ghost before_bullets = out@;
    let ghost kws = views_of(top@);
    let m: usize = top.len();
    let mut i: usize = 0;
    while i < m
        invariant
            m == top@.len(),
            0 <= i <= m,
            kws == views_of(top@),
            out@ =~= before_bullets + bullet_list(kws.take(i as int)),
        decreases m - i,
    {
        out.append("- ");
        out.append(top[i].as_str());
        out.append("\n");
        proof {
            assert(kws.take(i as int + 1).drop_last() =~= kws.take(i as int));
            assert(kws.take(i as int + 1).last() == top@[i as int]@);
            assert(out@ =~= before_bullets + bullet_list(kws.take(i as int + 1)));
        }
        i += 1;
    }
    proof {
        assert(kws.take(m as int) =~= kws);
    }
    out.append("\n## Evaluation Criteria\n\n");
    let ghost before_tables = out@;
    if has_docs {
        out.append(
            "### Documentation Quality\n\n| Criterion | Poor | Satisfactory | Excellent |\n|-----------|------|--------------|----------|\n| Completeness | Documentation missing key components | Most features documented | Comprehensive documentation of all features |\n| Clarity | Confusing or unclear | Generally clear with some issues | Clear, concise, and well-organized |\n| Examples | Few or no examples | Some examples provided | Rich examples covering typical use cases |\n\n",
        );
    }
    proof {
        assert(out@ =~= before_tables + (if has_markdown(records@) {
            "### Documentation Quality\n\n| Criterion | Poor | Satisfactory | Excellent |\n|-----------|------|--------------|----------|\n| Completeness | Documentation missing key components | Most features documented | Comprehensive documentation of all features |\n| Clarity | Confusing or unclear | Generally clear with some issues | Clear, concise, and well-organized |\n| Examples | Few or no examples | Some examples provided | Rich examples covering typical use cases |\n\n"@
        } else {
            Seq::<char>::empty()
        }));
    }
    let ghost before_script_table = out@;
    if has_scripts {
        out.append(
            "### Script Quality\n\n| Criterion | Poor | Satisfactory | Excellent |\n|-----------|------|--------------|----------|\n| Functionality | Scripts fail to accomplish tasks | Scripts work but have limitations | Scripts work flawlessly for all use cases |\n| Readability | Poorly commented and structured | Adequate comments and structure | Well-commented, clear structure |\n| Error Handling | Little or no error handling | Basic error handling | Comprehensive error handling with helpful messages |\n\n",
        );
    }
    proof {
        assert(out@ =~= before_script_table + (if has_shell(records@) {
            "### Script Quality\n\n| Criterion | Poor | Satisfactory | Excellent |\n|-----------|------|--------------|----------|\n| Functionality | Scripts fail to accomplish tasks | Scripts work but have limitations | Scripts work flawlessly for all use cases |\n| Readability | Poorly commented and structured | Adequate comments and structure | Well-commented, clear structure |\n| Error Handling | Little or no error handling | Basic error handling | Comprehensive error handling with helpful messages |\n\n"@
        } else {
            Seq::<char>::empty()
        }));
    }
    out.append(
        "## Note on Documentation Management\n\nResearch has shown that having too many redundant documentation files can lead to confusion and AI hallucinations when used as reference material. This rubric is generated as part of an effort to consolidate and organize project documentation.\n\n### References\n\n- Hallucination in Large Language Models: [https://arxiv.org/abs/2309.01219](https://arxiv.org/abs/2309.01219)\n- The Impact of Contradictory Data on AI Training: [https://www.nature.com/articles/s41467-023-42879-y](https://www.nature.com/articles/s41467-023-42879-y)\n",
    );
    proof {
        assert(out@ =~= rubric_doc_spec(records@, date@));
    }
    out
}

} // verus!
