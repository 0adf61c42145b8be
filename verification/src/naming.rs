//! The name synthesizer: turns a noisy, AI-style base name into a
//! human-readable title. The base name is normalized, matched against a
//! fixed, ordered list of action-word patterns (each successful match
//! overwrites the working title, so the last matching pattern wins),
//! title-cased, prefixed by document kind and given back its extension.

use crate::fold::{lower_spec, lowercase, push_char, upper_chars, upper_first_spec};
use crate::text::{
    all_ascii, ascii_upper, contains_seq, is_ascii_char, is_ws, is_ws_char, join_sp,
    lemma_words_nonempty_last, lemma_words_of_join, lemma_words_wellformed, occurs_at,
    starts_with_seq, trim_spec, trim_str, word_ok, words, words_ok,
};
use crate::{DocumentKind, FileType};
use vstd::prelude::*;

verus! {

/// Underscores and hyphens replaced by spaces.
pub open spec fn dashes_to_spaces(s: Seq<char>) -> Seq<char> {
    s.map(|i: int, c: char| if c == '_' || c == '-' { ' ' } else { c })
}

/// Replaces underscores and hyphens by spaces.
pub fn replace_dashes(s: &str) -> (r: String)
    ensures
        r@ == dashes_to_spaces(s@),
{
    let n: usize = s.unicode_len();
    let mut r = String::new();
    let mut i: usize = 0;
    while i < n
        invariant
            n == s@.len(),
            0 <= i <= n,
            r@ == dashes_to_spaces(s@.take(i as int)),
        decreases n - i,
    {
        let c = s.get_char(i);
        if c == '_' || c == '-' {
            push_char(&mut r, ' ');
        } else {
            push_char(&mut r, c);
        }
        proof {
            assert(dashes_to_spaces(s@.take(i + 1)) =~= dashes_to_spaces(s@.take(i as int)).push(
                if s@[i as int] == '_' || s@[i as int] == '-' {
                    ' '
                } else {
                    s@[i as int]
                },
            ));
        }
        i += 1;
    }
    proof {
        assert(s@.take(n as int) =~= s@);
    }
    r
}

/// The normalized base name: separators replaced by spaces, then lowercased.
pub open spec fn normalized_spec(s: Seq<char>) -> Seq<char> {
    lower_spec(dashes_to_spaces(s))
}

/// Normalizes a base name: separators become spaces, the rest is lowercased.
pub fn normalize_base(s: &str) -> (r: String)
    ensures
        r@ == normalized_spec(s@),
{
    let replaced = replace_dashes(s);
    lowercase(replaced.as_str())
}

/// The index of the leftmost occurrence of `kw` in `s`, or -1 if none.
pub open spec fn first_occ(s: Seq<char>, kw: Seq<char>) -> int
    decreases s.len(),
{
    if starts_with_seq(s, kw) {
        0
    } else if s.len() == 0 {
        -1
    } else {
        let r = first_occ(s.drop_first(), kw);
        if r < 0 {
            -1
        } else {
            r + 1
        }
    }
}

proof fn lemma_occurs_shift(s: Seq<char>, kw: Seq<char>, i: int)
    requires
        s.len() > 0,
        i >= 0,
    ensures
        occurs_at(s, kw, i + 1) == occurs_at(s.drop_first(), kw, i),
{
    if i + 1 + kw.len() <= s.len() {
        assert(s.subrange(i + 1, i + 1 + kw.len()) =~= s.drop_first().subrange(i, i + kw.len()));
    }
}

/// `first_occ` really is the leftmost occurrence, or the sign that there is
/// none.
pub proof fn lemma_first_occ(s: Seq<char>, kw: Seq<char>)
    ensures
        first_occ(s, kw) >= 0 ==> occurs_at(s, kw, first_occ(s, kw)) && forall|q: int|
            0 <= q < first_occ(s, kw) ==> !occurs_at(s, kw, q),
        first_occ(s, kw) < 0 ==> !contains_seq(s, kw),
        first_occ(s, kw) >= 0 ==> first_occ(s, kw) + kw.len() <= s.len(),
    decreases s.len(),
{
    if starts_with_seq(s, kw) {
        assert(s.subrange(0, kw.len() as int) == kw);
        assert(occurs_at(s, kw, 0));
    } else if s.len() == 0 {
        assert forall|q: int| !occurs_at(s, kw, q) by {
            if occurs_at(s, kw, q) {
                assert(starts_with_seq(s, kw));
            }
        }
    } else {
        lemma_first_occ(s.drop_first(), kw);
        let r = first_occ(s.drop_first(), kw);
        if r >= 0 {
            lemma_occurs_shift(s, kw, r);
            assert(occurs_at(s, kw, r + 1));
            assert forall|q: int| 0 <= q < r + 1 implies !occurs_at(s, kw, q) by {
                if q == 0 {
                    if occurs_at(s, kw, 0) {
                        assert(starts_with_seq(s, kw));
                    }
                } else {
                    lemma_occurs_shift(s, kw, q - 1);
                }
            }
        } else {
            assert forall|q: int| !occurs_at(s, kw, q) by {
                if q == 0 {
                    if occurs_at(s, kw, 0) {
                        assert(starts_with_seq(s, kw));
                    }
                } else if q > 0 {
                    lemma_occurs_shift(s, kw, q - 1);
                }
            }
        }
    }
}

/// A separator character of the action-word patterns: underscore, hyphen or
/// whitespace.
pub open spec fn is_sep(c: char) -> bool {
    c == '_' || c == '-' || is_ws(c)
}

/// The first index at or after `i` that does not hold a separator.
pub open spec fn skip_seps(s: Seq<char>, i: int) -> int
    decreases s.len() - i,
{
    if 0 <= i && i < s.len() && is_sep(s[i]) {
        skip_seps(s, i + 1)
    } else {
        i
    }
}

/// What one action-word pattern captures: the text after the leftmost
/// occurrence of the keyword, an optional literal continuation, and any run
/// of separators, trimmed of surrounding whitespace. `None` when the keyword
/// does not occur.
pub open spec fn capture_after(s: Seq<char>, kw: Seq<char>, opt: Seq<char>) -> Option<Seq<char>> {
    let p = first_occ(s, kw);
    if p < 0 {
        Option::None
    } else {
        let after_kw = p + kw.len();
        let after_opt = if opt.len() > 0 && occurs_at(s, opt, after_kw as int) {
            after_kw + opt.len()
        } else {
            after_kw
        };
        let start = skip_seps(s, after_opt as int);
        Option::Some(trim_spec(s.subrange(start, s.len() as int)))
    }
}

/// The working title after one pattern: on a match, the replacement word, a
/// space and the capture; otherwise the previous title, unchanged.
pub open spec fn apply_pattern(
    prev: Seq<char>,
    s: Seq<char>,
    kw: Seq<char>,
    opt: Seq<char>,
    repl: Seq<char>,
) -> Seq<char> {
    match capture_after(s, kw, opt) {
        Option::Some(t) => repl + seq![' '] + t,
        Option::None => prev,
    }
}

/// The capture taken from position `after` on: separators skipped, the rest
/// trimmed of surrounding whitespace.
pub open spec fn capture_from(s: Seq<char>, after: int) -> Seq<char> {
    let start = skip_seps(s, after);
    trim_spec(s.subrange(start, s.len() as int))
}

/// Extracts `capture_from(s@, after)` from a string slice.
fn capture_from_str(s: &str, after: usize) -> (r: String)
    requires
        after <= s@.len(),
    ensures
        r@ == capture_from(s@, after as int),
{
    let n: usize = s.unicode_len();
    let mut pos: usize = after;
    while pos < n && is_sep_char(s.get_char(pos))
        invariant
            n == s@.len(),
            after <= pos <= n,
            skip_seps(s@, after as int) == skip_seps(s@, pos as int),
        decreases n - pos,
    {
        pos += 1;
    }
    assert(skip_seps(s@, pos as int) == pos as int);
    let tail = s.substring_char(pos, n);
    let trimmed = trim_str(tail);
    String::from_str(trimmed)
}

/// Decides whether a character is a pattern separator.
fn is_sep_char(c: char) -> (b: bool)
    ensures
        b == is_sep(c),
{
    c == '_' || c == '-' || is_ws_char(c)
}

/// The view of an optional owned string.
pub open spec fn opt_view(r: Option<String>) -> Option<Seq<char>> {
    match r {
        Option::Some(t) => Option::Some(t@),
        Option::None => Option::None,
    }
}

/// Runs one action-word pattern against the normalized name.
fn capture_str(s: &str, kw: &str, opt: &str) -> (r: Option<String>)
    ensures
        opt_view(r) == capture_after(s@, kw@, opt@),
{
    proof {
        lemma_first_occ(s@, kw@);
    }
    match crate::text::find_first(s, kw) {
        Option::None => Option::None,
        Option::Some(p) => {
            let n: usize = s.unicode_len();
            let klen: usize = kw.unicode_len();
            let olen: usize = opt.unicode_len();
            assert(p == first_occ(s@, kw@));
            let after_kw: usize = p + klen;
            let after_opt: usize = if olen > 0 && olen <= n - after_kw && crate::text::matches_at(
                s,
                opt,
                after_kw,
            ) {
                after_kw + olen
            } else {
                after_kw
            };
            Option::Some(capture_from_str(s, after_opt))
        },
    }
}

/// The capture of the combined setup-or-install pattern: the leftmost
/// occurrence of either keyword wins, with `setup` preferred on a tie.
pub open spec fn capture_setup_install(s: Seq<char>) -> Option<Seq<char>> {
    let ps = first_occ(s, "setup"@);
    let pi = first_occ(s, "install"@);
    if ps < 0 && pi < 0 {
        Option::None
    } else if pi < 0 || (ps >= 0 && ps <= pi) {
        Option::Some(capture_from(s, ps + "setup"@.len()))
    } else {
        Option::Some(capture_from(s, pi + "install"@.len()))
    }
}

/// Runs the combined setup-or-install pattern against the normalized name.
fn capture_setup_install_str(s: &str) -> (r: Option<String>)
    ensures
        opt_view(r) == capture_setup_install(s@),
{
    proof {
        lemma_first_occ(s@, "setup"@);
        lemma_first_occ(s@, "install"@);
    }
    let n: usize = s.unicode_len();
    let fs = crate::text::find_first(s, "setup");
    let fi = crate::text::find_first(s, "install");
    let ks: usize = "setup".unicode_len();
    let ki: usize = "install".unicode_len();
    match (fs, fi) {
        (Option::None, Option::None) => Option::None,
        (Option::Some(ps), Option::None) => {
            assert(ps == first_occ(s@, "setup"@));
            Option::Some(capture_from_str(s, ps + ks))
        },
        (Option::None, Option::Some(pi)) => {
            assert(pi == first_occ(s@, "install"@));
            Option::Some(capture_from_str(s, pi + ki))
        },
        (Option::Some(ps), Option::Some(pi)) => {
            assert(ps == first_occ(s@, "setup"@));
            assert(pi == first_occ(s@, "install"@));
            if ps <= pi {
                Option::Some(capture_from_str(s, ps + ks))
            } else {
                Option::Some(capture_from_str(s, pi + ki))
            }
        },
    }
}

/// The working title after the whole fixed, ordered pattern list has run
/// against the normalized name `s`, each successful match overwriting the
/// previous title.
pub open spec fn improved_spec(s: Seq<char>) -> Seq<char> {
    let r1 = match capture_setup_install(s) {
        Option::Some(t) => "Install"@ + seq![' '] + t,
        Option::None => s,
    };
    let r2 = apply_pattern(r1, s, "test"@, Seq::<char>::empty(), "Test"@);
    let r3 = apply_pattern(r2, s, "launch"@, Seq::<char>::empty(), "Launch"@);
    let r4 = apply_pattern(r3, s, "verify"@, Seq::<char>::empty(), "Verify"@);
    let r5 = apply_pattern(r4, s, "cleanup"@, Seq::<char>::empty(), "Cleanup"@);
    let r6 = apply_pattern(r5, s, "integration"@, Seq::<char>::empty(), "Integration"@);
    let r7 = apply_pattern(r6, s, "config"@, "uration"@, "Configuration"@);
    let r8 = apply_pattern(r7, s, "build"@, Seq::<char>::empty(), "Build"@);
    apply_pattern(r8, s, "deploy"@, Seq::<char>::empty(), "Deploy"@)
}

/// Joins a replacement word, one space and a captured tail.
fn label_with(word: &str, t: &str) -> (r: String)
    ensures
        r@ == word@ + seq![' '] + t@,
{
    let mut r = String::from_str(word);
    push_char(&mut r, ' ');
    r.append(t);
    r
}

/// Improves a normalized base name by the fixed, ordered action-word
/// pattern list; the last matching pattern wins.
pub fn improve_name(s: &str) -> (r: String)
    ensures
        r@ == improved_spec(s@),
{
    proof {
        reveal_strlit("");
        assert(""@ =~= Seq::<char>::empty());
    }
    let mut improved = String::from_str(s);
    if let Option::Some(t) = capture_setup_install_str(s) {
        improved = label_with("Install", t.as_str());
    }
    if let Option::Some(t) = capture_str(s, "test", "") {
        improved = label_with("Test", t.as_str());
    }
    if let Option::Some(t) = capture_str(s, "launch", "") {
        improved = label_with("Launch", t.as_str());
    }
    if let Option::Some(t) = capture_str(s, "verify", "") {
        improved = label_with("Verify", t.as_str());
    }
    if let Option::Some(t) = capture_str(s, "cleanup", "") {
        improved = label_with("Cleanup", t.as_str());
    }
    if let Option::Some(t) = capture_str(s, "integration", "") {
        improved = label_with("Integration", t.as_str());
    }
    if let Option::Some(t) = capture_str(s, "config", "uration") {
        improved = label_with("Configuration", t.as_str());
    }
    if let Option::Some(t) = capture_str(s, "build", "") {
        improved = label_with("Build", t.as_str());
    }
    if let Option::Some(t) = capture_str(s, "deploy", "") {
        improved = label_with("Deploy", t.as_str());
    }
    improved
}

/// A word with its first character put through the full uppercase mapping.
pub open spec fn cap_word(w: Seq<char>) -> Seq<char> {
    if w.len() == 0 {
        w
    } else {
        upper_first_spec(w[0]) + w.drop_first()
    }
}

/// `cap_word`, applied to each word.
pub open spec fn cap_words(ws: Seq<Seq<char>>) -> Seq<Seq<char>> {
    ws.map(|i: int, w: Seq<char>| cap_word(w))
}

/// The title-cased text: each whitespace-delimited word capitalized, the
/// words joined by single spaces.
pub open spec fn title_spec(s: Seq<char>) -> Seq<char> {
    join_sp(cap_words(words(s)))
}

/// Title-cases a string: the first character of each whitespace-delimited
/// word is uppercased, the words are joined by single spaces.
pub fn title_case(s: &str) -> (r: String)
    ensures
        r@ == title_spec(s@),
{
    let n: usize = s.unicode_len();
    let mut out = String::new();
    let mut i: usize = 0;
    let mut prev_nonws: bool = false;
    let mut have_word: bool = false;
    while i < n
        invariant
            n == s@.len(),
            0 <= i <= n,
            prev_nonws == (i > 0 && !is_ws(s@[i as int - 1])),
            have_word == (words(s@.take(i as int)).len() > 0),
            out@ == title_spec(s@.take(i as int)),
            have_word == (out@.len() > 0),
        decreases n - i,
    {
        let c = s.get_char(i);
        let ws = is_ws_char(c);
        let ghost pre = s@.take(i as int);
        let ghost post = s@.take(i as int + 1);
        proof {
            assert(post.drop_last() =~= pre);
            assert(post.last() == s@[i as int]);
        }
        if ws {
            proof {
                assert(words(post) == words(pre));
            }
        } else if prev_nonws {
            proof {
                lemma_words_nonempty_last(pre);
                let w = words(pre).last();
                let k = words(pre).len() - 1;
                assert(words(post) == words(pre).update(k, w.push(c)));
                assert(cap_word(w.push(c)) =~= cap_word(w).push(c)) by {
                    assert(w.push(c)[0] == w[0]);
                    assert(w.push(c).drop_first() =~= w.drop_first().push(c));
                }
                assert(cap_words(words(post)) =~= cap_words(words(pre)).update(
                    k,
                    cap_words(words(pre)).last().push(c),
                ));
                crate::text::lemma_join_extend_last(cap_words(words(pre)), c);
            }
            push_char(&mut out, c);
        } else {
            let ups = upper_chars(c);
            proof {
                assert(words(post) == words(pre).push(seq![c]));
                assert(cap_word(seq![c]) =~= upper_first_spec(c)) by {
                    assert(seq![c].drop_first() =~= Seq::<char>::empty());
                }
                assert(cap_words(words(post)) =~= cap_words(words(pre)).push(cap_word(seq![c])));
                crate::text::lemma_join_push(cap_words(words(pre)), cap_word(seq![c]));
            }
            if have_word {
                push_char(&mut out, ' ');
            }
            let m: usize = ups.len();
            let ghost base = out@;
            let mut k: usize = 0;
            while k < m
                invariant
                    m == ups@.len(),
                    0 <= k <= m,
                    out@ == base + ups@.take(k as int),
                decreases m - k,
            {
                let ch = ups[k];
                push_char(&mut out, ch);
                proof {
                    assert(ups@.take(k as int + 1) =~= ups@.take(k as int).push(ups@[k as int]));
                }
                k += 1;
            }
            proof {
                assert(ups@.take(m as int) =~= ups@);
                assert(out@ =~= base + ups@);
                if words(pre).len() == 0 {
                    assert(title_spec(post) == cap_word(seq![c]));
                    assert(out@ =~= cap_word(seq![c]));
                } else {
                    assert(title_spec(post) == join_sp(cap_words(words(pre))) + seq![' ']
                        + cap_word(seq![c]));
                    assert(out@ =~= join_sp(cap_words(words(pre))) + seq![' '] + cap_word(
                        seq![c],
                    ));
                }
            }
            have_word = true;
        }
        prev_nonws = !ws;
        i += 1;
    }
    proof {
        assert(s@.take(n as int) =~= s@);
    }
    out
}

/// Capitalizing a well-formed ASCII word keeps it well-formed and ASCII,
/// and capitalizing it twice is the same as capitalizing it once.
pub proof fn lemma_cap_word_ascii(w: Seq<char>)
    requires
        word_ok(w),
        all_ascii(w),
    ensures
        word_ok(cap_word(w)),
        all_ascii(cap_word(w)),
        cap_word(cap_word(w)) == cap_word(w),
{
    let c = w[0];
    let u = ascii_upper(c);
    assert(is_ascii_char(c));
    let cw = cap_word(w);
    assert(cw == seq![u] + w.drop_first());
    assert(!is_ws(c));
    assert(!is_ws(u));
    assert(is_ascii_char(u));
    assert(word_ok(cw)) by {
        assert(cw[0] == u);
        assert(forall|k: int| 1 <= k < cw.len() ==> #[trigger] cw[k] == w[k]);
    }
    assert(all_ascii(cw)) by {
        assert(cw[0] == u);
        assert(forall|k: int| 1 <= k < cw.len() ==> #[trigger] cw[k] == w[k]);
    }
    assert(ascii_upper(u) == u);
    let cw2 = cap_word(cw);
    assert(cw2 == seq![ascii_upper(u)] + cw.drop_first());
    assert(cw.drop_first() =~= w.drop_first());
    assert(cw2 =~= cw);
}

/// Title-casing is idempotent on ASCII text: running the title-case step on
/// an already title-cased string yields the same string.
pub proof fn lemma_title_case_idempotent(s: Seq<char>)
    requires
        all_ascii(s),
    ensures
        title_spec(title_spec(s)) == title_spec(s),
{
    lemma_words_wellformed(s);
    let ws = words(s);
    let cws = cap_words(ws);
    assert forall|j: int| 0 <= j < cws.len() implies word_ok(#[trigger] cws[j]) && all_ascii(
        cws[j],
    ) && cap_word(cws[j]) == cws[j] by {
        assert(cws[j] == cap_word(ws[j]));
        lemma_cap_word_ascii(ws[j]);
    }
    assert(words_ok(cws));
    lemma_words_of_join(cws);
    assert(words(title_spec(s)) == cws);
    assert(cap_words(cws) =~= cws) by {
        assert(forall|j: int| 0 <= j < cws.len() ==> #[trigger] cap_words(cws)[j] == cap_word(
            cws[j],
        ));
    }
    assert(title_spec(title_spec(s)) == join_sp(cap_words(cws)));
}

/// The synthesized file name: the normalized, pattern-improved and
/// title-cased stem, prefixed by the document kind and given the extension
/// of its file type; for other file types the original name, unchanged.
pub open spec fn synthesized_spec(
    stem: Seq<char>,
    kind: DocumentKind,
    ftype: FileType,
    original: Seq<char>,
) -> Seq<char> {
    let titled = title_spec(improved_spec(normalized_spec(stem)));
    let prefixed = match kind {
        DocumentKind::Rubric => "Rubric - "@ + titled,
        DocumentKind::Report => "Report - "@ + titled,
        DocumentKind::Guide => "Guide - "@ + titled,
        DocumentKind::Summary => "Summary - "@ + titled,
        DocumentKind::Script => titled,
        DocumentKind::Unknown => titled,
    };
    match ftype {
        FileType::Markdown => prefixed + ".md"@,
        FileType::Shell => prefixed + ".sh"@,
        FileType::Other => original,
    }
}

/// Synthesizes a human-readable file name from the base name stem, the
/// document kind, the file type and the original full file name.
pub fn synthesize_name(stem: &str, kind: DocumentKind, ftype: FileType, original: &str) -> (r:
    String)
    ensures
        r@ == synthesized_spec(stem@, kind, ftype, original@),
{
    if let FileType::Other = ftype {
        return String::from_str(original);
    }
    let normalized = normalize_base(stem);
    let improved = improve_name(normalized.as_str());
    let titled = title_case(improved.as_str());
    let mut out: String = match kind {
        DocumentKind::Rubric => {
            let mut p = String::from_str("Rubric - ");
            p.append(titled.as_str());
            p
        },
        DocumentKind::Report => {
            let mut p = String::from_str("Report - ");
            p.append(titled.as_str());
            p
        },
        DocumentKind::Guide => {
            let mut p = String::from_str("Guide - ");
            p.append(titled.as_str());
            p
        },
        DocumentKind::Summary => {
            let mut p = String::from_str("Summary - ");
            p.append(titled.as_str());
            p
        },
        DocumentKind::Script => titled,
        DocumentKind::Unknown => titled,
    };
    match ftype {
        FileType::Markdown => out.append(".md"),
        FileType::Shell => out.append(".sh"),
        FileType::Other => (),
    }
    out
}

} // verus!
