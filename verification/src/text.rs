//! Verified text primitives: whitespace, ASCII case mapping, substring
//! search, trimming, word splitting and decimal rendering, all specified
//! over `Seq<char>` views.

use vstd::prelude::*;

verus! {

/// A character with the Unicode `White_Space` property, written out as the
/// fixed list of code points that carry it.
pub open spec fn is_ws(c: char) -> bool {
    let u = c as u32;
    (0x09 <= u && u <= 0x0D) || u == 0x20 || u == 0x85 || u == 0xA0 || u == 0x1680 || (0x2000
        <= u && u <= 0x200A) || u == 0x2028 || u == 0x2029 || u == 0x202F || u == 0x205F || u
        == 0x3000
}

/// Decides the `White_Space` property of one character.
pub fn is_ws_char(c: char) -> (b: bool)
    ensures
        b == is_ws(c),
{
    let u: u32 = c as u32;
    (0x09 <= u && u <= 0x0D) || u == 0x20 || u == 0x85 || u == 0xA0 || u == 0x1680 || (0x2000
        <= u && u <= 0x200A) || u == 0x2028 || u == 0x2029 || u == 0x202F || u == 0x205F || u
        == 0x3000
}

/// The ASCII range of `char` values.
pub open spec fn is_ascii_char(c: char) -> bool {
    (c as u32) < 128
}

/// Every character of the sequence is ASCII.
pub open spec fn all_ascii(s: Seq<char>) -> bool {
    forall|i: int| 0 <= i < s.len() ==> is_ascii_char(#[trigger] s[i])
}

/// Uppercases an ASCII lowercase letter; leaves every other character as is.
pub open spec fn ascii_upper(c: char) -> char {
    if ('a' as u32) <= (c as u32) && (c as u32) <= ('z' as u32) {
        (c as u32 - 32) as char
    } else {
        c
    }
}

/// Lowercases an ASCII uppercase letter; leaves every other character as is.
pub open spec fn ascii_lower(c: char) -> char {
    if ('A' as u32) <= (c as u32) && (c as u32) <= ('Z' as u32) {
        (c as u32 + 32) as char
    } else {
        c
    }
}

/// `ascii_lower`, applied to each character.
pub open spec fn ascii_lower_seq(s: Seq<char>) -> Seq<char> {
    s.map(|i: int, c: char| ascii_lower(c))
}

/// The needle occurs in the haystack starting at position `i`.
pub open spec fn occurs_at(hay: Seq<char>, needle: Seq<char>, i: int) -> bool {
    0 <= i && i + needle.len() <= hay.len() && hay.subrange(i, i + needle.len()) == needle
}

/// The needle occurs somewhere in the haystack.
pub open spec fn contains_seq(hay: Seq<char>, needle: Seq<char>) -> bool {
    exists|i: int| occurs_at(hay, needle, i)
}

/// The sequence ends with the given suffix.
pub open spec fn ends_with_seq(s: Seq<char>, suffix: Seq<char>) -> bool {
    suffix.len() <= s.len() && s.subrange(s.len() - suffix.len(), s.len() as int) == suffix
}

/// The sequence starts with the given prefix.
pub open spec fn starts_with_seq(s: Seq<char>, prefix: Seq<char>) -> bool {
    prefix.len() <= s.len() && s.subrange(0, prefix.len() as int) == prefix
}

/// Compares two string slices character by character.
pub fn eq_str(a: &str, b: &str) -> (r: bool)
    ensures
        r == (a@ == b@),
{
    let an: usize = a.unicode_len();
    let bn: usize = b.unicode_len();
    if an != bn {
        assert(a@ != b@) by {
            assert(a@.len() != b@.len());
        }
        return false;
    }
    let mut i: usize = 0;
    while i < an
        invariant
            an == a@.len(),
            an == b@.len(),
            0 <= i <= an,
            forall|j: int| 0 <= j < i ==> a@[j] == b@[j],
        decreases an - i,
    {
        if a.get_char(i) != b.get_char(i) {
            return false;
        }
        i += 1;
    }
    proof {
        assert(a@ =~= b@);
    }
    true
}

/// Whether the needle occurs at position `i` of the haystack.
pub fn matches_at(hay: &str, needle: &str, i: usize) -> (r: bool)
    requires
        i + needle@.len() <= hay@.len(),
        hay@.len() <= usize::MAX,
    ensures
        r == occurs_at(hay@, needle@, i as int),
{
    let n: usize = needle.unicode_len();
    let mut k: usize = 0;
    while k < n
        invariant
            n == needle@.len(),
            i + n <= hay@.len(),
            hay@.len() <= usize::MAX,
            0 <= k <= n,
            forall|j: int| 0 <= j < k ==> hay@[i + j] == needle@[j],
        decreases n - k,
    {
        if hay.get_char(i + k) != needle.get_char(k) {
            assert(hay@.subrange(i as int, i + n) != needle@) by {
                assert(hay@.subrange(i as int, i + n)[k as int] != needle@[k as int]);
            }
            return false;
        }
        k += 1;
    }
    proof {
        assert(hay@.subrange(i as int, i + n) =~= needle@);
    }
    true
}

/// Finds the first occurrence of the needle in the haystack.
pub fn find_first(hay: &str, needle: &str) -> (r: Option<usize>)
    ensures
        match r {
            Some(p) => occurs_at(hay@, needle@, p as int) && forall|q: int|
                0 <= q < p ==> !occurs_at(hay@, needle@, q),
            None => !contains_seq(hay@, needle@),
        },
{
    let hn: usize = hay.unicode_len();
    let nn: usize = needle.unicode_len();
    if nn > hn {
        return None;
    }
    let last: usize = hn - nn;
    let mut i: usize = 0;
    loop
        invariant
            hn == hay@.len(),
            nn == needle@.len(),
            nn <= hn,
            last == hn - nn,
            0 <= i <= last,
            forall|q: int| 0 <= q < i ==> !occurs_at(hay@, needle@, q),
        decreases last - i,
    {
        if matches_at(hay, needle, i) {
            return Some(i);
        }
        if i == last {
            assert(forall|q: int| q > last ==> !occurs_at(hay@, needle@, q));
            return None;
        }
        i += 1;
    }
}

/// Whether the needle occurs somewhere in the haystack.
pub fn contains_str(hay: &str, needle: &str) -> (r: bool)
    ensures
        r == contains_seq(hay@, needle@),
{
    find_first(hay, needle).is_some()
}

/// Whether the string ends with the given suffix.
pub fn ends_with_str(s: &str, suffix: &str) -> (r: bool)
    ensures
        r == ends_with_seq(s@, suffix@),
{
    let n: usize = s.unicode_len();
    let k: usize = suffix.unicode_len();
    if k > n {
        return false;
    }
    matches_at(s, suffix, n - k)
}

/// The sequence with leading whitespace removed.
pub open spec fn trim_front(s: Seq<char>) -> Seq<char>
    decreases s.len(),
{
    if s.len() > 0 && is_ws(s[0]) {
        trim_front(s.drop_first())
    } else {
        s
    }
}

/// The sequence with trailing whitespace removed.
pub open spec fn trim_back(s: Seq<char>) -> Seq<char>
    decreases s.len(),
{
    if s.len() > 0 && is_ws(s.last()) {
        trim_back(s.drop_last())
    } else {
        s
    }
}

/// The sequence with leading and trailing whitespace removed.
pub open spec fn trim_spec(s: Seq<char>) -> Seq<char> {
    trim_back(trim_front(s))
}

proof fn lemma_trim_front_subrange(s: Seq<char>, lo: int)
    requires
        0 <= lo <= s.len(),
        forall|j: int| 0 <= j < lo ==> is_ws(s[j]),
        lo < s.len() ==> !is_ws(s[lo]),
    ensures
        trim_front(s) == s.subrange(lo, s.len() as int),
    decreases lo,
{
    if lo == 0 {
        assert(s.subrange(0, s.len() as int) =~= s);
    } else {
        assert(is_ws(s[0]));
        lemma_trim_front_subrange(s.drop_first(), lo - 1);
        assert(s.drop_first().subrange(lo - 1, s.drop_first().len() as int) =~= s.subrange(
            lo,
            s.len() as int,
        ));
    }
}

proof fn lemma_trim_back_subrange(s: Seq<char>, hi: int)
    requires
        0 <= hi <= s.len(),
        forall|j: int| hi <= j < s.len() ==> is_ws(s[j]),
        hi > 0 ==> !is_ws(s[hi - 1]),
    ensures
        trim_back(s) == s.subrange(0, hi),
    decreases s.len() - hi,
{
    if hi == s.len() {
        assert(s.subrange(0, s.len() as int) =~= s);
    } else {
        assert(is_ws(s.last()));
        lemma_trim_back_subrange(s.drop_last(), hi);
        assert(s.drop_last().subrange(0, hi) =~= s.subrange(0, hi));
    }
}

/// Removes leading and trailing whitespace from a string slice.
pub fn trim_str<'a>(s: &'a str) -> (r: &'a str)
    ensures
        r@ == trim_spec(s@),
{
    let n: usize = s.unicode_len();
    let mut lo: usize = 0;
    while lo < n && is_ws_char(s.get_char(lo))
        invariant
            n == s@.len(),
            0 <= lo <= n,
            forall|j: int| 0 <= j < lo ==> is_ws(s@[j]),
        decreases n - lo,
    {
        lo += 1;
    }
    proof {
        lemma_trim_front_subrange(s@, lo as int);
    }
    if lo == n {
        let r = s.substring_char(n, n);
        proof {
            assert(trim_front(s@) =~= Seq::<char>::empty());
            assert(trim_spec(s@) =~= r@);
        }
        return r;
    }
    let mut hi: usize = n;
    while hi > lo && is_ws_char(s.get_char(hi - 1))
        invariant
            n == s@.len(),
            0 <= lo <= hi <= n,
            lo < n,
            !is_ws(s@[lo as int]),
            forall|j: int| hi <= j < n ==> is_ws(s@[j]),
        decreases hi,
    {
        hi -= 1;
    }
    assert(hi > lo);
    let r = s.substring_char(lo, hi);
    proof {
        let t = s@.subrange(lo as int, n as int);
        assert(trim_front(s@) == t);
        lemma_trim_back_subrange(t, hi - lo);
        assert(t.subrange(0, hi - lo) =~= s@.subrange(lo as int, hi as int));
    }
    r
}

/// The whitespace-delimited words of a sequence, defined by how the word
/// list grows as one character is appended at the end.
pub open spec fn words(s: Seq<char>) -> Seq<Seq<char>>
    decreases s.len(),
{
    if s.len() == 0 {
        Seq::<Seq<char>>::empty()
    } else {
        let prev = words(s.drop_last());
        let c = s.last();
        if is_ws(c) {
            prev
        } else if s.len() >= 2 && !is_ws(s[s.len() - 2]) && prev.len() > 0 {
            prev.update(prev.len() - 1, prev.last().push(c))
        } else {
            prev.push(seq![c])
        }
    }
}

/// The number of whitespace-delimited words.
pub open spec fn word_count(s: Seq<char>) -> nat {
    words(s).len()
}

/// Counts the whitespace-delimited words of a string slice.
pub fn count_words(s: &str) -> (r: usize)
    ensures
        r == word_count(s@),
{
    let n: usize = s.unicode_len();
    let mut i: usize = 0;
    let mut count: usize = 0;
    let mut prev_nonws: bool = false;
    while i < n
        invariant
            n == s@.len(),
            0 <= i <= n,
            count == words(s@.take(i as int)).len(),
            count <= i,
            prev_nonws == (i > 0 && !is_ws(s@[i as int - 1])),
        decreases n - i,
    {
        let c = s.get_char(i);
        let ws = is_ws_char(c);
        proof {
            assert(s@.take(i as int + 1).drop_last() =~= s@.take(i as int));
            assert(s@.take(i as int + 1).last() == s@[i as int]);
            if !ws && prev_nonws {
                lemma_words_nonempty_last(s@.take(i as int));
            }
        }
        if !ws && !prev_nonws {
            count += 1;
        }
        prev_nonws = !ws;
        i += 1;
    }
    proof {
        assert(s@.take(n as int) =~= s@);
    }
    count
}

/// A sequence ending in a non-whitespace character has a last word, and
/// that word is not empty.
pub proof fn lemma_words_nonempty_last(s: Seq<char>)
    requires
        s.len() > 0,
        !is_ws(s.last()),
    ensures
        words(s).len() > 0,
        words(s).last().len() > 0,
    decreases s.len(),
{
    if s.len() >= 2 && !is_ws(s[s.len() - 2]) {
        lemma_words_nonempty_last(s.drop_last());
    }
}

/// The words, joined with a single space between neighbours.
pub open spec fn join_sp(ws: Seq<Seq<char>>) -> Seq<char>
    decreases ws.len(),
{
    if ws.len() == 0 {
        Seq::<char>::empty()
    } else if ws.len() == 1 {
        ws[0]
    } else {
        join_sp(ws.drop_last()) + seq![' '] + ws.last()
    }
}

/// Appending a word to the list appends it to the joined text, after a
/// space when the list was not empty.
pub proof fn lemma_join_push(us: Seq<Seq<char>>, w: Seq<char>)
    ensures
        join_sp(us.push(w)) == if us.len() == 0 {
            w
        } else {
            join_sp(us) + seq![' '] + w
        },
{
    let v = us.push(w);
    assert(v.drop_last() =~= us);
    assert(v.last() == w);
    if us.len() == 0 {
        assert(join_sp(v) == v[0]);
    }
}

/// Extending the last word by one character appends that character to the
/// joined text.
pub proof fn lemma_join_extend_last(us: Seq<Seq<char>>, c: char)
    requires
        us.len() > 0,
    ensures
        join_sp(us.update(us.len() - 1, us.last().push(c))) == join_sp(us).push(c),
{
    let v = us.update(us.len() - 1, us.last().push(c));
    if us.len() == 1 {
        assert(join_sp(v) == v[0]);
        assert(v[0] == us.last().push(c));
        assert(join_sp(us) == us[0]);
    } else {
        assert(v.drop_last() =~= us.drop_last());
        assert(v.last() == us.last().push(c));
        assert(join_sp(v) == join_sp(us.drop_last()) + seq![' '] + us.last().push(c));
        assert(join_sp(us.drop_last()) + seq![' '] + us.last().push(c) =~= (join_sp(
            us.drop_last(),
        ) + seq![' '] + us.last()).push(c));
    }
}

/// A well-formed word: nonempty and free of whitespace.
pub open spec fn word_ok(w: Seq<char>) -> bool {
    w.len() > 0 && forall|k: int| 0 <= k < w.len() ==> !is_ws(#[trigger] w[k])
}

/// Every word of the list is well-formed.
pub open spec fn words_ok(ws: Seq<Seq<char>>) -> bool {
    forall|j: int| 0 <= j < ws.len() ==> word_ok(#[trigger] ws[j])
}

/// Every word of the list is all ASCII.
pub open spec fn words_ascii(ws: Seq<Seq<char>>) -> bool {
    forall|j: int| 0 <= j < ws.len() ==> all_ascii(#[trigger] ws[j])
}

/// Every word is nonempty and free of whitespace; words of an all-ASCII
/// sequence are all ASCII.
pub proof fn lemma_words_wellformed(s: Seq<char>)
    ensures
        words_ok(words(s)),
        all_ascii(s) ==> words_ascii(words(s)),
    decreases s.len(),
{
    if s.len() > 0 {
        lemma_words_wellformed(s.drop_last());
        let prev = words(s.drop_last());
        let c = s.last();
        assert(all_ascii(s) ==> all_ascii(s.drop_last())) by {
            if all_ascii(s) {
                assert(forall|i: int|
                    0 <= i < s.drop_last().len() ==> #[trigger] s.drop_last()[i] == s[i]);
            }
        }
        if is_ws(c) {
        } else if s.len() >= 2 && !is_ws(s[s.len() - 2]) && prev.len() > 0 {
            let w = prev.last().push(c);
            assert(word_ok(prev.last()));
            assert(word_ok(w)) by {
                assert(forall|k: int|
                    0 <= k < prev.last().len() ==> w[k] == #[trigger] prev.last()[k]);
                assert(w[w.len() - 1] == c);
            }
            let cur = words(s);
            assert(cur == prev.update(prev.len() - 1, w));
            assert(words_ok(cur)) by {
                assert(forall|j: int|
                    0 <= j < cur.len() && j != prev.len() - 1 ==> #[trigger] cur[j] == prev[j]);
                assert(cur[prev.len() - 1] == w);
            }
            if all_ascii(s) {
                assert(all_ascii(w)) by {
                    assert(forall|k: int|
                        0 <= k < prev.last().len() ==> w[k] == #[trigger] prev.last()[k]);
                    assert(w[w.len() - 1] == c);
                    assert(is_ascii_char(c));
                }
                assert(words_ascii(cur)) by {
                    assert(forall|j: int|
                        0 <= j < cur.len() && j != prev.len() - 1 ==> #[trigger] cur[j]
                            == prev[j]);
                    assert(cur[prev.len() - 1] == w);
                }
            }
        } else {
            let cur = words(s);
            assert(cur == prev.push(seq![c]));
            assert(word_ok(seq![c]));
            assert(words_ok(cur)) by {
                assert(forall|j: int|
                    0 <= j < prev.len() ==> #[trigger] cur[j] == prev[j]);
                assert(cur[cur.len() - 1] == seq![c]);
            }
            if all_ascii(s) {
                assert(is_ascii_char(c));
                assert(all_ascii(seq![c]));
                assert(words_ascii(cur)) by {
                    assert(forall|j: int|
                        0 <= j < prev.len() ==> #[trigger] cur[j] == prev[j]);
                    assert(cur[cur.len() - 1] == seq![c]);
                }
            }
        }
    }
}

/// Appending one word after a whitespace boundary appends it to the word
/// list.
pub proof fn lemma_words_append_word(a: Seq<char>, w: Seq<char>)
    requires
        word_ok(w),
        a.len() == 0 || is_ws(a.last()),
    ensures
        words(a + w) == words(a).push(w),
    decreases w.len(),
{
    let s = a + w;
    if w.len() == 1 {
        assert(s.drop_last() =~= a);
        assert(s.last() == w[0]);
        assert(!is_ws(s.last()));
        if a.len() > 0 {
            assert(s[s.len() - 2] == a.last());
        }
        assert(words(s) == words(a).push(seq![w[0]]));
        assert(seq![w[0]] =~= w);
    } else {
        let w0 = w.drop_last();
        let c = w.last();
        lemma_words_append_word(a, w0);
        assert(s.drop_last() =~= a + w0);
        assert(s.last() == c);
        assert(!is_ws(c));
        assert(s[s.len() - 2] == w0.last());
        assert(!is_ws(w0.last()));
        let prev = words(a + w0);
        assert(prev == words(a).push(w0));
        assert(prev.len() > 0);
        assert(words(s) == prev.update(prev.len() - 1, prev.last().push(c)));
        assert(prev.last() == w0);
        assert(w0.push(c) =~= w);
        assert(prev.update(prev.len() - 1, w) =~= words(a).push(w));
    }
}

/// Joining nonempty, whitespace-free words with single spaces and splitting
/// again yields the same word list.
pub proof fn lemma_words_of_join(ws: Seq<Seq<char>>)
    requires
        words_ok(ws),
    ensures
        words(join_sp(ws)) == ws,
    decreases ws.len(),
{
    if ws.len() == 0 {
        assert(words(join_sp(ws)) =~= ws);
    } else if ws.len() == 1 {
        assert(Seq::<char>::empty() + ws[0] =~= ws[0]);
        lemma_words_append_word(Seq::<char>::empty(), ws[0]);
        assert(words(join_sp(ws)) == words(Seq::<char>::empty()).push(ws[0]));
        assert(words(Seq::<char>::empty()).push(ws[0]) =~= ws);
    } else {
        let front = ws.drop_last();
        let w = ws.last();
        lemma_words_of_join(front);
        let a = join_sp(front);
        let b = a + seq![' '];
        assert(join_sp(ws) == a + seq![' '] + w);
        assert(b.drop_last() =~= a);
        assert(is_ws(b.last()));
        assert(words(b) == words(a));
        lemma_words_append_word(b, w);
        assert(a + seq![' '] + w =~= b + w);
        assert(words(join_sp(ws)) == words(a).push(w));
        assert(words(a).push(w) =~= ws);
    }
}

/// The decimal digit character for a value below ten.
pub open spec fn dec_digit(d: int) -> char {
    ((48 + d) as u32) as char
}

/// The decimal rendering of a natural number, most significant digit first.
pub open spec fn dec_str(n: nat) -> Seq<char>
    decreases n,
{
    if n < 10 {
        seq![dec_digit(n as int)]
    } else {
        dec_str(n / 10).push(dec_digit((n % 10) as int))
    }
}

} // verus!
