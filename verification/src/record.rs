//! File records: one candidate artifact, its metadata and its
//! classification. A record's file type and document kind are computed
//! exactly once, when the record is built; callers needing fresh data must
//! construct a new record.

use crate::classify::{classify, classify_spec, lemma_shell_extension_is_script};
use crate::fold::lower_spec;
use crate::naming::{synthesize_name, synthesized_spec};
use crate::text::{all_ascii, ascii_lower, ascii_lower_seq, ends_with_seq, eq_str};
use crate::{DocumentKind, FileType};
use vstd::prelude::*;

verus! {

/// The index of the last dot in a file name, or -1 when there is none.
pub open spec fn last_dot(s: Seq<char>) -> int
    decreases s.len(),
{
    if s.len() == 0 {
        -1
    } else if s.last() == '.' {
        s.len() - 1
    } else {
        last_dot(s.drop_last())
    }
}

/// The extension of a file name: the text after the final dot, except when
/// there is no dot or the only dot leads a hidden file's name.
pub open spec fn extension_of(s: Seq<char>) -> Option<Seq<char>> {
    let p = last_dot(s);
    if p <= 0 {
        Option::None
    } else {
        Option::Some(s.subrange(p + 1, s.len() as int))
    }
}

/// The stem of a file name: everything before the extension.
pub open spec fn stem_of(s: Seq<char>) -> Seq<char> {
    let p = last_dot(s);
    if p <= 0 {
        s
    } else {
        s.subrange(0, p)
    }
}

/// The file type for a name, decided by its extension.
pub open spec fn file_type_spec(name: Seq<char>) -> FileType {
    if extension_of(name) == Option::Some("md"@) {
        FileType::Markdown
    } else if extension_of(name) == Option::Some("sh"@) {
        FileType::Shell
    } else {
        FileType::Other
    }
}

proof fn lemma_last_dot_bounds(s: Seq<char>)
    ensures
        -1 <= last_dot(s) < s.len(),
        last_dot(s) >= 0 ==> s[last_dot(s)] == '.',
    decreases s.len(),
{
    if s.len() > 0 && s.last() != '.' {
        lemma_last_dot_bounds(s.drop_last());
        if last_dot(s.drop_last()) >= 0 {
            assert(s.drop_last()[last_dot(s.drop_last())] == s[last_dot(s)]);
        }
    }
}

proof fn lemma_last_dot_at(s: Seq<char>, p: int)
    requires
        0 <= p < s.len(),
        s[p] == '.',
        forall|j: int| p < j < s.len() ==> s[j] != '.',
    ensures
        last_dot(s) == p,
    decreases s.len(),
{
    if p == s.len() - 1 {
    } else {
        assert(s.last() != '.');
        lemma_last_dot_at(s.drop_last(), p);
    }
}

proof fn lemma_last_dot_none(s: Seq<char>)
    requires
        forall|j: int| 0 <= j < s.len() ==> s[j] != '.',
    ensures
        last_dot(s) == -1,
    decreases s.len(),
{
    if s.len() > 0 {
        lemma_last_dot_none(s.drop_last());
    }
}

/// Finds the index just after the last dot of the name, or 0 when the name
/// has no usable extension position.
fn find_last_dot(name: &str) -> (r: Option<usize>)
    ensures
        match r {
            Option::Some(p) => last_dot(name@) == p as int,
            Option::None => last_dot(name@) == -1,
        },
{
    let n: usize = name.unicode_len();
    let mut i: usize = n;
    while i > 0
        invariant
            n == name@.len(),
            0 <= i <= n,
            forall|j: int| i <= j < n ==> name@[j] != '.',
        decreases i,
    {
        if name.get_char(i - 1) == '.' {
            proof {
                lemma_last_dot_at(name@, i - 1);
            }
            return Option::Some(i - 1);
        }
        i -= 1;
    }
    proof {
        lemma_last_dot_none(name@);
    }
    Option::None
}

/// The stem of a file name: everything before the extension.
pub fn name_stem(name: &str) -> (r: String)
    ensures
        r@ == stem_of(name@),
{
    proof {
        lemma_last_dot_bounds(name@);
    }
    match find_last_dot(name) {
        Option::Some(p) if p > 0 => String::from_str(name.substring_char(0, p)),
        _ => String::from_str(name),
    }
}

/// The file type for a name, decided by its extension.
pub fn file_type_of_name(name: &str) -> (t: FileType)
    ensures
        t == file_type_spec(name@),
{
    proof {
        lemma_last_dot_bounds(name@);
    }
    match find_last_dot(name) {
        Option::Some(p) if p > 0 => {
            let n: usize = name.unicode_len();
            let ext = name.substring_char(p + 1, n);
            if eq_str(ext, "md") {
                FileType::Markdown
            } else if eq_str(ext, "sh") {
                FileType::Shell
            } else {
                FileType::Other
            }
        },
        _ => FileType::Other,
    }
}

/// A shell file is a script by definition: a record built from an ASCII
/// name with the shell extension never classifies as unknown — it is a
/// script unless a higher-priority name or content rule claims it first.
pub proof fn lemma_shell_record_never_unknown(name: Seq<char>, content: Seq<char>)
    requires
        all_ascii(name),
        file_type_spec(name) == FileType::Shell,
    ensures
        classify_spec(lower_spec(name), lower_spec(content)) != DocumentKind::Unknown,
{
    let p = last_dot(name);
    lemma_last_dot_bounds(name);
    assert(extension_of(name) == Option::Some("sh"@));
    reveal_strlit("sh");
    reveal_strlit(".sh");
    let ext = name.subrange(p + 1, name.len() as int);
    assert(ext == "sh"@);
    assert(ext.len() == 2);
    assert(p == name.len() - 3);
    assert(name[p] == '.');
    assert(name[p + 1] == 's' && name[p + 2] == 'h') by {
        assert(ext[0] == name[p + 1]);
        assert(ext[1] == name[p + 2]);
        assert("sh"@[0] == 's' && "sh"@[1] == 'h');
    }
    let low = lower_spec(name);
    assert(low == ascii_lower_seq(name));
    assert(low.len() == name.len());
    assert(ends_with_seq(low, ".sh"@)) by {
        assert(low.subrange(low.len() - 3, low.len() as int) =~= ".sh"@) by {
            assert(low[p] == ascii_lower('.') && low[p + 1] == ascii_lower('s') && low[p + 2]
                == ascii_lower('h'));
            assert(ascii_lower('.') == '.' && ascii_lower('s') == 's' && ascii_lower('h') == 'h');
            assert(".sh"@[0] == '.' && ".sh"@[1] == 's' && ".sh"@[2] == 'h');
        }
    }
    lemma_shell_extension_is_script(low, lower_spec(content));
}

/// Whether a file name marks a hidden file.
pub fn is_hidden_name(name: &str) -> (r: bool)
    ensures
        r == (name@.len() > 0 && name@[0] == '.'),
{
    if name.unicode_len() == 0 {
        false
    } else {
        name.get_char(0) == '.'
    }
}

/// One candidate artifact: its location, name, body, classification and
/// creation time. The creation time is a caller-supplied timestamp in
/// milliseconds; it is absent when the storage does not expose one.
pub struct FileRecord {
    pub path: String,
    pub name: String,
    pub content: String,
    pub file_type: FileType,
    pub doc_kind: DocumentKind,
    pub created_at: Option<i64>,
}

impl FileRecord {
    /// Builds a record from plain values; the file type and the document
    /// kind are derived here, exactly once.
    pub fn new(path: String, name: String, content: String, created_at: Option<i64>) -> (r:
        FileRecord)
        ensures
            r.path@ == path@,
            r.name@ == name@,
            r.content@ == content@,
            r.created_at == created_at,
            r.file_type == file_type_spec(name@),
            r.doc_kind == classify_spec(lower_spec(name@), lower_spec(content@)),
    {
        let file_type = file_type_of_name(name.as_str());
        let doc_kind = classify(name.as_str(), content.as_str());
        FileRecord { path, name, content, file_type, doc_kind, created_at }
    }

    /// The synthesized, human-readable file name for this record.
    pub fn generate_new_filename(&self) -> (r: String)
        ensures
            r@ == synthesized_spec(stem_of(self.name@), self.doc_kind, self.file_type, self.name@),
    {
        let stem = name_stem(self.name.as_str());
        synthesize_name(stem.as_str(), self.doc_kind, self.file_type, self.name.as_str())
    }
}

} // verus!
