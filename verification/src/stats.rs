//! The run accumulator: the tallies a traversal reports at the end,
//! threaded explicitly through the run instead of living in shared mutable
//! state.

use crate::FileType;
use vstd::prelude::*;

verus! {

/// Tallies of one clean-up run.
pub struct CleanStats {
    pub processed: u64,
    pub skipped: u64,
    pub markdown: u64,
    pub shell: u64,
}

impl CleanStats {
    /// A fresh accumulator with every tally at zero.
    pub fn new() -> (r: CleanStats)
        ensures
            r.processed == 0,
            r.skipped == 0,
            r.markdown == 0,
            r.shell == 0,
    {
        CleanStats { processed: 0, skipped: 0, markdown: 0, shell: 0 }
    }

    /// Counts one successfully processed file.
    pub fn record_processed(&mut self)
        requires
            old(self).processed < u64::MAX,
        ensures
            final(self).processed == old(self).processed + 1,
            final(self).skipped == old(self).skipped,
            final(self).markdown == old(self).markdown,
            final(self).shell == old(self).shell,
    {
        self.processed = self.processed + 1;
    }

    /// Counts one skipped file.
    pub fn record_skipped(&mut self)
        requires
            old(self).skipped < u64::MAX,
        ensures
            final(self).skipped == old(self).skipped + 1,
            final(self).processed == old(self).processed,
            final(self).markdown == old(self).markdown,
            final(self).shell == old(self).shell,
    {
        self.skipped = self.skipped + 1;
    }

    /// Counts a file toward its type's tally; other types leave the
    /// accumulator unchanged.
    pub fn record_file_type(&mut self, t: FileType)
        requires
            old(self).markdown < u64::MAX,
            old(self).shell < u64::MAX,
        ensures
            final(self).markdown == old(self).markdown + (if t == FileType::Markdown {
                1int
            } else {
                0int
            }),
            final(self).shell == old(self).shell + (if t == FileType::Shell {
                1int
            } else {
                0int
            }),
            final(self).processed == old(self).processed,
            final(self).skipped == old(self).skipped,
    {
        match t {
            FileType::Markdown => {
                self.markdown = self.markdown + 1;
            },
            FileType::Shell => {
                self.shell = self.shell + 1;
            },
            FileType::Other => {},
        }
    }
}

} // verus!
