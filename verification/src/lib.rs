//! Classification and clean-up rules for loosely named text artifacts
//! (Markdown documents and shell scripts) left behind by AI-assisted
//! development sessions.
//!
//! The crate decides; collaborators act. Callers supply file names, file
//! bodies and creation times as plain values, and receive classification,
//! renaming, placement and keep/discard decisions back.

use vstd::prelude::*;

pub mod classify;
pub mod clock;
pub mod fold;
pub mod naming;
pub mod partition;
pub mod placement;
pub mod record;
pub mod rubric;
pub mod stats;
pub mod trash;
pub mod text;

verus! {

/// File types handled by the clean-up rules, derived from the extension.
#[derive(Clone, Copy, Debug, PartialEq, Eq, Structural)]
pub enum FileType {
    Markdown,
    Shell,
    Other,
}

/// The kind of document, inferred from the file name and its content.
#[derive(Clone, Copy, Debug, PartialEq, Eq, Structural)]
pub enum DocumentKind {
    Rubric,
    Report,
    Guide,
    Summary,
    Script,
    Unknown,
}

} // verus!
