//! Diagnostics: every entry that is skipped, every macro reference that
//! cannot be resolved and every unknown cross-reference is reported here;
//! nothing is dropped silently.
use vstd::prelude::*;

verus! {

/// Why a block or an entry was skipped, or what was wrong inside it.
#[derive(Debug, Clone, Copy, PartialEq, Eq, Structural)]
pub enum DiagReason {
    /// A block after `@` that does not follow the grammar, including an
    /// unterminated brace or quote; the parser resumes at the next `@`.
    MalformedBlock,
    /// A field value referred to a macro that no `@string` declared yet;
    /// the field is omitted.
    UndefinedMacro,
    /// An entry whose key repeats an earlier entry's key, letter case
    /// disregarded; the first entry wins and the later one is dropped.
    DuplicateKey,
    /// A `crossref` field naming no entry in the document; the fields
    /// simply stay absent.
    UnknownCrossref,
    /// A required `title` field is missing; the entry is skipped.
    MissingTitle,
    /// A required `year` field is missing, has no leading digit run, or
    /// lies outside the four-digit range; the entry is skipped.
    MissingOrInvalidYear,
}

/// One reported condition: the character offset in the input where the
/// block begins (or where the fault was seen), the entry key when one was
/// parsed, and the reason.
#[derive(Debug, Clone, PartialEq)]
pub struct Diagnostic {
    pub pos: usize,
    pub key: Option<String>,
    pub reason: DiagReason,
}

/// The mathematical shape of a diagnostic.
pub struct DiagnosticV {
    pub pos: nat,
    pub key: Option<Seq<char>>,
    pub reason: DiagReason,
}

impl View for Diagnostic {
    type V = DiagnosticV;

    open spec fn view(&self) -> DiagnosticV {
        DiagnosticV {
            pos: self.pos as nat,
            key: match self.key {
                Some(k) => Some(k@),
                None => None,
            },
            reason: self.reason,
        }
    }
}

/// The views of a sequence of diagnostics.
pub open spec fn diag_views_of(ds: Seq<Diagnostic>) -> Seq<DiagnosticV> {
    ds.map_values(|d: Diagnostic| d@)
}

} // verus!
