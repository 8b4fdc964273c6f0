//! A verified BibTeX bibliography parser and extractor.
//!
//! Given raw `.bib` source text the library produces structured
//! bibliography entries with plain-text (LaTeX-rendered) field values and
//! normalized author names, together with a list of diagnostics for the
//! entries that could not be used. The whole pipeline — tokenizer, entry
//! parser with `@string` macros and cross-references, LaTeX-to-plain-text
//! renderer, personal-name parser and the final extractor — is executable
//! code whose behaviour is pinned to specification functions over
//! character sequences.
pub mod diag;
pub mod entries;
pub mod extract;
pub mod latex;
pub mod laws;
pub mod names;
pub mod scan;
pub mod text;

pub use diag::{DiagReason, Diagnostic};
pub use names::format_name;
pub use names::PersonName;

use vstd::prelude::*;

verus! {

/// One extracted bibliography entry. `title`, `year` and `key` are always
/// populated; an absent optional field is `None`, never an empty string;
/// `authors` keeps the source's left-to-right order.
#[derive(Debug, Clone, PartialEq)]
pub struct Entry {
    pub key: String,
    pub title: String,
    pub authors: Option<Vec<String>>,
    pub booktitle: Option<String>,
    pub series: Option<String>,
    pub note: Option<String>,
    pub slides: Option<String>,
    pub pdf: Option<String>,
    pub year: u16,
}

/// The mathematical shape of an extracted entry.
pub struct EntryV {
    pub key: Seq<char>,
    pub title: Seq<char>,
    pub authors: Option<Seq<Seq<char>>>,
    pub booktitle: Option<Seq<char>>,
    pub series: Option<Seq<char>>,
    pub note: Option<Seq<char>>,
    pub slides: Option<Seq<char>>,
    pub pdf: Option<Seq<char>>,
    pub year: u16,
}

/// The view of an optional string.
pub open spec fn opt_view(o: Option<String>) -> Option<Seq<char>> {
    match o {
        Some(s) => Some(s@),
        None => None,
    }
}

impl View for Entry {
    type V = EntryV;

    open spec fn view(&self) -> EntryV {
        EntryV {
            key: self.key@,
            title: self.title@,
            authors: match self.authors {
                Some(a) => Some(text::str_views_of(a@)),
                None => None,
            },
            booktitle: opt_view(self.booktitle),
            series: opt_view(self.series),
            note: opt_view(self.note),
            slides: opt_view(self.slides),
            pdf: opt_view(self.pdf),
            year: self.year,
        }
    }
}

/// The views of a sequence of entries.
pub open spec fn entry_views_of(es: Seq<Entry>) -> Seq<EntryV> {
    es.map_values(|e: Entry| e@)
}

/// The meaning of a whole parse: the document is read block by block
/// (collecting macros, entries and parse diagnostics), later entries that
/// repeat a key are dropped and reported, cross-references are resolved
/// against the whole document, and each surviving raw entry is extracted
/// or skipped with a reason. Diagnostics are the four phases' lists in
/// that order.
pub open spec fn sp_parse(s: Seq<char>) -> (Seq<EntryV>, Seq<diag::DiagnosticV>) {
    let raw = entries::sp_parse_all(s, 0, Seq::empty(), latex::FUEL as nat);
    let ded = entries::sp_dedup(raw.0, 0, Seq::empty(), Seq::empty());
    let res = entries::sp_resolve(ded.0, 0, Seq::empty(), Seq::empty());
    let ext = extract::sp_extract_all(res.0, 0, Seq::empty(), Seq::empty());
    (ext.0, raw.1 + ded.1 + res.1 + ext.1)
}

/// Parses a whole `.bib` document held in memory. The result is the
/// extracted entries in source order together with one diagnostic for
/// every skipped or faulty construct: no entry is dropped silently, and
/// the result is a function of the input text alone.
pub fn parse(text: &str) -> (r: (Vec<Entry>, Vec<Diagnostic>))
    ensures
        entry_views_of(r.0@) == sp_parse(text@).0,
        diag::diag_views_of(r.1@) == sp_parse(text@).1,
{
    let chars = text::chars_of(text);
    let macros: Vec<(Vec<char>, Vec<char>)> = Vec::new();
    proof {
        assert(entries::pair_views_of(macros@) =~= Seq::<(Seq<char>, Seq<char>)>::empty());
    }
    let (raw_e, raw_d) = entries::parse_all(&chars, 0, macros, latex::FUEL);
    let empty_raw: Vec<entries::RawEntry> = Vec::new();
    let empty_d1: Vec<Diagnostic> = Vec::new();
    proof {
        assert(entries::raw_views_of(empty_raw@) =~= Seq::<entries::RawEntryV>::empty());
        assert(diag::diag_views_of(empty_d1@) =~= Seq::<diag::DiagnosticV>::empty());
    }
    let (ded_e, ded_d) = entries::dedup(&raw_e, 0, empty_raw, empty_d1);
    let empty_raw2: Vec<entries::RawEntry> = Vec::new();
    let empty_d2: Vec<Diagnostic> = Vec::new();
    proof {
        assert(entries::raw_views_of(empty_raw2@) =~= Seq::<entries::RawEntryV>::empty());
        assert(diag::diag_views_of(empty_d2@) =~= Seq::<diag::DiagnosticV>::empty());
    }
    let (res_e, res_d) = entries::resolve(&ded_e, 0, empty_raw2, empty_d2);
    let empty_ent: Vec<Entry> = Vec::new();
    let empty_d3: Vec<Diagnostic> = Vec::new();
    proof {
        assert(entry_views_of(empty_ent@) =~= Seq::<EntryV>::empty());
        assert(diag::diag_views_of(empty_d3@) =~= Seq::<diag::DiagnosticV>::empty());
    }
    let (out_e, out_d) = extract::extract_all(&res_e, 0, empty_ent, empty_d3);
    let ghost g_raw_d = raw_d@;
    let ghost g_ded_d = ded_d@;
    let ghost g_res_d = res_d@;
    let ghost g_out_d = out_d@;
    let diags = text::append_all(text::append_all(text::append_all(raw_d, ded_d), res_d), out_d);
    proof {
        assert(diag::diag_views_of(diags@) =~= diag::diag_views_of(g_raw_d) + diag::diag_views_of(
            g_ded_d,
        ) + diag::diag_views_of(g_res_d) + diag::diag_views_of(g_out_d));
    }
    (out_e, diags)
}

/// Renders one raw LaTeX-laden string to plain text, as the parser does
/// for every field value.
pub fn render_latex(text: &str) -> (r: String)
    ensures
        r@ == latex::sp_render(text@),
{
    let chars = text::chars_of(text);
    text::chars_to_string(&latex::render(&chars))
}

/// Parses a raw person-list value (the text of an `author` or `editor`
/// field) into its names, in source order.
pub fn parse_names(text: &str) -> (r: Vec<PersonName>)
    ensures
        r@.map_values(|p: PersonName| p@) == names::sp_parse_names(text@),
{
    let chars = text::chars_of(text);
    names::parse_names_vec(&chars)
}

} // verus!
