use bibparse::{parse, DiagReason};

#[test]
fn minimal_entry() {
    let (entries, diags) = parse("@article{k, title={T}, year=2020}");
    assert_eq!(entries.len(), 1);
    assert_eq!(diags.len(), 0);
    assert_eq!(entries[0].key, "k");
    assert_eq!(entries[0].title, "T");
    assert_eq!(entries[0].year, 2020u16);
    assert!(entries[0].authors.is_none());
    assert!(entries[0].booktitle.is_none());
    assert!(entries[0].series.is_none());
    assert!(entries[0].note.is_none());
    assert!(entries[0].slides.is_none());
    assert!(entries[0].pdf.is_none());
}

#[test]
fn minimal_entry_short_year() {
    let (entries, diags) = parse("@article{k, title={T}, year=7}");
    assert_eq!(entries.len(), 1);
    assert_eq!(diags.len(), 0);
    assert_eq!(entries[0].year, 7u16);
}

#[test]
fn minimal_entry_max_year() {
    let (entries, _) = parse("@article{k, title={T}, year=9999}");
    assert_eq!(entries.len(), 1);
    assert_eq!(entries[0].year, 9999u16);
}

#[test]
fn quoted_values() {
    let (entries, diags) = parse("@article{k, title=\"T\", year=\"2020\"}");
    assert_eq!(entries.len(), 1);
    assert_eq!(diags.len(), 0);
    assert_eq!(entries[0].title, "T");
    assert_eq!(entries[0].year, 2020u16);
}

#[test]
fn missing_title_is_excluded_with_one_diagnostic() {
    let (entries, diags) = parse("@article{k, year=2020}");
    assert_eq!(entries.len(), 0);
    assert_eq!(diags.len(), 1);
    assert_eq!(diags[0].reason, DiagReason::MissingTitle);
    assert_eq!(diags[0].key.as_deref(), Some("k"));
}

#[test]
fn non_numeric_year_is_excluded_with_one_diagnostic() {
    let (entries, diags) = parse("@article{k, title={T}, year={abc}}");
    assert_eq!(entries.len(), 0);
    assert_eq!(diags.len(), 1);
    assert_eq!(diags[0].reason, DiagReason::MissingOrInvalidYear);
}

#[test]
fn empty_year_is_excluded() {
    let (entries, diags) = parse("@article{k, title={T}, year={}}");
    assert_eq!(entries.len(), 0);
    assert_eq!(diags.len(), 1);
    assert_eq!(diags[0].reason, DiagReason::MissingOrInvalidYear);
}

#[test]
fn missing_year_is_excluded() {
    let (entries, diags) = parse("@article{k, title={T}}");
    assert_eq!(entries.len(), 0);
    assert_eq!(diags.len(), 1);
    assert_eq!(diags[0].reason, DiagReason::MissingOrInvalidYear);
}

#[test]
fn year_out_of_range_is_excluded() {
    let (entries, diags) = parse("@article{k, title={T}, year=10000}");
    assert_eq!(entries.len(), 0);
    assert_eq!(diags.len(), 1);
    assert_eq!(diags[0].reason, DiagReason::MissingOrInvalidYear);
}

#[test]
fn year_with_leading_zeros() {
    let (entries, diags) = parse("@article{k, title={T}, year=0042}");
    assert_eq!(entries.len(), 1);
    assert_eq!(diags.len(), 0);
    assert_eq!(entries[0].year, 42u16);
}

#[test]
fn year_with_trailing_annotation() {
    let (entries, _) = parse("@article{k, title={T}, year={2020, to appear}}");
    assert_eq!(entries.len(), 1);
    assert_eq!(entries[0].year, 2020u16);
}

#[test]
fn one_bad_one_good_entry() {
    let (entries, diags) = parse("@article{k, title={T} year=2020}@article{g, title={G}, year=1999}");
    assert_eq!(entries.len(), 1);
    assert_eq!(entries[0].key, "g");
    assert_eq!(diags.len(), 1);
    assert_eq!(diags[0].reason, DiagReason::MalformedBlock);
}

#[test]
fn unterminated_brace_reports_entry_and_later_entry_parses() {
    let text = "@article{bad, title={never closed, year=2020\n@article{good, title={G}, year=1999}";
    let (entries, diags) = parse(text);
    assert_eq!(entries.len(), 1);
    assert_eq!(entries[0].key, "good");
    assert_eq!(entries[0].title, "G");
    assert_eq!(diags.len(), 1);
    assert_eq!(diags[0].reason, DiagReason::MalformedBlock);
    assert_eq!(diags[0].pos, 0);
}

#[test]
fn macro_expansion_and_concatenation() {
    let (entries, diags) = parse("@string{abc = \"Foo\"} @article{k, title=abc # \" Bar\", year=2020}");
    assert_eq!(entries.len(), 1);
    assert_eq!(diags.len(), 0);
    assert_eq!(entries[0].title, "Foo Bar");
}

#[test]
fn macro_names_are_case_insensitive() {
    let (entries, _) = parse("@string{ABC = \"Foo\"} @article{k, title=abc, year=2020}");
    assert_eq!(entries.len(), 1);
    assert_eq!(entries[0].title, "Foo");
}

#[test]
fn undefined_macro_omits_field_with_diagnostic() {
    let (entries, diags) = parse("@article{k, title={T}, year=2020, note=nosuch}");
    assert_eq!(entries.len(), 1);
    assert!(entries[0].note.is_none());
    assert_eq!(diags.len(), 1);
    assert_eq!(diags[0].reason, DiagReason::UndefinedMacro);
}

#[test]
fn comment_and_preamble_are_discarded() {
    let text = "@comment{anything {nested} here}@preamble{\"x\"}@article{k, title={T}, year=2020}";
    let (entries, diags) = parse(text);
    assert_eq!(entries.len(), 1);
    assert_eq!(diags.len(), 0);
}

#[test]
fn text_between_entries_is_comment() {
    let (entries, diags) = parse("stray text\n@article{k, title={T}, year=2020}\nmore noise");
    assert_eq!(entries.len(), 1);
    assert_eq!(diags.len(), 0);
}

#[test]
fn field_names_are_case_insensitive() {
    let (entries, _) = parse("@article{k, TITLE={T}, Year=2020}");
    assert_eq!(entries.len(), 1);
    assert_eq!(entries[0].title, "T");
    assert_eq!(entries[0].year, 2020u16);
}

#[test]
fn duplicate_field_last_wins() {
    let (entries, _) = parse("@article{k, title={A}, title={B}, year=2020}");
    assert_eq!(entries.len(), 1);
    assert_eq!(entries[0].title, "B");
}

#[test]
fn duplicate_key_keeps_first_and_reports_second() {
    let text = "@article{k, title={A}, year=2020}@article{K, title={B}, year=1999}";
    let (entries, diags) = parse(text);
    assert_eq!(entries.len(), 1);
    assert_eq!(entries[0].title, "A");
    assert_eq!(diags.len(), 1);
    assert_eq!(diags[0].reason, DiagReason::DuplicateKey);
    assert_eq!(diags[0].key.as_deref(), Some("K"));
}

#[test]
fn trailing_comma_is_accepted() {
    let (entries, diags) = parse("@article{k, title={T}, year=2020,}");
    assert_eq!(entries.len(), 1);
    assert_eq!(diags.len(), 0);
}

#[test]
fn empty_input_yields_nothing() {
    let (entries, diags) = parse("");
    assert_eq!(entries.len(), 0);
    assert_eq!(diags.len(), 0);
}

#[test]
fn reparsing_is_deterministic() {
    let text = "@string{s = \"X\"}@article{k, title=s # { and {\\'e}}, year=2020}@bad{";
    let first = parse(text);
    let second = parse(text);
    assert_eq!(first.0, second.0);
    assert_eq!(first.1, second.1);
}

#[test]
fn crossref_inherits_unset_field() {
    let text = "@inproceedings{b, title={B}, year=2020, crossref={a}}\
                @proceedings{a, title={A}, year=2020, booktitle={Proc}}";
    let (entries, diags) = parse(text);
    assert_eq!(entries.len(), 2);
    assert_eq!(diags.len(), 0);
    assert_eq!(entries[0].key, "b");
    assert_eq!(entries[0].booktitle.as_deref(), Some("Proc"));
}

#[test]
fn crossref_never_overwrites_own_field() {
    let text = "@inproceedings{b, title={B}, year=2020, booktitle={Own}, crossref={a}}\
                @proceedings{a, title={A}, year=2020, booktitle={Proc}}";
    let (entries, _) = parse(text);
    assert_eq!(entries[0].booktitle.as_deref(), Some("Own"));
}

#[test]
fn unknown_crossref_reports_and_keeps_entry() {
    let (entries, diags) = parse("@article{b, title={B}, year=2020, crossref={nope}}");
    assert_eq!(entries.len(), 1);
    assert_eq!(diags.len(), 1);
    assert_eq!(diags[0].reason, DiagReason::UnknownCrossref);
}

#[test]
fn optional_fields_are_extracted() {
    let text = "@article{k, title={T}, year=2020, booktitle={BT}, series={S}, note={N}, _slides={SL}, _pdf={P}}";
    let (entries, _) = parse(text);
    assert_eq!(entries[0].booktitle.as_deref(), Some("BT"));
    assert_eq!(entries[0].series.as_deref(), Some("S"));
    assert_eq!(entries[0].note.as_deref(), Some("N"));
    assert_eq!(entries[0].slides.as_deref(), Some("SL"));
    assert_eq!(entries[0].pdf.as_deref(), Some("P"));
}

#[test]
fn authors_from_author_field() {
    let (entries, _) = parse("@article{k, title={T}, year=2020, author={Smith, John and Doe, Jane}}");
    let authors = entries[0].authors.as_ref().unwrap();
    assert_eq!(authors.len(), 2);
    assert_eq!(authors[0], "John Smith");
    assert_eq!(authors[1], "Jane Doe");
}

#[test]
fn empty_author_field_means_no_authors() {
    let (entries, _) = parse("@article{k, title={T}, year=2020, author={}}");
    assert_eq!(entries.len(), 1);
    assert!(entries[0].authors.is_none());
}

#[test]
fn string_macro_with_braced_value() {
    let (entries, _) = parse("@string{x = {Foo}}@article{k, title=x, year=2020}");
    assert_eq!(entries[0].title, "Foo");
}

#[test]
fn string_macro_of_macros() {
    let (entries, _) = parse(
        "@string{a = {Al}}@string{b = a # {pha}}@article{k, title=b, year=2020}",
    );
    assert_eq!(entries[0].title, "Alpha");
}

#[test]
fn undefined_macro_in_string_block() {
    let (entries, diags) = parse("@string{x = nosuch}@article{k, title=x, year=2020}");
    // the declaration is reported and not registered, the use is reported
    // too, and the title field it fed is then missing
    assert_eq!(diags.len(), 3);
    assert_eq!(diags[0].reason, DiagReason::UndefinedMacro);
    assert_eq!(diags[1].reason, DiagReason::UndefinedMacro);
    assert_eq!(diags[2].reason, DiagReason::MissingTitle);
    assert_eq!(entries.len(), 0);
}

#[test]
fn crossref_keys_are_case_insensitive() {
    let text = "@inproceedings{b, title={B}, year=2020, crossref={A}}\
                @proceedings{a, title={A}, year=2020, booktitle={Proc}}";
    let (entries, diags) = parse(text);
    assert_eq!(diags.len(), 0);
    assert_eq!(entries[0].booktitle.as_deref(), Some("Proc"));
}

#[test]
fn non_ascii_input_text() {
    let (entries, _) = parse("@article{k, title={\u{e9}cole}, year=2020}");
    assert_eq!(entries[0].title, "\u{e9}cole");
}

#[test]
fn punctuated_citation_key() {
    let (entries, _) = parse("@article{k:1-a/b.c+d, title={T}, year=2020}");
    assert_eq!(entries[0].key, "k:1-a/b.c+d");
}

#[test]
fn protective_braces_in_title() {
    let (entries, _) = parse("@article{k, title={The {ABC} of {D}}, year=2020}");
    assert_eq!(entries[0].title, "The ABC of D");
}

#[test]
fn accented_title_through_parse() {
    let (entries, _) = parse("@article{k, title={L{\\'e}on's {\\\"U}ber}, year=2020}");
    assert_eq!(entries[0].title, "L\u{e9}on's \u{dc}ber");
}

#[test]
fn unterminated_quote_is_malformed() {
    let (entries, diags) = parse("@article{bad, title=\"never closed, year=2020}\n@article{g, title={G}, year=1999}");
    assert_eq!(entries.len(), 1);
    assert_eq!(entries[0].key, "g");
    assert_eq!(diags.len(), 1);
    assert_eq!(diags[0].reason, DiagReason::MalformedBlock);
}

#[test]
fn braces_inside_quoted_value() {
    let (entries, diags) = parse("@article{k, title=\"a {\\\"quoted\\\"} b\", year=2020}");
    assert_eq!(entries.len(), 1);
    assert_eq!(diags.len(), 0);
}
