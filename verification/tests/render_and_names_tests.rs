use bibparse::{format_name, parse_names, render_latex};

#[test]
fn accent_composes() {
    assert_eq!(render_latex("{\\'e}cole"), "\u{e9}cole");
}

#[test]
fn unknown_command_drops_name_keeps_argument() {
    assert_eq!(render_latex("\\textbf{Hi}"), "Hi");
}

#[test]
fn unknown_command_without_braces_passes_name_through() {
    assert_eq!(render_latex("\\LaTeX rules"), "LaTeX rules");
}

#[test]
fn plain_text_is_unchanged() {
    assert_eq!(render_latex("plain text 123"), "plain text 123");
}

#[test]
fn braces_are_transparent() {
    assert_eq!(render_latex("{Case} {Protected}"), "Case Protected");
}

#[test]
fn math_mode_delimiters_are_stripped() {
    assert_eq!(render_latex("a $x+y$ b"), "a x+y b");
}

#[test]
fn tie_becomes_space() {
    assert_eq!(render_latex("a~b"), "a b");
}

#[test]
fn dashes_are_resolved() {
    assert_eq!(render_latex("1--2"), "1\u{2013}2");
    assert_eq!(render_latex("a---b"), "a\u{2014}b");
    assert_eq!(render_latex("a-b"), "a-b");
}

#[test]
fn escaped_symbols_are_literal() {
    assert_eq!(render_latex("A \\& B 10\\% x\\_y"), "A & B 10% x_y");
}

#[test]
fn more_accents() {
    assert_eq!(render_latex("\\\"odor"), "\u{f6}dor");
    assert_eq!(render_latex("\\`a la"), "\u{e0} la");
    assert_eq!(render_latex("\\^ete"), "\u{ea}te");
    assert_eq!(render_latex("Espa\\~na"), "Espa\u{f1}a");
    assert_eq!(render_latex("gar\\c{c}on"), "gar\u{e7}on");
}

#[test]
fn accent_with_braced_letter() {
    assert_eq!(render_latex("\\'{e}"), "\u{e9}");
}

#[test]
fn unknown_accent_base_is_kept_bare() {
    assert_eq!(render_latex("\\'q"), "q");
}

#[test]
fn comma_form_names() {
    let names = parse_names("Smith, John and Doe, Jane");
    assert_eq!(names.len(), 2);
    assert_eq!(format_name(&names[0]), "John Smith");
    assert_eq!(format_name(&names[1]), "Jane Doe");
    assert_eq!(names[0].last, vec!["Smith".to_string()]);
    assert_eq!(names[0].first, vec!["John".to_string()]);
}

#[test]
fn von_detection_in_space_form() {
    let names = parse_names("Jean de La Fontaine");
    assert_eq!(names.len(), 1);
    assert_eq!(names[0].first, vec!["Jean".to_string()]);
    assert_eq!(names[0].von, vec!["de".to_string()]);
    assert_eq!(names[0].last, vec!["La".to_string(), "Fontaine".to_string()]);
    assert_eq!(format_name(&names[0]), "Jean de La Fontaine");
}

#[test]
fn von_detection_in_comma_form() {
    let names = parse_names("van der Berg, Jan");
    assert_eq!(names.len(), 1);
    assert_eq!(names[0].von, vec!["van".to_string(), "der".to_string()]);
    assert_eq!(names[0].last, vec!["Berg".to_string()]);
    assert_eq!(format_name(&names[0]), "Jan van der Berg");
}

#[test]
fn junior_part() {
    let names = parse_names("Smith, Jr, John");
    assert_eq!(names.len(), 1);
    assert_eq!(names[0].junior, vec!["Jr".to_string()]);
    assert_eq!(format_name(&names[0]), "John Smith, Jr");
}

#[test]
fn simple_space_form() {
    let names = parse_names("John Smith");
    assert_eq!(names.len(), 1);
    assert_eq!(names[0].first, vec!["John".to_string()]);
    assert_eq!(names[0].last, vec!["Smith".to_string()]);
}

#[test]
fn single_token_name() {
    let names = parse_names("Plato");
    assert_eq!(names.len(), 1);
    assert!(names[0].first.is_empty());
    assert_eq!(names[0].last, vec!["Plato".to_string()]);
}

#[test]
fn braced_and_is_not_a_separator() {
    let names = parse_names("{Simon and Garfunkel}");
    assert_eq!(names.len(), 1);
    assert_eq!(format_name(&names[0]), "Simon and Garfunkel");
}

#[test]
fn name_tokens_are_rendered() {
    let names = parse_names("L{\\'e}on Blum");
    assert_eq!(names.len(), 1);
    assert_eq!(names[0].first, vec!["L\u{e9}on".to_string()]);
}

#[test]
fn empty_name_list() {
    assert_eq!(parse_names("").len(), 0);
    assert_eq!(parse_names("   ").len(), 0);
}

#[test]
fn and_is_case_insensitive() {
    let names = parse_names("A Smith AND B Jones");
    assert_eq!(names.len(), 2);
}
