//! LaTeX-to-plain-text rendering: grouping braces and math delimiters are
//! dropped, diacritic commands are composed into the accented character,
//! special sequences (`~`, `--`, `---`, escaped symbols) are resolved, and
//! an unrecognized command is dropped before its braced argument or, when
//! it has none, passed through with the leading backslash stripped.
use crate::scan::{is_letter, letters_end, skip_ws, sp_is_letter, sp_letters_end, sp_skip_ws};
use vstd::prelude::*;

verus! {

/// Recursion bound for the scanning spec functions and their executable
/// mirrors; every step consumes at least one input character, so no input
/// that fits in memory can exhaust it.
pub const FUEL: usize = usize::MAX;

/// The plain-text composition of a diacritic mark with a base letter:
/// acute, grave, umlaut, circumflex, tilde and cedilla over the common
/// Latin letters; `None` when the pair has no composed form.
pub open spec fn sp_accent(mark: char, base: char) -> Option<char> {
    if mark == '\'' {
        if base == 'a' {
            Some('\u{e1}')
        } else if base == 'e' {
            Some('\u{e9}')
        } else if base == 'i' {
            Some('\u{ed}')
        } else if base == 'o' {
            Some('\u{f3}')
        } else if base == 'u' {
            Some('\u{fa}')
        } else if base == 'y' {
            Some('\u{fd}')
        } else if base == 'A' {
            Some('\u{c1}')
        } else if base == 'E' {
            Some('\u{c9}')
        } else if base == 'I' {
            Some('\u{cd}')
        } else if base == 'O' {
            Some('\u{d3}')
        } else if base == 'U' {
            Some('\u{da}')
        } else if base == 'Y' {
            Some('\u{dd}')
        } else {
            None
        }
    } else if mark == '`' {
        if base == 'a' {
            Some('\u{e0}')
        } else if base == 'e' {
            Some('\u{e8}')
        } else if base == 'i' {
            Some('\u{ec}')
        } else if base == 'o' {
            Some('\u{f2}')
        } else if base == 'u' {
            Some('\u{f9}')
        } else if base == 'A' {
            Some('\u{c0}')
        } else if base == 'E' {
            Some('\u{c8}')
        } else if base == 'I' {
            Some('\u{cc}')
        } else if base == 'O' {
            Some('\u{d2}')
        } else if base == 'U' {
            Some('\u{d9}')
        } else {
            None
        }
    } else if mark == '"' {
        if base == 'a' {
            Some('\u{e4}')
        } else if base == 'e' {
            Some('\u{eb}')
        } else if base == 'i' {
            Some('\u{ef}')
        } else if base == 'o' {
            Some('\u{f6}')
        } else if base == 'u' {
            Some('\u{fc}')
        } else if base == 'y' {
            Some('\u{ff}')
        } else if base == 'A' {
            Some('\u{c4}')
        } else if base == 'E' {
            Some('\u{cb}')
        } else if base == 'I' {
            Some('\u{cf}')
        } else if base == 'O' {
            Some('\u{d6}')
        } else if base == 'U' {
            Some('\u{dc}')
        } else {
            None
        }
    } else if mark == '^' {
        if base == 'a' {
            Some('\u{e2}')
        } else if base == 'e' {
            Some('\u{ea}')
        } else if base == 'i' {
            Some('\u{ee}')
        } else if base == 'o' {
            Some('\u{f4}')
        } else if base == 'u' {
            Some('\u{fb}')
        } else if base == 'A' {
            Some('\u{c2}')
        } else if base == 'E' {
            Some('\u{ca}')
        } else if base == 'I' {
            Some('\u{ce}')
        } else if base == 'O' {
            Some('\u{d4}')
        } else if base == 'U' {
            Some('\u{db}')
        } else {
            None
        }
    } else if mark == '~' {
        if base == 'a' {
            Some('\u{e3}')
        } else if base == 'o' {
            Some('\u{f5}')
        } else if base == 'n' {
            Some('\u{f1}')
        } else if base == 'A' {
            Some('\u{c3}')
        } else if base == 'O' {
            Some('\u{d5}')
        } else if base == 'N' {
            Some('\u{d1}')
        } else {
            None
        }
    } else if mark == 'c' {
        if base == 'c' {
            Some('\u{e7}')
        } else if base == 'C' {
            Some('\u{c7}')
        } else {
            None
        }
    } else {
        None
    }
}

pub fn accent(mark: char, base: char) -> (r: Option<char>)
    ensures
        r == sp_accent(mark, base),
{
    if mark == '\'' {
        if base == 'a' {
            Some('\u{e1}')
        } else if base == 'e' {
            Some('\u{e9}')
        } else if base == 'i' {
            Some('\u{ed}')
        } else if base == 'o' {
            Some('\u{f3}')
        } else if base == 'u' {
            Some('\u{fa}')
        } else if base == 'y' {
            Some('\u{fd}')
        } else if base == 'A' {
            Some('\u{c1}')
        } else if base == 'E' {
            Some('\u{c9}')
        } else if base == 'I' {
            Some('\u{cd}')
        } else if base == 'O' {
            Some('\u{d3}')
        } else if base == 'U' {
            Some('\u{da}')
        } else if base == 'Y' {
            Some('\u{dd}')
        } else {
            None
        }
    } else if mark == '`' {
        if base == 'a' {
            Some('\u{e0}')
        } else if base == 'e' {
            Some('\u{e8}')
        } else if base == 'i' {
            Some('\u{ec}')
        } else if base == 'o' {
            Some('\u{f2}')
        } else if base == 'u' {
            Some('\u{f9}')
        } else if base == 'A' {
            Some('\u{c0}')
        } else if base == 'E' {
            Some('\u{c8}')
        } else if base == 'I' {
            Some('\u{cc}')
        } else if base == 'O' {
            Some('\u{d2}')
        } else if base == 'U' {
            Some('\u{d9}')
        } else {
            None
        }
    } else if mark == '"' {
        if base == 'a' {
            Some('\u{e4}')
        } else if base == 'e' {
            Some('\u{eb}')
        } else if base == 'i' {
            Some('\u{ef}')
        } else if base == 'o' {
            Some('\u{f6}')
        } else if base == 'u' {
            Some('\u{fc}')
        } else if base == 'y' {
            Some('\u{ff}')
        } else if base == 'A' {
            Some('\u{c4}')
        } else if base == 'E' {
            Some('\u{cb}')
        } else if base == 'I' {
            Some('\u{cf}')
        } else if base == 'O' {
            Some('\u{d6}')
        } else if base == 'U' {
            Some('\u{dc}')
        } else {
            None
        }
    } else if mark == '^' {
        if base == 'a' {
            Some('\u{e2}')
        } else if base == 'e' {
            Some('\u{ea}')
        } else if base == 'i' {
            Some('\u{ee}')
        } else if base == 'o' {
            Some('\u{f4}')
        } else if base == 'u' {
            Some('\u{fb}')
        } else if base == 'A' {
            Some('\u{c2}')
        } else if base == 'E' {
            Some('\u{ca}')
        } else if base == 'I' {
            Some('\u{ce}')
        } else if base == 'O' {
            Some('\u{d4}')
        } else if base == 'U' {
            Some('\u{db}')
        } else {
            None
        }
    } else if mark == '~' {
        if base == 'a' {
            Some('\u{e3}')
        } else if base == 'o' {
            Some('\u{f5}')
        } else if base == 'n' {
            Some('\u{f1}')
        } else if base == 'A' {
            Some('\u{c3}')
        } else if base == 'O' {
            Some('\u{d5}')
        } else if base == 'N' {
            Some('\u{d1}')
        } else {
            None
        }
    } else if mark == 'c' {
        if base == 'c' {
            Some('\u{e7}')
        } else if base == 'C' {
            Some('\u{c7}')
        } else {
            None
        }
    } else {
        None
    }
}

/// Marks written directly after the backslash that name a diacritic.
pub open spec fn sp_is_accent_mark(c: char) -> bool {
    c == '\'' || c == '`' || c == '"' || c == '^' || c == '~'
}

pub fn is_accent_mark(c: char) -> (r: bool)
    ensures
        r == sp_is_accent_mark(c),
{
    c == '\'' || c == '`' || c == '"' || c == '^' || c == '~'
}

/// Symbols whose escaped form stands for the literal character.
pub open spec fn sp_is_escapable(c: char) -> bool {
    c == '&' || c == '%' || c == '_' || c == '$' || c == '#' || c == '{' || c == '}'
}

pub fn is_escapable(c: char) -> (r: bool)
    ensures
        r == sp_is_escapable(c),
{
    c == '&' || c == '%' || c == '_' || c == '$' || c == '#' || c == '{' || c == '}'
}

/// One pass of the renderer from position `i`, appending plain text to
/// `acc`. Grouping braces and `$` delimiters vanish; everything between
/// them is rendered in place, which realizes both the case-protection
/// convention and math-mode stripping.
pub open spec fn sp_render_from(s: Seq<char>, i: nat, acc: Seq<char>, fuel: nat) -> Seq<char>
    decreases fuel,
{
    if fuel == 0 || i >= s.len() {
        acc
    } else {
        let c = s[i as int];
        if c == '{' || c == '}' || c == '$' {
            sp_render_from(s, i + 1, acc, (fuel - 1) as nat)
        } else if c == '~' {
            sp_render_from(s, i + 1, acc.push(' '), (fuel - 1) as nat)
        } else if c == '-' {
            if s.len() - i > 2 && s[i + 1 as int] == '-' && s[i + 2 as int] == '-' {
                sp_render_from(s, i + 3, acc.push('\u{2014}'), (fuel - 1) as nat)
            } else if s.len() - i > 1 && s[i + 1 as int] == '-' {
                sp_render_from(s, i + 2, acc.push('\u{2013}'), (fuel - 1) as nat)
            } else {
                sp_render_from(s, i + 1, acc.push('-'), (fuel - 1) as nat)
            }
        } else if c == '\\' {
            if i + 1 >= s.len() {
                sp_render_from(s, i + 1, acc, (fuel - 1) as nat)
            } else {
                let e = s[i + 1 as int];
                if sp_is_accent_mark(e) {
                    let j = i + 2;
                    if s.len() - j > 2 && s[j as int] == '{' && s[j + 2 as int] == '}' {
                        let base = s[j + 1 as int];
                        sp_render_from(
                            s,
                            j + 3,
                            match sp_accent(e, base) {
                                Some(ch) => acc.push(ch),
                                None => acc.push(base),
                            },
                            (fuel - 1) as nat,
                        )
                    } else if j < s.len() && s[j as int] != '{' {
                        let base = s[j as int];
                        sp_render_from(
                            s,
                            j + 1,
                            match sp_accent(e, base) {
                                Some(ch) => acc.push(ch),
                                None => acc.push(base),
                            },
                            (fuel - 1) as nat,
                        )
                    } else {
                        sp_render_from(s, j, acc, (fuel - 1) as nat)
                    }
                } else if sp_is_escapable(e) {
                    sp_render_from(s, i + 2, acc.push(e), (fuel - 1) as nat)
                } else if sp_is_letter(e) {
                    let ne = sp_letters_end(s, i + 1);
                    let k = sp_skip_ws(s, ne);
                    if e == 'c' && ne == i + 2 && s.len() - k > 2 && k < s.len() && s[k as int]
                        == '{' && s[k + 2 as int] == '}' {
                        let base = s[k + 1 as int];
                        sp_render_from(
                            s,
                            k + 3,
                            match sp_accent('c', base) {
                                Some(ch) => acc.push(ch),
                                None => acc.push(base),
                            },
                            (fuel - 1) as nat,
                        )
                    } else if k < s.len() && s[k as int] == '{' {
                        sp_render_from(s, k, acc, (fuel - 1) as nat)
                    } else {
                        sp_render_from(s, ne, acc + s.subrange(i + 1 as int, ne as int), (fuel - 1) as nat)
                    }
                } else {
                    sp_render_from(s, i + 2, acc.push(e), (fuel - 1) as nat)
                }
            }
        } else {
            sp_render_from(s, i + 1, acc.push(c), (fuel - 1) as nat)
        }
    }
}

/// The plain-text rendering of a raw LaTeX-laden string.
pub open spec fn sp_render(s: Seq<char>) -> Seq<char> {
    sp_render_from(s, 0, Seq::empty(), FUEL as nat)
}

/// Appends `s[from..to]` to `acc`.
pub fn append_range(acc: Vec<char>, s: &Vec<char>, from: usize, to: usize) -> (r: Vec<char>)
    requires
        from <= to <= s@.len(),
    ensures
        r@ == acc@ + s@.subrange(from as int, to as int),
    decreases to - from,
{
    if from < to {
        let mut acc2 = acc;
        acc2.push(s[from]);
        let r = append_range(acc2, s, from + 1, to);
        proof {
            assert(r@ =~= acc@ + s@.subrange(from as int, to as int));
        }
        r
    } else {
        proof {
            assert(acc@ + s@.subrange(from as int, to as int) =~= acc@);
        }
        acc
    }
}

pub fn render_from(s: &Vec<char>, i: usize, acc: Vec<char>, fuel: usize) -> (r: Vec<char>)
    requires
        i <= s@.len(),
    ensures
        r@ == sp_render_from(s@, i as nat, acc@, fuel as nat),
    decreases fuel,
{
    if fuel == 0 || i >= s.len() {
        acc
    } else {
        let c = s[i];
        if c == '{' || c == '}' || c == '$' {
            render_from(s, i + 1, acc, fuel - 1)
        } else if c == '~' {
            let mut acc = acc;
            acc.push(' ');
            render_from(s, i + 1, acc, fuel - 1)
        } else if c == '-' {
            if s.len() - i > 2 && s[i + 1] == '-' && s[i + 2] == '-' {
                let mut acc = acc;
                acc.push('\u{2014}');
                render_from(s, i + 3, acc, fuel - 1)
            } else if s.len() - i > 1 && s[i + 1] == '-' {
                let mut acc = acc;
                acc.push('\u{2013}');
                render_from(s, i + 2, acc, fuel - 1)
            } else {
                let mut acc = acc;
                acc.push('-');
                render_from(s, i + 1, acc, fuel - 1)
            }
        } else if c == '\\' {
            if i + 1 >= s.len() {
                render_from(s, i + 1, acc, fuel - 1)
            } else {
                let e = s[i + 1];
                if is_accent_mark(e) {
                    let j = i + 2;
                    if s.len() - j > 2 && s[j] == '{' && s[j + 2] == '}' {
                        let base = s[j + 1];
                        let mut acc = acc;
                        match accent(e, base) {
                            Some(ch) => acc.push(ch),
                            None => acc.push(base),
                        }
                        render_from(s, j + 3, acc, fuel - 1)
                    } else if j < s.len() && s[j] != '{' {
                        let base = s[j];
                        let mut acc = acc;
                        match accent(e, base) {
                            Some(ch) => acc.push(ch),
                            None => acc.push(base),
                        }
                        render_from(s, j + 1, acc, fuel - 1)
                    } else {
                        render_from(s, j, acc, fuel - 1)
                    }
                } else if is_escapable(e) {
                    let mut acc = acc;
                    acc.push(e);
                    render_from(s, i + 2, acc, fuel - 1)
                } else if is_letter(e) {
                    let ne = letters_end(s, i + 1);
                    let k = skip_ws(s, ne);
                    if e == 'c' && ne == i + 2 && s.len() - k > 2 && k < s.len() && s[k] == '{'
                        && s[k + 2] == '}' {
                        let base = s[k + 1];
                        let mut acc = acc;
                        match accent('c', base) {
                            Some(ch) => acc.push(ch),
                            None => acc.push(base),
                        }
                        render_from(s, k + 3, acc, fuel - 1)
                    } else if k < s.len() && s[k] == '{' {
                        render_from(s, k, acc, fuel - 1)
                    } else {
                        let acc = append_range(acc, s, i + 1, ne);
                        render_from(s, ne, acc, fuel - 1)
                    }
                } else {
                    let mut acc = acc;
                    acc.push(e);
                    render_from(s, i + 2, acc, fuel - 1)
                }
            }
        } else {
            let mut acc = acc;
            acc.push(c);
            render_from(s, i + 1, acc, fuel - 1)
        }
    }
}

/// Renders a whole raw string to plain text. The renderer has no failure
/// path: every input yields an output.
pub fn render(s: &Vec<char>) -> (r: Vec<char>)
    ensures
        r@ == sp_render(s@),
{
    render_from(s, 0, Vec::new(), FUEL)
}

} // verus!
