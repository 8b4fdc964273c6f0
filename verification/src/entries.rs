//! The entry parser: blocks (`@comment`, `@preamble`, `@string`, and the
//! bibliography entries themselves), field lists, macro-resolved and
//! `#`-concatenated values, duplicate-key reporting and cross-reference
//! resolution. One malformed block yields a diagnostic and parsing
//! resumes at the next `@`.
use crate::diag::{diag_views_of, DiagReason, Diagnostic, DiagnosticV};
use crate::scan::{
    braced_end, digits_end, eq_chars, ident_end, is_digit, is_ident_char, lower_vec, quoted_end,
    scan_at, skip_ws, sp_braced_end, sp_digits_end, sp_ident_end, sp_is_digit, sp_is_ident,
    sp_lower_seq, sp_quoted_end, sp_scan_at, sp_skip_ws,
};
use crate::names::copy_range;
use crate::text::{append_all, chars_to_string};
use vstd::prelude::*;

verus! {

/// One parsed bibliography block before extraction: its character offset
/// in the input, its
/// lower-cased type, its key as written, and its ordered field list of
/// lower-cased names and macro-resolved raw values. A name may occur more
/// than once; a lookup takes the last occurrence, so the last one wins.
pub struct RawEntry {
    pub pos: usize,
    pub etype: Vec<char>,
    pub key: Vec<char>,
    pub fields: Vec<(Vec<char>, Vec<char>)>,
}

/// The mathematical shape of a raw entry.
pub struct RawEntryV {
    pub pos: nat,
    pub etype: Seq<char>,
    pub key: Seq<char>,
    pub fields: Seq<(Seq<char>, Seq<char>)>,
}

/// The views of a sequence of field or macro pairs.
pub open spec fn pair_views_of(ps: Seq<(Vec<char>, Vec<char>)>) -> Seq<(Seq<char>, Seq<char>)> {
    ps.map_values(|p: (Vec<char>, Vec<char>)| (p.0@, p.1@))
}

impl View for RawEntry {
    type V = RawEntryV;

    open spec fn view(&self) -> RawEntryV {
        RawEntryV {
            pos: self.pos as nat,
            etype: self.etype@,
            key: self.key@,
            fields: pair_views_of(self.fields@),
        }
    }
}

/// The views of a sequence of raw entries.
pub open spec fn raw_views_of(es: Seq<RawEntry>) -> Seq<RawEntryV> {
    es.map_values(|e: RawEntry| e@)
}

/// The word `comment`.
pub fn kw_comment() -> (r: Vec<char>)
    ensures
        r@ == seq!['c', 'o', 'm', 'm', 'e', 'n', 't'],
{
    let mut v: Vec<char> = Vec::new();
    v.push('c');
    v.push('o');
    v.push('m');
    v.push('m');
    v.push('e');
    v.push('n');
    v.push('t');
    proof {
        assert(v@ =~= seq!['c', 'o', 'm', 'm', 'e', 'n', 't']);
    }
    v
}

/// The word `preamble`.
pub fn kw_preamble() -> (r: Vec<char>)
    ensures
        r@ == seq!['p', 'r', 'e', 'a', 'm', 'b', 'l', 'e'],
{
    let mut v: Vec<char> = Vec::new();
    v.push('p');
    v.push('r');
    v.push('e');
    v.push('a');
    v.push('m');
    v.push('b');
    v.push('l');
    v.push('e');
    proof {
        assert(v@ =~= seq!['p', 'r', 'e', 'a', 'm', 'b', 'l', 'e']);
    }
    v
}

/// The word `string`.
pub fn kw_string() -> (r: Vec<char>)
    ensures
        r@ == seq!['s', 't', 'r', 'i', 'n', 'g'],
{
    let mut v: Vec<char> = Vec::new();
    v.push('s');
    v.push('t');
    v.push('r');
    v.push('i');
    v.push('n');
    v.push('g');
    proof {
        assert(v@ =~= seq!['s', 't', 'r', 'i', 'n', 'g']);
    }
    v
}

/// The word `crossref`.
pub fn kw_crossref() -> (r: Vec<char>)
    ensures
        r@ == seq!['c', 'r', 'o', 's', 's', 'r', 'e', 'f'],
{
    let mut v: Vec<char> = Vec::new();
    v.push('c');
    v.push('r');
    v.push('o');
    v.push('s');
    v.push('s');
    v.push('r');
    v.push('e');
    v.push('f');
    proof {
        assert(v@ =~= seq!['c', 'r', 'o', 's', 's', 'r', 'e', 'f']);
    }
    v
}

/// The value bound to `name` among the pairs before `upto`, the latest
/// binding first.
pub open spec fn sp_lookup_at(
    pairs: Seq<(Seq<char>, Seq<char>)>,
    name: Seq<char>,
    upto: nat,
) -> Option<Seq<char>>
    decreases upto,
{
    if upto == 0 || upto > pairs.len() {
        None
    } else if pairs[upto - 1].0 == name {
        Some(pairs[upto - 1].1)
    } else {
        sp_lookup_at(pairs, name, (upto - 1) as nat)
    }
}

/// The value bound to `name`: the last pair with that name wins.
pub open spec fn sp_lookup(pairs: Seq<(Seq<char>, Seq<char>)>, name: Seq<char>) -> Option<
    Seq<char>,
> {
    sp_lookup_at(pairs, name, pairs.len())
}

pub fn lookup_at(pairs: &Vec<(Vec<char>, Vec<char>)>, name: &Vec<char>, upto: usize) -> (r: Option<
    Vec<char>,
>)
    requires
        upto <= pairs.len(),
    ensures
        match r {
            Some(v) => sp_lookup_at(pair_views_of(pairs@), name@, upto as nat) == Some(v@),
            None => sp_lookup_at(pair_views_of(pairs@), name@, upto as nat) is None,
        },
    decreases upto,
{
    proof {
        assert(pair_views_of(pairs@).len() == pairs@.len());
        if upto > 0 {
            assert(pair_views_of(pairs@)[upto - 1] == (pairs@[upto - 1].0@, pairs@[upto - 1].1@));
        }
    }
    if upto == 0 {
        None
    } else if eq_chars(&pairs[upto - 1].0, name) {
        Some(copy_range(&pairs[upto - 1].1, 0, pairs[upto - 1].1.len()))
    } else {
        lookup_at(pairs, name, upto - 1)
    }
}

pub fn lookup(pairs: &Vec<(Vec<char>, Vec<char>)>, name: &Vec<char>) -> (r: Option<Vec<char>>)
    ensures
        match r {
            Some(v) => sp_lookup(pair_views_of(pairs@), name@) == Some(v@),
            None => sp_lookup(pair_views_of(pairs@), name@) is None,
        },
{
    proof {
        assert(pair_views_of(pairs@).len() == pairs@.len());
    }
    lookup_at(pairs, name, pairs.len())
}

/// One undelimited value: a brace- or quote-delimited text, a bare digit
/// run, or a macro name resolved against the table. The result is the
/// value text, the position after it, and whether every macro reference
/// was defined; `None` is a malformed or unterminated value.
pub open spec fn sp_simple_value(
    s: Seq<char>,
    i: nat,
    macros: Seq<(Seq<char>, Seq<char>)>,
) -> Option<(Seq<char>, nat, bool)> {
    if i >= s.len() {
        None
    } else if s[i as int] == '{' {
        match sp_braced_end(s, i + 1, 1) {
            Some(e) => Some((s.subrange(i + 1 as int, e - 1), e, true)),
            None => None,
        }
    } else if s[i as int] == '"' {
        match sp_quoted_end(s, i + 1, 0) {
            Some(e) => Some((s.subrange(i + 1 as int, e - 1), e, true)),
            None => None,
        }
    } else if sp_is_digit(s[i as int]) {
        let e = sp_digits_end(s, i);
        Some((s.subrange(i as int, e as int), e, true))
    } else if sp_is_ident(s[i as int]) {
        let e = sp_ident_end(s, i);
        match sp_lookup(macros, sp_lower_seq(s.subrange(i as int, e as int))) {
            Some(v) => Some((v, e, true)),
            None => Some((Seq::empty(), e, false)),
        }
    } else {
        None
    }
}

pub fn simple_value(s: &Vec<char>, i: usize, macros: &Vec<(Vec<char>, Vec<char>)>) -> (r: Option<
    (Vec<char>, usize, bool),
>)
    requires
        i <= s.len(),
    ensures
        match r {
            Some(t) => sp_simple_value(s@, i as nat, pair_views_of(macros@)) == Some(
                (t.0@, t.1 as nat, t.2),
            ) && i < t.1 <= s.len(),
            None => sp_simple_value(s@, i as nat, pair_views_of(macros@)) is None,
        },
{
    if i >= s.len() {
        None
    } else if s[i] == '{' {
        match braced_end(s, i + 1, 1) {
            Some(e) => Some((copy_range(s, i + 1, e - 1), e, true)),
            None => None,
        }
    } else if s[i] == '"' {
        match quoted_end(s, i + 1, 0) {
            Some(e) => Some((copy_range(s, i + 1, e - 1), e, true)),
            None => None,
        }
    } else if is_digit(s[i]) {
        let e = digits_end(s, i);
        Some((copy_range(s, i, e), e, true))
    } else if is_ident_char(s[i]) {
        let e = ident_end(s, i);
        let name = lower_vec(&copy_range(s, i, e));
        match lookup(macros, &name) {
            Some(v) => Some((v, e, true)),
            None => {
                let empty: Vec<char> = Vec::new();
                proof {
                    assert(empty@ =~= Seq::<char>::empty());
                }
                Some((empty, e, false))
            },
        }
    } else {
        None
    }
}

/// A full field value: one simple value or a `#`-joined concatenation of
/// simple values, left to right.
pub open spec fn sp_value(
    s: Seq<char>,
    i: nat,
    macros: Seq<(Seq<char>, Seq<char>)>,
    fuel: nat,
) -> Option<(Seq<char>, nat, bool)>
    decreases fuel,
{
    if fuel == 0 {
        None
    } else {
        match sp_simple_value(s, i, macros) {
            None => None,
            Some((v, e, ok)) => {
                let j = sp_skip_ws(s, e);
                if j < s.len() && s[j as int] == '#' {
                    let j2 = sp_skip_ws(s, j + 1);
                    match sp_value(s, j2, macros, (fuel - 1) as nat) {
                        None => None,
                        Some((v2, e2, ok2)) => Some((v + v2, e2, ok && ok2)),
                    }
                } else {
                    Some((v, e, ok))
                }
            },
        }
    }
}

pub fn value(s: &Vec<char>, i: usize, macros: &Vec<(Vec<char>, Vec<char>)>, fuel: usize) -> (r:
    Option<(Vec<char>, usize, bool)>)
    requires
        i <= s.len(),
    ensures
        match r {
            Some(t) => sp_value(s@, i as nat, pair_views_of(macros@), fuel as nat) == Some(
                (t.0@, t.1 as nat, t.2),
            ) && i < t.1 <= s.len(),
            None => sp_value(s@, i as nat, pair_views_of(macros@), fuel as nat) is None,
        },
    decreases fuel,
{
    if fuel == 0 {
        None
    } else {
        match simple_value(s, i, macros) {
            None => None,
            Some((v, e, ok)) => {
                let j = skip_ws(s, e);
                if j < s.len() && s[j] == '#' {
                    let j2 = skip_ws(s, j + 1);
                    match value(s, j2, macros, fuel - 1) {
                        None => None,
                        Some((v2, e2, ok2)) => {
                            let ghost v0 = v@;
                            let joined = append_all(v, v2);
                            Some((joined, e2, ok && ok2))
                        },
                    }
                } else {
                    Some((v, e, ok))
                }
            },
        }
    }
}


/// The field list of one entry, parsed from the first separator after the
/// key up to the closing brace: the parsed pairs (names lower-cased), the
/// diagnostics of fields whose value referred to an undefined macro (those
/// fields are omitted), and the position after the closing brace.
pub open spec fn sp_parse_fields(
    s: Seq<char>,
    i: nat,
    macros: Seq<(Seq<char>, Seq<char>)>,
    fuel: nat,
) -> Option<(Seq<(Seq<char>, Seq<char>)>, Seq<DiagnosticV>, nat)>
    decreases fuel,
{
    if fuel == 0 {
        None
    } else {
        let j = sp_skip_ws(s, i);
        if j >= s.len() {
            None
        } else if s[j as int] == '}' {
            Some((Seq::empty(), Seq::empty(), j + 1))
        } else if s[j as int] == ',' {
            let j2 = sp_skip_ws(s, j + 1);
            if j2 >= s.len() {
                None
            } else if s[j2 as int] == '}' {
                Some((Seq::empty(), Seq::empty(), j2 + 1))
            } else {
                let ne = sp_ident_end(s, j2);
                if ne == j2 {
                    None
                } else {
                    let fname = sp_lower_seq(s.subrange(j2 as int, ne as int));
                    let j3 = sp_skip_ws(s, ne);
                    if j3 >= s.len() || s[j3 as int] != '=' {
                        None
                    } else {
                        let j4 = sp_skip_ws(s, j3 + 1);
                        match sp_value(s, j4, macros, fuel) {
                            None => None,
                            Some((v, e, ok)) => match sp_parse_fields(
                                s,
                                e,
                                macros,
                                (fuel - 1) as nat,
                            ) {
                                None => None,
                                Some((fs, ds, pe)) => if ok {
                                    Some((seq![(fname, v)] + fs, ds, pe))
                                } else {
                                    Some(
                                        (
                                            fs,
                                            seq![
                                                DiagnosticV {
                                                    pos: j4,
                                                    key: None,
                                                    reason: DiagReason::UndefinedMacro,
                                                },
                                            ] + ds,
                                            pe,
                                        ),
                                    )
                                },
                            },
                        }
                    }
                }
            }
        } else {
            None
        }
    }
}

pub fn parse_fields(s: &Vec<char>, i: usize, macros: &Vec<(Vec<char>, Vec<char>)>, fuel: usize) -> (r:
    Option<(Vec<(Vec<char>, Vec<char>)>, Vec<Diagnostic>, usize)>)
    requires
        i <= s.len(),
    ensures
        match r {
            Some(t) => sp_parse_fields(s@, i as nat, pair_views_of(macros@), fuel as nat) == Some(
                (pair_views_of(t.0@), diag_views_of(t.1@), t.2 as nat),
            ) && t.2 <= s.len(),
            None => sp_parse_fields(s@, i as nat, pair_views_of(macros@), fuel as nat) is None,
        },
    decreases fuel,
{
    if fuel == 0 {
        None
    } else {
        let j = skip_ws(s, i);
        if j >= s.len() {
            None
        } else if s[j] == '}' {
            let fs: Vec<(Vec<char>, Vec<char>)> = Vec::new();
            let ds: Vec<Diagnostic> = Vec::new();
            proof {
                assert(pair_views_of(fs@) =~= Seq::<(Seq<char>, Seq<char>)>::empty());
                assert(diag_views_of(ds@) =~= Seq::<DiagnosticV>::empty());
            }
            Some((fs, ds, j + 1))
        } else if s[j] == ',' {
            let j2 = skip_ws(s, j + 1);
            if j2 >= s.len() {
                None
            } else if s[j2] == '}' {
                let fs: Vec<(Vec<char>, Vec<char>)> = Vec::new();
                let ds: Vec<Diagnostic> = Vec::new();
                proof {
                    assert(pair_views_of(fs@) =~= Seq::<(Seq<char>, Seq<char>)>::empty());
                    assert(diag_views_of(ds@) =~= Seq::<DiagnosticV>::empty());
                }
                Some((fs, ds, j2 + 1))
            } else {
                let ne = ident_end(s, j2);
                if ne == j2 {
                    None
                } else {
                    let fname = lower_vec(&copy_range(s, j2, ne));
                    let j3 = skip_ws(s, ne);
                    if j3 >= s.len() || s[j3] != '=' {
                        None
                    } else {
                        let j4 = skip_ws(s, j3 + 1);
                        match value(s, j4, macros, fuel) {
                            None => None,
                            Some((v, e, ok)) => match parse_fields(s, e, macros, fuel - 1) {
                                None => None,
                                Some((fs, ds, pe)) => {
                                    if ok {
                                        let ghost fs0 = fs@;
                                        let mut fs = fs;
                                        fs.insert(0, (fname, v));
                                        proof {
                                            assert(pair_views_of(fs@) =~= seq![
                                                (
                                                    sp_lower_seq(
                                                        s@.subrange(j2 as int, ne as int),
                                                    ),
                                                    v@,
                                                ),
                                            ] + pair_views_of(fs0));
                                        }
                                        Some((fs, ds, pe))
                                    } else {
                                        let ghost ds0 = ds@;
                                        let mut ds = ds;
                                        ds.insert(
                                            0,
                                            Diagnostic {
                                                pos: j4,
                                                key: None,
                                                reason: DiagReason::UndefinedMacro,
                                            },
                                        );
                                        proof {
                                            assert(diag_views_of(ds@) =~= seq![
                                                DiagnosticV {
                                                    pos: j4 as nat,
                                                    key: None,
                                                    reason: DiagReason::UndefinedMacro,
                                                },
                                            ] + diag_views_of(ds0));
                                        }
                                        Some((fs, ds, pe))
                                    }
                                },
                            },
                        }
                    }
                }
            }
        } else {
            None
        }
    }
}

/// One block starting at the `@` at position `i`: a discarded comment or
/// preamble, a `@string` macro declaration (the table grows), or an entry
/// (type, key and fields). `None` is a malformed block; the caller
/// reports it and resumes at the next `@`.
pub open spec fn sp_parse_block(
    s: Seq<char>,
    i: nat,
    macros: Seq<(Seq<char>, Seq<char>)>,
    fuel: nat,
) -> Option<(nat, Seq<(Seq<char>, Seq<char>)>, Option<RawEntryV>, Seq<DiagnosticV>)> {
    let t0 = sp_skip_ws(s, i + 1);
    let te = sp_ident_end(s, t0);
    if te == t0 {
        None
    } else {
        let ty = sp_lower_seq(s.subrange(t0 as int, te as int));
        let j = sp_skip_ws(s, te);
        if ty == seq!['c', 'o', 'm', 'm', 'e', 'n', 't'] || ty == seq![
            'p',
            'r',
            'e',
            'a',
            'm',
            'b',
            'l',
            'e',
        ] {
            if j < s.len() && s[j as int] == '{' {
                match sp_braced_end(s, j + 1, 1) {
                    Some(e) => Some((e, macros, None, Seq::empty())),
                    None => None,
                }
            } else {
                None
            }
        } else if ty == seq!['s', 't', 'r', 'i', 'n', 'g'] {
            if j >= s.len() || s[j as int] != '{' {
                None
            } else {
                let j1 = sp_skip_ws(s, j + 1);
                let ne = sp_ident_end(s, j1);
                if ne == j1 {
                    None
                } else {
                    let name = sp_lower_seq(s.subrange(j1 as int, ne as int));
                    let j2 = sp_skip_ws(s, ne);
                    if j2 >= s.len() || s[j2 as int] != '=' {
                        None
                    } else {
                        let j3 = sp_skip_ws(s, j2 + 1);
                        match sp_value(s, j3, macros, fuel) {
                            None => None,
                            Some((v, e, ok)) => {
                                let j4 = sp_skip_ws(s, e);
                                if j4 < s.len() && s[j4 as int] == '}' {
                                    if ok {
                                        Some((j4 + 1, macros.push((name, v)), None, Seq::empty()))
                                    } else {
                                        Some(
                                            (
                                                j4 + 1,
                                                macros,
                                                None,
                                                seq![
                                                    DiagnosticV {
                                                        pos: j3,
                                                        key: None,
                                                        reason: DiagReason::UndefinedMacro,
                                                    },
                                                ],
                                            ),
                                        )
                                    }
                                } else {
                                    None
                                }
                            },
                        }
                    }
                }
            }
        } else {
            if j >= s.len() || s[j as int] != '{' {
                None
            } else {
                let k1 = sp_skip_ws(s, j + 1);
                let ke = sp_ident_end(s, k1);
                if ke == k1 {
                    None
                } else {
                    let key = s.subrange(k1 as int, ke as int);
                    match sp_parse_fields(s, ke, macros, fuel) {
                        None => None,
                        Some((fs, ds, pe)) => Some(
                            (
                                pe,
                                macros,
                                Some(RawEntryV { pos: i, etype: ty, key: key, fields: fs }),
                                ds,
                            ),
                        ),
                    }
                }
            }
        }
    }
}

pub fn parse_block(s: &Vec<char>, i: usize, macros: Vec<(Vec<char>, Vec<char>)>, fuel: usize) -> (r:
    Option<(usize, Vec<(Vec<char>, Vec<char>)>, Option<RawEntry>, Vec<Diagnostic>)>)
    requires
        i < s.len(),
    ensures
        match r {
            Some(t) => sp_parse_block(s@, i as nat, pair_views_of(macros@), fuel as nat)
                == Some(
                (
                    t.0 as nat,
                    pair_views_of(t.1@),
                    match t.2 {
                        Some(e) => Some(e@),
                        None => None,
                    },
                    diag_views_of(t.3@),
                ),
            ) && t.0 <= s.len(),
            None => sp_parse_block(s@, i as nat, pair_views_of(macros@), fuel as nat) is None,
        },
{
    let t0 = skip_ws(s, i + 1);
    let te = ident_end(s, t0);
    if te == t0 {
        None
    } else {
        let ty = lower_vec(&copy_range(s, t0, te));
        let j = skip_ws(s, te);
        if eq_chars(&ty, &kw_comment()) || eq_chars(&ty, &kw_preamble()) {
            if j < s.len() && s[j] == '{' {
                match braced_end(s, j + 1, 1) {
                    Some(e) => {
                        let ds: Vec<Diagnostic> = Vec::new();
                        proof {
                            assert(diag_views_of(ds@) =~= Seq::<DiagnosticV>::empty());
                        }
                        Some((e, macros, None, ds))
                    },
                    None => None,
                }
            } else {
                None
            }
        } else if eq_chars(&ty, &kw_string()) {
            if j >= s.len() || s[j] != '{' {
                None
            } else {
                let j1 = skip_ws(s, j + 1);
                let ne = ident_end(s, j1);
                if ne == j1 {
                    None
                } else {
                    let name = lower_vec(&copy_range(s, j1, ne));
                    let j2 = skip_ws(s, ne);
                    if j2 >= s.len() || s[j2] != '=' {
                        None
                    } else {
                        let j3 = skip_ws(s, j2 + 1);
                        match value(s, j3, &macros, fuel) {
                            None => None,
                            Some((v, e, ok)) => {
                                let j4 = skip_ws(s, e);
                                if j4 < s.len() && s[j4] == '}' {
                                    if ok {
                                        let ghost m0 = macros@;
                                        let mut macros = macros;
                                        macros.push((name, v));
                                        proof {
                                            assert(pair_views_of(macros@) =~= pair_views_of(
                                                m0,
                                            ).push(
                                                (
                                                    sp_lower_seq(
                                                        s@.subrange(j1 as int, ne as int),
                                                    ),
                                                    v@,
                                                ),
                                            ));
                                        }
                                        let ds: Vec<Diagnostic> = Vec::new();
                                        proof {
                                            assert(diag_views_of(ds@) =~= Seq::<
                                                DiagnosticV,
                                            >::empty());
                                        }
                                        Some((j4 + 1, macros, None, ds))
                                    } else {
                                        let mut ds: Vec<Diagnostic> = Vec::new();
                                        ds.push(
                                            Diagnostic {
                                                pos: j3,
                                                key: None,
                                                reason: DiagReason::UndefinedMacro,
                                            },
                                        );
                                        proof {
                                            assert(diag_views_of(ds@) =~= seq![
                                                DiagnosticV {
                                                    pos: j3 as nat,
                                                    key: None,
                                                    reason: DiagReason::UndefinedMacro,
                                                },
                                            ]);
                                        }
                                        Some((j4 + 1, macros, None, ds))
                                    }
                                } else {
                                    None
                                }
                            },
                        }
                    }
                }
            }
        } else {
            if j >= s.len() || s[j] != '{' {
                None
            } else {
                let k1 = skip_ws(s, j + 1);
                let ke = ident_end(s, k1);
                if ke == k1 {
                    None
                } else {
                    let key = copy_range(s, k1, ke);
                    match parse_fields(s, ke, &macros, fuel) {
                        None => None,
                        Some((fs, ds, pe)) => {
                            let ent = RawEntry { pos: i, etype: ty, key: key, fields: fs };
                            Some((pe, macros, Some(ent), ds))
                        },
                    }
                }
            }
        }
    }
}


/// A copy of the macro or field pair list.
pub fn copy_pairs(ps: &Vec<(Vec<char>, Vec<char>)>) -> (r: Vec<(Vec<char>, Vec<char>)>)
    ensures
        pair_views_of(r@) == pair_views_of(ps@),
{
    let mut r: Vec<(Vec<char>, Vec<char>)> = Vec::new();
    let mut i: usize = 0;
    while i < ps.len()
        invariant
            i <= ps.len(),
            pair_views_of(r@) == pair_views_of(ps@.subrange(0, i as int)),
        decreases ps.len() - i,
    {
        let ghost r0 = r@;
        let n = copy_range(&ps[i].0, 0, ps[i].0.len());
        let v = copy_range(&ps[i].1, 0, ps[i].1.len());
        proof {
            assert(n@ =~= ps@[i as int].0@);
            assert(v@ =~= ps@[i as int].1@);
        }
        r.push((n, v));
        proof {
            assert(pair_views_of(r@) =~= pair_views_of(r0).push(
                (ps@[i as int].0@, ps@[i as int].1@),
            ));
            assert(pair_views_of(r@) =~= pair_views_of(ps@.subrange(0, i + 1 as int)));
        }
        i += 1;
    }
    proof {
        assert(ps@.subrange(0, ps@.len() as int) =~= ps@);
        assert(pair_views_of(r@) =~= pair_views_of(ps@));
    }
    r
}

/// The whole document: comment text is skipped up to each `@`, each block
/// is parsed, and a malformed block leaves one diagnostic and parsing
/// resumes at the next `@`. The result is the raw entries and the
/// parse-phase diagnostics, both in source order.
pub open spec fn sp_parse_all(
    s: Seq<char>,
    i: nat,
    macros: Seq<(Seq<char>, Seq<char>)>,
    fuel: nat,
) -> (Seq<RawEntryV>, Seq<DiagnosticV>)
    decreases fuel,
{
    if fuel == 0 {
        (Seq::empty(), Seq::empty())
    } else {
        let j = sp_scan_at(s, i);
        if j >= s.len() {
            (Seq::empty(), Seq::empty())
        } else {
            match sp_parse_block(s, j, macros, fuel) {
                Some((pe, m2, oent, ds)) => {
                    let rest = sp_parse_all(s, pe, m2, (fuel - 1) as nat);
                    (
                        match oent {
                            Some(e) => seq![e] + rest.0,
                            None => rest.0,
                        },
                        ds + rest.1,
                    )
                },
                None => {
                    let rest = sp_parse_all(s, j + 1, macros, (fuel - 1) as nat);
                    (
                        rest.0,
                        seq![
                            DiagnosticV { pos: j, key: None, reason: DiagReason::MalformedBlock },
                        ] + rest.1,
                    )
                },
            }
        }
    }
}

pub fn parse_all(s: &Vec<char>, i: usize, macros: Vec<(Vec<char>, Vec<char>)>, fuel: usize) -> (r: (
    Vec<RawEntry>,
    Vec<Diagnostic>,
))
    requires
        i <= s.len(),
    ensures
        (raw_views_of(r.0@), diag_views_of(r.1@)) == sp_parse_all(
            s@,
            i as nat,
            pair_views_of(macros@),
            fuel as nat,
        ),
    decreases fuel,
{
    if fuel == 0 {
        let re: Vec<RawEntry> = Vec::new();
        let rd: Vec<Diagnostic> = Vec::new();
        proof {
            assert(raw_views_of(re@) =~= Seq::<RawEntryV>::empty());
            assert(diag_views_of(rd@) =~= Seq::<DiagnosticV>::empty());
        }
        (re, rd)
    } else {
        let j = scan_at(s, i);
        if j >= s.len() {
            let re: Vec<RawEntry> = Vec::new();
            let rd: Vec<Diagnostic> = Vec::new();
            proof {
                assert(raw_views_of(re@) =~= Seq::<RawEntryV>::empty());
                assert(diag_views_of(rd@) =~= Seq::<DiagnosticV>::empty());
            }
            (re, rd)
        } else {
            let mcopy = copy_pairs(&macros);
            match parse_block(s, j, mcopy, fuel) {
                Some((pe, m2, oent, ds)) => {
                    let (rest_e, rest_d) = parse_all(s, pe, m2, fuel - 1);
                    let ghost re0 = rest_e@;
                    let entries = match oent {
                        Some(e) => {
                            let mut rest_e = rest_e;
                            rest_e.insert(0, e);
                            proof {
                                assert(raw_views_of(rest_e@) =~= seq![rest_e@[0]@] + raw_views_of(
                                    re0,
                                ));
                            }
                            rest_e
                        },
                        None => rest_e,
                    };
                    let ghost ds0 = ds@;
                    let ghost rd0 = rest_d@;
                    let diags = append_all(ds, rest_d);
                    proof {
                        assert(diag_views_of(diags@) =~= diag_views_of(ds0) + diag_views_of(rd0));
                    }
                    (entries, diags)
                },
                None => {
                    let (rest_e, rest_d) = parse_all(s, j + 1, macros, fuel - 1);
                    let ghost rd0 = rest_d@;
                    let mut rest_d = rest_d;
                    rest_d.insert(
                        0,
                        Diagnostic { pos: j, key: None, reason: DiagReason::MalformedBlock },
                    );
                    proof {
                        assert(diag_views_of(rest_d@) =~= seq![
                            DiagnosticV {
                                pos: j as nat,
                                key: None,
                                reason: DiagReason::MalformedBlock,
                            },
                        ] + diag_views_of(rd0));
                    }
                    (rest_e, rest_d)
                },
            }
        }
    }
}


/// Whether one of the first `upto` entries already uses this lower-cased
/// key.
pub open spec fn sp_has_key(es: Seq<RawEntryV>, key_lc: Seq<char>, upto: nat) -> bool
    decreases upto,
{
    if upto == 0 || upto > es.len() {
        false
    } else if sp_lower_seq(es[upto - 1].key) == key_lc {
        true
    } else {
        sp_has_key(es, key_lc, (upto - 1) as nat)
    }
}

pub fn has_key(es: &Vec<RawEntry>, key_lc: &Vec<char>, upto: usize) -> (r: bool)
    requires
        upto <= es.len(),
    ensures
        r == sp_has_key(raw_views_of(es@), key_lc@, upto as nat),
    decreases upto,
{
    proof {
        assert(raw_views_of(es@).len() == es@.len());
        if upto > 0 {
            assert(raw_views_of(es@)[upto - 1] == es@[upto - 1]@);
        }
    }
    if upto == 0 {
        false
    } else if eq_chars(&lower_vec(&es[upto - 1].key), key_lc) {
        true
    } else {
        has_key(es, key_lc, upto - 1)
    }
}

/// The first entry whose lower-cased key equals `key_lc`, scanning from
/// index `j`.
pub open spec fn sp_find_key(es: Seq<RawEntryV>, key_lc: Seq<char>, j: nat) -> Option<nat>
    decreases es.len() - j,
{
    if j >= es.len() {
        None
    } else if sp_lower_seq(es[j as int].key) == key_lc {
        Some(j)
    } else {
        sp_find_key(es, key_lc, j + 1)
    }
}

pub fn find_key(es: &Vec<RawEntry>, key_lc: &Vec<char>, j: usize) -> (r: Option<usize>)
    requires
        j <= es.len(),
    ensures
        match r {
            Some(x) => Some(x as nat) == sp_find_key(raw_views_of(es@), key_lc@, j as nat) && x
                < es.len(),
            None => sp_find_key(raw_views_of(es@), key_lc@, j as nat) is None,
        },
    decreases es.len() - j,
{
    proof {
        assert(raw_views_of(es@).len() == es@.len());
        if j < es.len() {
            assert(raw_views_of(es@)[j as int] == es@[j as int]@);
        }
    }
    if j >= es.len() {
        None
    } else if eq_chars(&lower_vec(&es[j].key), key_lc) {
        Some(j)
    } else {
        find_key(es, key_lc, j + 1)
    }
}

/// A deep copy of a raw entry.
pub fn copy_raw(e: &RawEntry) -> (r: RawEntry)
    ensures
        r@ == e@,
{
    let r = RawEntry {
        pos: e.pos,
        etype: copy_range(&e.etype, 0, e.etype.len()),
        key: copy_range(&e.key, 0, e.key.len()),
        fields: copy_pairs(&e.fields),
    };
    proof {
        assert(r.etype@ =~= e.etype@);
        assert(r.key@ =~= e.key@);
    }
    r
}

/// Keeps the first entry of each key (letter case disregarded) and
/// reports each later entry with the same key.
pub open spec fn sp_dedup(
    es: Seq<RawEntryV>,
    i: nat,
    acc_e: Seq<RawEntryV>,
    acc_d: Seq<DiagnosticV>,
) -> (Seq<RawEntryV>, Seq<DiagnosticV>)
    decreases es.len() - i,
{
    if i >= es.len() {
        (acc_e, acc_d)
    } else if sp_has_key(acc_e, sp_lower_seq(es[i as int].key), acc_e.len()) {
        sp_dedup(
            es,
            i + 1,
            acc_e,
            acc_d.push(
                DiagnosticV {
                    pos: es[i as int].pos,
                    key: Some(es[i as int].key),
                    reason: DiagReason::DuplicateKey,
                },
            ),
        )
    } else {
        sp_dedup(es, i + 1, acc_e.push(es[i as int]), acc_d)
    }
}

pub fn dedup(es: &Vec<RawEntry>, i: usize, acc_e: Vec<RawEntry>, acc_d: Vec<Diagnostic>) -> (r: (
    Vec<RawEntry>,
    Vec<Diagnostic>,
))
    requires
        i <= es.len(),
    ensures
        (raw_views_of(r.0@), diag_views_of(r.1@)) == sp_dedup(
            raw_views_of(es@),
            i as nat,
            raw_views_of(acc_e@),
            diag_views_of(acc_d@),
        ),
    decreases es.len() - i,
{
    proof {
        assert(raw_views_of(es@).len() == es@.len());
        assert(raw_views_of(acc_e@).len() == acc_e@.len());
        if i < es.len() {
            assert(raw_views_of(es@)[i as int] == es@[i as int]@);
        }
    }
    if i >= es.len() {
        (acc_e, acc_d)
    } else if has_key(&acc_e, &lower_vec(&es[i].key), acc_e.len()) {
        let ghost d0 = acc_d@;
        let mut acc_d = acc_d;
        acc_d.push(
            Diagnostic {
                pos: es[i].pos,
                key: Some(chars_to_string(&es[i].key)),
                reason: DiagReason::DuplicateKey,
            },
        );
        proof {
            assert(diag_views_of(acc_d@) =~= diag_views_of(d0).push(
                DiagnosticV {
                    pos: es@[i as int].pos as nat,
                    key: Some(es@[i as int].key@),
                    reason: DiagReason::DuplicateKey,
                },
            ));
        }
        dedup(es, i + 1, acc_e, acc_d)
    } else {
        let ghost e0 = acc_e@;
        let mut acc_e = acc_e;
        acc_e.push(copy_raw(&es[i]));
        proof {
            assert(raw_views_of(acc_e@) =~= raw_views_of(e0).push(es@[i as int]@));
        }
        dedup(es, i + 1, acc_e, acc_d)
    }
}

/// The child's fields with the parent's unset fields appended. The parent
/// is walked from its last pair down, so the value a child inherits for a
/// name is the one the parent's own lookup yields.
pub open spec fn sp_inherit(
    child: Seq<(Seq<char>, Seq<char>)>,
    parent: Seq<(Seq<char>, Seq<char>)>,
    j: nat,
) -> Seq<(Seq<char>, Seq<char>)>
    decreases j,
{
    if j == 0 || j > parent.len() {
        child
    } else if sp_lookup(child, parent[j - 1].0) is None {
        sp_inherit(child.push(parent[j - 1]), parent, (j - 1) as nat)
    } else {
        sp_inherit(child, parent, (j - 1) as nat)
    }
}

pub fn inherit(child: Vec<(Vec<char>, Vec<char>)>, parent: &Vec<(Vec<char>, Vec<char>)>, j: usize) -> (r:
    Vec<(Vec<char>, Vec<char>)>)
    requires
        j <= parent.len(),
    ensures
        pair_views_of(r@) == sp_inherit(pair_views_of(child@), pair_views_of(parent@), j as nat),
    decreases j,
{
    proof {
        assert(pair_views_of(parent@).len() == parent@.len());
        if j > 0 {
            assert(pair_views_of(parent@)[j - 1] == (parent@[j - 1].0@, parent@[j - 1].1@));
        }
    }
    if j == 0 {
        child
    } else {
        let name = copy_range(&parent[j - 1].0, 0, parent[j - 1].0.len());
        let val = copy_range(&parent[j - 1].1, 0, parent[j - 1].1.len());
        proof {
            assert(name@ =~= parent@[j - 1].0@);
            assert(val@ =~= parent@[j - 1].1@);
        }
        match lookup(&child, &name) {
            None => {
                let ghost c0 = child@;
                let mut child = child;
                child.push((name, val));
                proof {
                    assert(pair_views_of(child@) =~= pair_views_of(c0).push(
                        (parent@[j - 1].0@, parent@[j - 1].1@),
                    ));
                }
                inherit(child, parent, j - 1)
            },
            Some(_) => inherit(child, parent, j - 1),
        }
    }
}

/// Resolves the `crossref` field of each entry against the whole entry
/// list: the referenced entry's fields fill the gaps of the referring
/// entry; a reference to no known key is reported and the entry is kept
/// as it stands. Fields the entry already has are never overwritten.
pub open spec fn sp_resolve(
    all: Seq<RawEntryV>,
    i: nat,
    acc_e: Seq<RawEntryV>,
    acc_d: Seq<DiagnosticV>,
) -> (Seq<RawEntryV>, Seq<DiagnosticV>)
    decreases all.len() - i,
{
    if i >= all.len() {
        (acc_e, acc_d)
    } else {
        let e = all[i as int];
        match sp_lookup(e.fields, seq!['c', 'r', 'o', 's', 's', 'r', 'e', 'f']) {
            None => sp_resolve(all, i + 1, acc_e.push(e), acc_d),
            Some(rv) => match sp_find_key(all, sp_lower_seq(rv), 0) {
                None => sp_resolve(
                    all,
                    i + 1,
                    acc_e.push(e),
                    acc_d.push(
                        DiagnosticV {
                            pos: e.pos,
                            key: Some(e.key),
                            reason: DiagReason::UnknownCrossref,
                        },
                    ),
                ),
                Some(ti) => {
                    let e2 = RawEntryV {
                        pos: e.pos,
                        etype: e.etype,
                        key: e.key,
                        fields: sp_inherit(
                            e.fields,
                            all[ti as int].fields,
                            all[ti as int].fields.len(),
                        ),
                    };
                    sp_resolve(all, i + 1, acc_e.push(e2), acc_d)
                },
            },
        }
    }
}

pub fn resolve(all: &Vec<RawEntry>, i: usize, acc_e: Vec<RawEntry>, acc_d: Vec<Diagnostic>) -> (r: (
    Vec<RawEntry>,
    Vec<Diagnostic>,
))
    requires
        i <= all.len(),
    ensures
        (raw_views_of(r.0@), diag_views_of(r.1@)) == sp_resolve(
            raw_views_of(all@),
            i as nat,
            raw_views_of(acc_e@),
            diag_views_of(acc_d@),
        ),
    decreases all.len() - i,
{
    proof {
        assert(raw_views_of(all@).len() == all@.len());
        if i < all.len() {
            assert(raw_views_of(all@)[i as int] == all@[i as int]@);
        }
    }
    if i >= all.len() {
        (acc_e, acc_d)
    } else {
        let e = copy_raw(&all[i]);
        match lookup(&e.fields, &kw_crossref()) {
            None => {
                let ghost e0 = acc_e@;
                let mut acc_e = acc_e;
                acc_e.push(e);
                proof {
                    assert(raw_views_of(acc_e@) =~= raw_views_of(e0).push(all@[i as int]@));
                }
                resolve(all, i + 1, acc_e, acc_d)
            },
            Some(rv) => {
                let rk = lower_vec(&rv);
                match find_key(all, &rk, 0) {
                    None => {
                        let ghost e0 = acc_e@;
                        let ghost d0 = acc_d@;
                        let mut acc_e = acc_e;
                        let mut acc_d = acc_d;
                        acc_d.push(
                            Diagnostic {
                                pos: e.pos,
                                key: Some(chars_to_string(&e.key)),
                                reason: DiagReason::UnknownCrossref,
                            },
                        );
                        acc_e.push(e);
                        proof {
                            assert(raw_views_of(acc_e@) =~= raw_views_of(e0).push(
                                all@[i as int]@,
                            ));
                            assert(diag_views_of(acc_d@) =~= diag_views_of(d0).push(
                                DiagnosticV {
                                    pos: all@[i as int]@.pos,
                                    key: Some(all@[i as int]@.key),
                                    reason: DiagReason::UnknownCrossref,
                                },
                            ));
                        }
                        resolve(all, i + 1, acc_e, acc_d)
                    },
                    Some(ti) => {
                        let fields2 = inherit(e.fields, &all[ti].fields, all[ti].fields.len());
                        proof {
                            assert(raw_views_of(all@)[ti as int] == all@[ti as int]@);
                        }
                        let e2 = RawEntry { pos: e.pos, etype: e.etype, key: e.key, fields: fields2 };
                        let ghost e0 = acc_e@;
                        let mut acc_e = acc_e;
                        acc_e.push(e2);
                        proof {
                            assert(raw_views_of(acc_e@) =~= raw_views_of(e0).push(acc_e@.last()@));
                        }
                        resolve(all, i + 1, acc_e, acc_d)
                    },
                }
            },
        }
    }
}

} // verus!
