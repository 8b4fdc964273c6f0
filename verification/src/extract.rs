//! The extractor: one resolved raw entry either becomes a complete
//! public entry or is skipped with a reason. `title` is checked first,
//! then `year`; the year is the leading ASCII digit run of the rendered
//! field value and must name a number up to four digits long after
//! leading zeros. An `author` field yields the formatted name list, and
//! an author field whose parse finds nobody is treated as absent.
use crate::diag::{diag_views_of, DiagReason, Diagnostic, DiagnosticV};
use crate::entries::{lookup, pair_views_of, raw_views_of, sp_lookup, RawEntry, RawEntryV};
use crate::latex::{render, sp_render};
use crate::names::{format_name, parse_names_vec, sp_format_name, sp_parse_names, PersonName, PersonNameV};
use crate::scan::{
    digit_val, digits_end, sp_digit_val, sp_digits_end, sp_is_digit, sp_zeros_end, zeros_end,
};
use crate::text::{chars_to_string, str_views_of};
use crate::{Entry, EntryV};
use vstd::prelude::*;

verus! {

/// The word `title`.
pub fn kw_title() -> (r: Vec<char>)
    ensures
        r@ == seq!['t', 'i', 't', 'l', 'e'],
{
    let mut v: Vec<char> = Vec::new();
    v.push('t');
    v.push('i');
    v.push('t');
    v.push('l');
    v.push('e');
    proof {
        assert(v@ =~= seq!['t', 'i', 't', 'l', 'e']);
    }
    v
}

/// The word `year`.
pub fn kw_year() -> (r: Vec<char>)
    ensures
        r@ == seq!['y', 'e', 'a', 'r'],
{
    let mut v: Vec<char> = Vec::new();
    v.push('y');
    v.push('e');
    v.push('a');
    v.push('r');
    proof {
        assert(v@ =~= seq!['y', 'e', 'a', 'r']);
    }
    v
}

/// The word `author`.
pub fn kw_author() -> (r: Vec<char>)
    ensures
        r@ == seq!['a', 'u', 't', 'h', 'o', 'r'],
{
    let mut v: Vec<char> = Vec::new();
    v.push('a');
    v.push('u');
    v.push('t');
    v.push('h');
    v.push('o');
    v.push('r');
    proof {
        assert(v@ =~= seq!['a', 'u', 't', 'h', 'o', 'r']);
    }
    v
}

/// The word `booktitle`.
pub fn kw_booktitle() -> (r: Vec<char>)
    ensures
        r@ == seq!['b', 'o', 'o', 'k', 't', 'i', 't', 'l', 'e'],
{
    let mut v: Vec<char> = Vec::new();
    v.push('b');
    v.push('o');
    v.push('o');
    v.push('k');
    v.push('t');
    v.push('i');
    v.push('t');
    v.push('l');
    v.push('e');
    proof {
        assert(v@ =~= seq!['b', 'o', 'o', 'k', 't', 'i', 't', 'l', 'e']);
    }
    v
}

/// The word `series`.
pub fn kw_series() -> (r: Vec<char>)
    ensures
        r@ == seq!['s', 'e', 'r', 'i', 'e', 's'],
{
    let mut v: Vec<char> = Vec::new();
    v.push('s');
    v.push('e');
    v.push('r');
    v.push('i');
    v.push('e');
    v.push('s');
    proof {
        assert(v@ =~= seq!['s', 'e', 'r', 'i', 'e', 's']);
    }
    v
}

/// The word `note`.
pub fn kw_note() -> (r: Vec<char>)
    ensures
        r@ == seq!['n', 'o', 't', 'e'],
{
    let mut v: Vec<char> = Vec::new();
    v.push('n');
    v.push('o');
    v.push('t');
    v.push('e');
    proof {
        assert(v@ =~= seq!['n', 'o', 't', 'e']);
    }
    v
}

/// The word `_slides`.
pub fn kw_slides() -> (r: Vec<char>)
    ensures
        r@ == seq!['_', 's', 'l', 'i', 'd', 'e', 's'],
{
    let mut v: Vec<char> = Vec::new();
    v.push('_');
    v.push('s');
    v.push('l');
    v.push('i');
    v.push('d');
    v.push('e');
    v.push('s');
    proof {
        assert(v@ =~= seq!['_', 's', 'l', 'i', 'd', 'e', 's']);
    }
    v
}

/// The word `_pdf`.
pub fn kw_pdf() -> (r: Vec<char>)
    ensures
        r@ == seq!['_', 'p', 'd', 'f'],
{
    let mut v: Vec<char> = Vec::new();
    v.push('_');
    v.push('p');
    v.push('d');
    v.push('f');
    proof {
        assert(v@ =~= seq!['_', 'p', 'd', 'f']);
    }
    v
}

/// The number a digit sequence names, most significant digit first.
pub open spec fn sp_digits_val(s: Seq<char>) -> nat
    decreases s.len(),
{
    if s.len() == 0 {
        0
    } else {
        sp_digits_val(s.drop_last()) * 10 + sp_digit_val(s.last())
    }
}

/// Ten to the given power.
pub open spec fn sp_pow10(n: nat) -> nat
    decreases n,
{
    if n == 0 {
        1
    } else {
        10 * sp_pow10((n - 1) as nat)
    }
}

/// A run of digits names a number below ten to its length.
pub proof fn lemma_digits_val_bound(s: Seq<char>)
    requires
        forall|j: int| 0 <= j < s.len() ==> sp_is_digit(s[j]),
    ensures
        sp_digits_val(s) < sp_pow10(s.len()),
    decreases s.len(),
{
    if s.len() == 0 {
    } else {
        lemma_digits_val_bound(s.drop_last());
        assert(sp_is_digit(s.last()));
        assert(sp_digit_val(s.last()) <= 9);
    }
}

pub fn digits_val(s: &Vec<char>, from: usize, to: usize) -> (r: u16)
    requires
        from <= to <= s.len(),
        to - from <= 4,
        forall|j: int| from <= j < to ==> sp_is_digit(s@[j]),
    ensures
        r == sp_digits_val(s@.subrange(from as int, to as int)),
        r <= 9999,
{
    proof {
        reveal_with_fuel(sp_pow10, 5);
    }
    let mut val: u16 = 0;
    let mut i: usize = from;
    while i < to
        invariant
            from <= i <= to <= s.len(),
            to - from <= 4,
            forall|j: int| from <= j < to ==> sp_is_digit(s@[j]),
            val == sp_digits_val(s@.subrange(from as int, i as int)),
            val < sp_pow10((i - from) as nat),
            val <= 9999,
        decreases to - i,
    {
        proof {
            reveal_with_fuel(sp_pow10, 5);
            lemma_digits_val_bound(s@.subrange(from as int, i as int));
            assert(s@.subrange(from as int, i + 1 as int).drop_last() =~= s@.subrange(
                from as int,
                i as int,
            ));
            assert(s@.subrange(from as int, i + 1 as int).last() == s@[i as int]);
        }
        let d = digit_val(s[i]);
        val = val * 10 + d;
        i += 1;
    }
    val
}

/// The year named by a rendered field value: the leading ASCII digit run,
/// which after leading zeros must be at most four digits, so the year
/// lies between zero and nine thousand nine hundred ninety-nine.
pub open spec fn sp_year_of(rendered: Seq<char>) -> Option<u16> {
    let e = sp_digits_end(rendered, 0);
    if e == 0 {
        None
    } else {
        let z = sp_zeros_end(rendered, 0, e);
        if e - z > 4 {
            None
        } else {
            Some(sp_digits_val(rendered.subrange(z as int, e as int)) as u16)
        }
    }
}

pub fn year_of(rendered: &Vec<char>) -> (r: Option<u16>)
    ensures
        r == sp_year_of(rendered@),
{
    let e = digits_end(rendered, 0);
    if e == 0 {
        None
    } else {
        let z = zeros_end(rendered, 0, e);
        if e - z > 4 {
            None
        } else {
            proof {
                assert forall|j: int| z <= j < e implies sp_is_digit(rendered@[j]) by {
                    lemma_digit_run(rendered@, 0, j, e as nat);
                }
            }
            let v = digits_val(rendered, z, e);
            Some(v)
        }
    }
}

/// Every position before the end of a digit run holds a digit.
pub proof fn lemma_digit_run(s: Seq<char>, i: nat, j: int, e: nat)
    requires
        e == sp_digits_end(s, i),
        i <= j < e,
    ensures
        sp_is_digit(s[j]),
    decreases e - i,
{
    if i < e {
        if j > i {
            lemma_digit_run(s, i + 1, j, e);
        }
    }
}

/// The rendered value of a field, when the field is present.
pub open spec fn sp_opt_field(e: RawEntryV, name: Seq<char>) -> Option<Seq<char>> {
    match sp_lookup(e.fields, name) {
        None => None,
        Some(v) => Some(sp_render(v)),
    }
}

/// Either the complete public entry built from one resolved raw entry, or
/// the reason the entry is skipped: a missing `title`, or a missing or
/// invalid `year`, checked in that order.
pub open spec fn sp_extract(e: RawEntryV) -> Result<EntryV, DiagReason> {
    match sp_lookup(e.fields, seq!['t', 'i', 't', 'l', 'e']) {
        None => Err(DiagReason::MissingTitle),
        Some(t) => match sp_lookup(e.fields, seq!['y', 'e', 'a', 'r']) {
            None => Err(DiagReason::MissingOrInvalidYear),
            Some(y) => match sp_year_of(sp_render(y)) {
                None => Err(DiagReason::MissingOrInvalidYear),
                Some(yr) => Ok(
                    EntryV {
                        key: e.key,
                        title: sp_render(t),
                        authors: match sp_lookup(e.fields, seq!['a', 'u', 't', 'h', 'o', 'r']) {
                            None => None,
                            Some(a) => {
                                let ns = sp_parse_names(a);
                                if ns.len() == 0 {
                                    None
                                } else {
                                    Some(ns.map_values(|p: PersonNameV| sp_format_name(p)))
                                }
                            },
                        },
                        booktitle: sp_opt_field(
                            e,
                            seq!['b', 'o', 'o', 'k', 't', 'i', 't', 'l', 'e'],
                        ),
                        series: sp_opt_field(e, seq!['s', 'e', 'r', 'i', 'e', 's']),
                        note: sp_opt_field(e, seq!['n', 'o', 't', 'e']),
                        slides: sp_opt_field(e, seq!['_', 's', 'l', 'i', 'd', 'e', 's']),
                        pdf: sp_opt_field(e, seq!['_', 'p', 'd', 'f']),
                        year: yr,
                    },
                ),
            },
        },
    }
}

/// The rendered value of a field as a string, when present.
fn opt_field(e: &RawEntry, name: &Vec<char>) -> (r: Option<String>)
    ensures
        match r {
            Some(v) => sp_opt_field(e@, name@) == Some(v@),
            None => sp_opt_field(e@, name@) is None,
        },
{
    match lookup(&e.fields, name) {
        None => None,
        Some(v) => Some(chars_to_string(&render(&v))),
    }
}

pub fn extract_one(e: &RawEntry) -> (r: Result<Entry, DiagReason>)
    ensures
        match r {
            Ok(en) => sp_extract(e@) == Ok::<EntryV, DiagReason>(en@),
            Err(why) => sp_extract(e@) == Err::<EntryV, DiagReason>(why),
        },
{
    match lookup(&e.fields, &kw_title()) {
        None => Err(DiagReason::MissingTitle),
        Some(t) => match lookup(&e.fields, &kw_year()) {
            None => Err(DiagReason::MissingOrInvalidYear),
            Some(y) => match year_of(&render(&y)) {
                None => Err(DiagReason::MissingOrInvalidYear),
                Some(yr) => {
                    let authors: Option<Vec<String>> = match lookup(&e.fields, &kw_author()) {
                        None => None,
                        Some(a) => {
                            let ns = parse_names_vec(&a);
                            if ns.len() == 0 {
                                proof {
                                    assert(ns@.map_values(|p: PersonName| p@).len() == 0);
                                }
                                None
                            } else {
                                let ghost sns = sp_parse_names(a@);
                                proof {
                                    assert(ns@.map_values(|p: PersonName| p@).len() == ns@.len());
                                }
                                let mut out: Vec<String> = Vec::new();
                                let mut i: usize = 0;
                                while i < ns.len()
                                    invariant
                                        i <= ns.len(),
                                        ns@.map_values(|p: PersonName| p@) == sns,
                                        ns@.len() == sns.len(),
                                        str_views_of(out@) == sns.subrange(0, i as int).map_values(
                                            |p: PersonNameV| sp_format_name(p),
                                        ),
                                    decreases ns.len() - i,
                                {
                                    let ghost o0 = out@;
                                    out.push(format_name(&ns[i]));
                                    proof {
                                        assert(ns@.map_values(|p: PersonName| p@)[i as int] == ns@[
                                            i as int
                                        ]@);
                                        assert(str_views_of(out@) =~= str_views_of(o0).push(
                                            sp_format_name(sns[i as int]),
                                        ));
                                        assert(str_views_of(out@) =~= sns.subrange(
                                            0,
                                            i + 1 as int,
                                        ).map_values(|p: PersonNameV| sp_format_name(p)));
                                    }
                                    i += 1;
                                }
                                proof {
                                    assert(sns.subrange(0, sns.len() as int) =~= sns);
                                    assert(str_views_of(out@) =~= sns.map_values(
                                        |p: PersonNameV| sp_format_name(p),
                                    ));
                                }
                                Some(out)
                            }
                        },
                    };
                    Ok(
                        Entry {
                            key: chars_to_string(&e.key),
                            title: chars_to_string(&render(&t)),
                            authors: authors,
                            booktitle: opt_field(e, &kw_booktitle()),
                            series: opt_field(e, &kw_series()),
                            note: opt_field(e, &kw_note()),
                            slides: opt_field(e, &kw_slides()),
                            pdf: opt_field(e, &kw_pdf()),
                            year: yr,
                        },
                    )
                },
            },
        },
    }
}

/// Every raw entry either joins the output or leaves exactly one
/// diagnostic carrying its key and the reason.
pub open spec fn sp_extract_all(
    es: Seq<RawEntryV>,
    i: nat,
    acc_e: Seq<EntryV>,
    acc_d: Seq<DiagnosticV>,
) -> (Seq<EntryV>, Seq<DiagnosticV>)
    decreases es.len() - i,
{
    if i >= es.len() {
        (acc_e, acc_d)
    } else {
        match sp_extract(es[i as int]) {
            Ok(en) => sp_extract_all(es, i + 1, acc_e.push(en), acc_d),
            Err(why) => sp_extract_all(
                es,
                i + 1,
                acc_e,
                acc_d.push(
                    DiagnosticV { pos: es[i as int].pos, key: Some(es[i as int].key), reason: why },
                ),
            ),
        }
    }
}

pub fn extract_all(es: &Vec<RawEntry>, i: usize, acc_e: Vec<Entry>, acc_d: Vec<Diagnostic>) -> (r: (
    Vec<Entry>,
    Vec<Diagnostic>,
))
    requires
        i <= es.len(),
    ensures
        (crate::entry_views_of(r.0@), diag_views_of(r.1@)) == sp_extract_all(
            raw_views_of(es@),
            i as nat,
            crate::entry_views_of(acc_e@),
            diag_views_of(acc_d@),
        ),
    decreases es.len() - i,
{
    proof {
        assert(raw_views_of(es@).len() == es@.len());
        if i < es.len() {
            assert(raw_views_of(es@)[i as int] == es@[i as int]@);
        }
    }
    if i >= es.len() {
        (acc_e, acc_d)
    } else {
        match extract_one(&es[i]) {
            Ok(en) => {
                let ghost e0 = acc_e@;
                let mut acc_e = acc_e;
                acc_e.push(en);
                proof {
                    assert(crate::entry_views_of(acc_e@) =~= crate::entry_views_of(e0).push(
                        acc_e@.last()@,
                    ));
                }
                extract_all(es, i + 1, acc_e, acc_d)
            },
            Err(why) => {
                let ghost d0 = acc_d@;
                let mut acc_d = acc_d;
                acc_d.push(
                    Diagnostic {
                        pos: es[i].pos,
                        key: Some(chars_to_string(&es[i].key)),
                        reason: why,
                    },
                );
                proof {
                    assert(diag_views_of(acc_d@) =~= diag_views_of(d0).push(
                        DiagnosticV {
                            pos: es@[i as int].pos as nat,
                            key: Some(es@[i as int].key@),
                            reason: why,
                        },
                    ));
                }
                extract_all(es, i + 1, acc_e, acc_d)
            },
        }
    }
}

} // verus!
