//! The library's general laws, stated over the specification functions
//! that the executable pipeline is proved to compute: determinism of the
//! whole parse, the accounting of skipped entries against diagnostics,
//! the exact skip conditions of the extractor, the no-overwrite guarantee
//! of cross-reference inheritance, and the transparency of the renderer
//! on plain text.
use crate::diag::{DiagReason, DiagnosticV};
use crate::entries::{sp_inherit, sp_lookup, sp_lookup_at, RawEntryV};
use crate::extract::{
    sp_digits_val, sp_extract, sp_extract_all, sp_year_of,
};
use crate::latex::{sp_render, sp_render_from, FUEL};
use crate::scan::{sp_digits_end, sp_is_digit, sp_zeros_end};
use crate::sp_parse;
use crate::EntryV;
use vstd::prelude::*;

verus! {

/// Parsing is deterministic: the same input text always yields the same
/// entries and the same diagnostics. The executable `parse` is pinned to
/// `sp_parse`, so two calls on equal texts return equal results.
pub proof fn lemma_parse_deterministic(a: Seq<char>, b: Seq<char>)
    requires
        a == b,
    ensures
        sp_parse(a) == sp_parse(b),
{
}

/// Every raw entry the extractor sees either becomes one output entry or
/// leaves exactly one diagnostic: none is dropped silently.
pub proof fn lemma_extract_accounts_from(
    es: Seq<RawEntryV>,
    i: nat,
    acc_e: Seq<EntryV>,
    acc_d: Seq<DiagnosticV>,
)
    requires
        i <= es.len(),
    ensures
        sp_extract_all(es, i, acc_e, acc_d).0.len() + sp_extract_all(es, i, acc_e, acc_d).1.len()
            == acc_e.len() + acc_d.len() + (es.len() - i),
    decreases es.len() - i,
{
    if i < es.len() {
        match sp_extract(es[i as int]) {
            Ok(en) => {
                lemma_extract_accounts_from(es, i + 1, acc_e.push(en), acc_d);
            },
            Err(why) => {
                lemma_extract_accounts_from(
                    es,
                    i + 1,
                    acc_e,
                    acc_d.push(
                        DiagnosticV {
                            pos: es[i as int].pos,
                            key: Some(es[i as int].key),
                            reason: why,
                        },
                    ),
                );
            },
        }
    }
}

/// The extractor's accounting for a whole entry list.
pub proof fn lemma_extract_accounts(es: Seq<RawEntryV>)
    ensures
        sp_extract_all(es, 0, Seq::empty(), Seq::empty()).0.len() + sp_extract_all(
            es,
            0,
            Seq::empty(),
            Seq::empty(),
        ).1.len() == es.len(),
{
    lemma_extract_accounts_from(es, 0, Seq::empty(), Seq::empty());
}

/// An entry is skipped for a missing title exactly when its field list
/// has no `title`, and that check comes first.
pub proof fn lemma_missing_title(e: RawEntryV)
    ensures
        sp_extract(e) == Err::<EntryV, DiagReason>(DiagReason::MissingTitle) <==> sp_lookup(
            e.fields,
            seq!['t', 'i', 't', 'l', 'e'],
        ) is None,
{
}

/// With a title present, an entry is skipped exactly when its `year`
/// field is absent or its rendered value has no usable leading digit run;
/// otherwise the extraction succeeds. Skipping and success are the only
/// outcomes, each owed on exactly the stated inputs.
pub proof fn lemma_year_condition(e: RawEntryV)
    ensures
        sp_extract(e) == Err::<EntryV, DiagReason>(DiagReason::MissingOrInvalidYear) <==> (sp_lookup(
            e.fields,
            seq!['t', 'i', 't', 'l', 'e'],
        ) is Some && match sp_lookup(e.fields, seq!['y', 'e', 'a', 'r']) {
            None => true,
            Some(y) => sp_year_of(sp_render(y)) is None,
        }),
        sp_extract(e) is Ok <==> (sp_lookup(e.fields, seq!['t', 'i', 't', 'l', 'e']) is Some
            && match sp_lookup(e.fields, seq!['y', 'e', 'a', 'r']) {
            None => false,
            Some(y) => sp_year_of(sp_render(y)) is Some,
        }),
{
}

/// A successful extraction returns the entry's own key, the rendered
/// title and the year named by the rendered year field, and an entry
/// without an `author` field has no author list.
pub proof fn lemma_extract_fields(e: RawEntryV)
    requires
        sp_extract(e) is Ok,
    ensures
        sp_extract(e)->Ok_0.key == e.key,
        sp_extract(e)->Ok_0.title == sp_render(sp_lookup(e.fields, seq!['t', 'i', 't', 'l', 'e'])->0),
        Some(sp_extract(e)->Ok_0.year) == sp_year_of(
            sp_render(sp_lookup(e.fields, seq!['y', 'e', 'a', 'r'])->0),
        ),
        sp_lookup(e.fields, seq!['a', 'u', 't', 'h', 'o', 'r']) is None ==> sp_extract(
            e,
        )->Ok_0.authors is None,
{
}

/// Looking a name up is unchanged by appending a pair with another name.
pub proof fn lemma_lookup_push_other(
    pairs: Seq<(Seq<char>, Seq<char>)>,
    p: (Seq<char>, Seq<char>),
    name: Seq<char>,
)
    requires
        p.0 != name,
    ensures
        sp_lookup(pairs.push(p), name) == sp_lookup(pairs, name),
{
    lemma_lookup_at_prefix(pairs.push(p), pairs, name, pairs.len());
}

/// Two pair lists that agree below `upto` look names up identically
/// there.
pub proof fn lemma_lookup_at_prefix(
    a: Seq<(Seq<char>, Seq<char>)>,
    b: Seq<(Seq<char>, Seq<char>)>,
    name: Seq<char>,
    upto: nat,
)
    requires
        upto <= a.len(),
        upto <= b.len(),
        forall|k: int| 0 <= k < upto ==> a[k] == b[k],
    ensures
        sp_lookup_at(a, name, upto) == sp_lookup_at(b, name, upto),
    decreases upto,
{
    if upto > 0 {
        lemma_lookup_at_prefix(a, b, name, (upto - 1) as nat);
    }
}

/// Cross-reference inheritance never overwrites a field the entry
/// already has: whatever a name resolved to before resolution, it
/// resolves to the same value afterwards.
pub proof fn lemma_inherit_keeps_own(
    child: Seq<(Seq<char>, Seq<char>)>,
    parent: Seq<(Seq<char>, Seq<char>)>,
    j: nat,
    name: Seq<char>,
    v: Seq<char>,
)
    requires
        sp_lookup(child, name) == Some(v),
    ensures
        sp_lookup(sp_inherit(child, parent, j), name) == Some(v),
    decreases j,
{
    if j == 0 || j > parent.len() {
    } else {
        let p = parent[j - 1];
        if sp_lookup(child, p.0) is None {
            assert(p.0 != name);
            lemma_lookup_push_other(child, p, name);
            lemma_inherit_keeps_own(child.push(p), parent, (j - 1) as nat, name, v);
        } else {
            lemma_inherit_keeps_own(child, parent, (j - 1) as nat, name, v);
        }
    }
}

/// Cross-reference inheritance fills a field the entry lacks with the
/// value the referenced entry's own lookup yields, over the pairs the
/// walk still visits.
pub proof fn lemma_inherit_fills_at(
    child: Seq<(Seq<char>, Seq<char>)>,
    parent: Seq<(Seq<char>, Seq<char>)>,
    j: nat,
    name: Seq<char>,
    v: Seq<char>,
)
    requires
        sp_lookup(child, name) is None,
        sp_lookup_at(parent, name, j) == Some(v),
        j <= parent.len(),
    ensures
        sp_lookup(sp_inherit(child, parent, j), name) == Some(v),
    decreases j,
{
    let p = parent[j - 1];
    if p.0 == name {
        assert(v == p.1);
        assert(sp_lookup(child, p.0) is None);
        let child2 = child.push(p);
        assert(sp_lookup(child2, name) == Some(v));
        lemma_inherit_keeps_own(child2, parent, (j - 1) as nat, name, v);
    } else {
        if sp_lookup(child, p.0) is None {
            lemma_lookup_push_other(child, p, name);
            lemma_inherit_fills_at(child.push(p), parent, (j - 1) as nat, name, v);
        } else {
            lemma_inherit_fills_at(child, parent, (j - 1) as nat, name, v);
        }
    }
}

/// The whole-list form: a field absent from the entry and present in the
/// referenced entry is inherited with the referenced entry's value.
pub proof fn lemma_inherit_fills(
    child: Seq<(Seq<char>, Seq<char>)>,
    parent: Seq<(Seq<char>, Seq<char>)>,
    name: Seq<char>,
    v: Seq<char>,
)
    requires
        sp_lookup(child, name) is None,
        sp_lookup(parent, name) == Some(v),
    ensures
        sp_lookup(sp_inherit(child, parent, parent.len()), name) == Some(v),
{
    lemma_inherit_fills_at(child, parent, parent.len(), name, v);
}

/// Characters the renderer passes through unchanged.
pub open spec fn sp_plain_char(c: char) -> bool {
    !(c == '{' || c == '}' || c == '$' || c == '~' || c == '-' || c == '\\')
}

/// On text made of plain characters the renderer is the identity from
/// any position on.
pub proof fn lemma_render_plain_from(s: Seq<char>, i: nat, acc: Seq<char>, fuel: nat)
    requires
        i <= s.len(),
        fuel >= s.len() - i,
        forall|j: int| i <= j < s.len() ==> sp_plain_char(s[j]),
    ensures
        sp_render_from(s, i, acc, fuel) == acc + s.subrange(i as int, s.len() as int),
    decreases fuel,
{
    if i >= s.len() {
        assert(acc + s.subrange(i as int, s.len() as int) =~= acc);
    } else {
        let c = s[i as int];
        assert(sp_plain_char(c));
        lemma_render_plain_from(s, i + 1, acc.push(c), (fuel - 1) as nat);
        assert(acc.push(c) + s.subrange(i + 1 as int, s.len() as int) =~= acc + s.subrange(
            i as int,
            s.len() as int,
        ));
    }
}

/// On text made of plain characters the renderer is the identity.
pub proof fn lemma_render_plain(s: Seq<char>)
    requires
        s.len() <= usize::MAX as nat,
        forall|j: int| 0 <= j < s.len() ==> sp_plain_char(s[j]),
    ensures
        sp_render(s) == s,
{
    lemma_render_plain_from(s, 0, Seq::empty(), FUEL as nat);
    assert(Seq::<char>::empty() + s.subrange(0, s.len() as int) =~= s);
}

/// Every position in a digit run holds a digit.
pub proof fn lemma_digits_end_all(s: Seq<char>, i: nat)
    requires
        i <= s.len(),
        forall|j: int| i <= j < s.len() ==> sp_is_digit(s[j]),
    ensures
        sp_digits_end(s, i) == s.len(),
    decreases s.len() - i,
{
    if i < s.len() {
        lemma_digits_end_all(s, i + 1);
    }
}

/// Leading zeros do not change the number a digit sequence names.
pub proof fn lemma_digits_val_zeros(s: Seq<char>, k: nat)
    requires
        k <= s.len(),
        forall|j: int| 0 <= j < k ==> s[j] == '0',
    ensures
        sp_digits_val(s.subrange(k as int, s.len() as int)) == sp_digits_val(s),
    decreases s.len(),
{
    if s.len() == 0 {
        assert(s.subrange(0, 0) =~= s);
    } else if k == s.len() {
        assert(s.subrange(k as int, s.len() as int) =~= Seq::<char>::empty());
        lemma_digits_val_all_zero(s);
    } else {
        assert(s.subrange(k as int, s.len() as int).drop_last() =~= s.drop_last().subrange(
            k as int,
            s.drop_last().len() as int,
        ));
        assert(s.subrange(k as int, s.len() as int).last() == s.last());
        lemma_digits_val_zeros(s.drop_last(), k);
    }
}

/// A sequence of zeros names zero.
pub proof fn lemma_digits_val_all_zero(s: Seq<char>)
    requires
        forall|j: int| 0 <= j < s.len() ==> s[j] == '0',
    ensures
        sp_digits_val(s) == 0,
    decreases s.len(),
{
    if s.len() > 0 {
        lemma_digits_val_all_zero(s.drop_last());
    }
}

/// A minimal valid entry: a field list holding a plain-text title and a
/// year of one to four digits extracts to exactly that title, that year
/// and no author list.
pub proof fn lemma_minimal_entry(e: RawEntryV, t: Seq<char>, y: Seq<char>)
    requires
        sp_lookup(e.fields, seq!['t', 'i', 't', 'l', 'e']) == Some(t),
        sp_lookup(e.fields, seq!['y', 'e', 'a', 'r']) == Some(y),
        sp_lookup(e.fields, seq!['a', 'u', 't', 'h', 'o', 'r']) is None,
        t.len() <= usize::MAX as nat,
        forall|j: int| 0 <= j < t.len() ==> sp_plain_char(t[j]),
        1 <= y.len() <= 4,
        forall|j: int| 0 <= j < y.len() ==> sp_is_digit(y[j]),
    ensures
        sp_extract(e) is Ok,
        sp_extract(e)->Ok_0.key == e.key,
        sp_extract(e)->Ok_0.title == t,
        sp_extract(e)->Ok_0.year == sp_digits_val(y),
        sp_extract(e)->Ok_0.authors is None,
{
    lemma_render_plain(t);
    assert(forall|j: int| 0 <= j < y.len() ==> sp_plain_char(y[j]));
    lemma_render_plain(y);
    lemma_digits_end_all(y, 0);
    let z = sp_zeros_end(y, 0, y.len());
    lemma_zeros_end_zeros(y, 0, y.len());
    lemma_digits_val_zeros(y, z);
    lemma_digits_val_bound_public(y);
}

/// Everything before the end of a zero run is a zero.
pub proof fn lemma_zeros_end_zeros(s: Seq<char>, i: nat, stop: nat)
    requires
        i <= stop <= s.len(),
    ensures
        i <= sp_zeros_end(s, i, stop) <= stop,
        forall|j: int| i <= j < sp_zeros_end(s, i, stop) ==> s[j] == '0',
    decreases stop - i,
{
    if i < stop && s[i as int] == '0' {
        lemma_zeros_end_zeros(s, i + 1, stop);
    }
}

/// A digit run of at most four digits names a number up to 9999.
pub proof fn lemma_digits_val_bound_public(y: Seq<char>)
    requires
        forall|j: int| 0 <= j < y.len() ==> sp_is_digit(y[j]),
        y.len() <= 4,
    ensures
        sp_digits_val(y) <= 9999,
{
    crate::extract::lemma_digits_val_bound(y);
    reveal_with_fuel(crate::extract::sp_pow10, 5);
}


/// Whitespace skipping stops at once on a non-whitespace position.
pub proof fn lemma_skip_ws_stop(s: Seq<char>, i: nat)
    requires
        i >= s.len() || !crate::scan::sp_is_ws(s[i as int]),
    ensures
        crate::scan::sp_skip_ws(s, i) == i,
{
}

/// An identifier run of known extent ends exactly at its end.
pub proof fn lemma_ident_end_range(s: Seq<char>, i: nat, e: nat)
    requires
        i <= e <= s.len(),
        forall|j: int| i <= j < e ==> crate::scan::sp_is_ident(s[j]),
        e == s.len() || !crate::scan::sp_is_ident(s[e as int]),
    ensures
        crate::scan::sp_ident_end(s, i) == e,
    decreases e - i,
{
    if i < e {
        lemma_ident_end_range(s, i + 1, e);
    }
}

/// A digit run of known extent ends exactly at its end.
pub proof fn lemma_digits_end_range(s: Seq<char>, i: nat, e: nat)
    requires
        i <= e <= s.len(),
        forall|j: int| i <= j < e ==> sp_is_digit(s[j]),
        e == s.len() || !sp_is_digit(s[e as int]),
    ensures
        sp_digits_end(s, i) == e,
    decreases e - i,
{
    if i < e {
        lemma_digits_end_range(s, i + 1, e);
    }
}

/// A brace group whose content holds no brace closes at the first closing
/// brace after it.
pub proof fn lemma_braced_plain(s: Seq<char>, i: nat, e: nat)
    requires
        i <= e < s.len(),
        forall|j: int| i <= j < e ==> s[j] != '{' && s[j] != '}',
        s[e as int] == '}',
    ensures
        crate::scan::sp_braced_end(s, i, 1) == Some((e + 1) as nat),
    decreases e - i,
{
    if i < e {
        lemma_braced_plain(s, i + 1, e);
    }
}


/// The document `@article{k, title={T}, year=Y}` for given title text and
/// year digits.
pub open spec fn sp_minimal_doc(t: Seq<char>, y: Seq<char>) -> Seq<char> {
    seq![
        '@',
        'a',
        'r',
        't',
        'i',
        'c',
        'l',
        'e',
        '{',
        'k',
        ',',
        ' ',
        't',
        'i',
        't',
        'l',
        'e',
        '=',
        '{',
    ] + t + seq!['}', ',', ' ', 'y', 'e', 'a', 'r', '='] + y + seq!['}']
}

/// For every valid minimal entry `@article{k, title={T}, year=Y}` — plain
/// title text, one to four year digits — the parse yields exactly one
/// entry with key `k`, that title, that year, and no author list, and no
/// diagnostic.
#[verifier::rlimit(100)]
pub proof fn lemma_minimal_document(t: Seq<char>, y: Seq<char>)
    requires
        forall|j: int| 0 <= j < t.len() ==> sp_plain_char(t[j]),
        1 <= y.len() <= 4,
        forall|j: int| 0 <= j < y.len() ==> sp_is_digit(y[j]),
        t.len() + y.len() + 28 <= usize::MAX as nat,
    ensures
        sp_parse(sp_minimal_doc(t, y)).1 == Seq::<DiagnosticV>::empty(),
        sp_parse(sp_minimal_doc(t, y)).0.len() == 1,
        sp_parse(sp_minimal_doc(t, y)).0[0].key == seq!['k'],
        sp_parse(sp_minimal_doc(t, y)).0[0].title == t,
        sp_parse(sp_minimal_doc(t, y)).0[0].year == sp_digits_val(y),
        sp_parse(sp_minimal_doc(t, y)).0[0].authors is None,
{
    let d = sp_minimal_doc(t, y);
    let n = t.len() as int;
    let m = y.len() as int;
    assert(d.len() == 28 + n + m);
    assert(d[0] == '@');
    assert(d[1] == 'a');
    assert(d[2] == 'r');
    assert(d[3] == 't');
    assert(d[4] == 'i');
    assert(d[5] == 'c');
    assert(d[6] == 'l');
    assert(d[7] == 'e');
    assert(d[8] == '{');
    assert(d[9] == 'k');
    assert(d[10] == ',');
    assert(d[11] == ' ');
    assert(d[12] == 't');
    assert(d[13] == 'i');
    assert(d[14] == 't');
    assert(d[15] == 'l');
    assert(d[16] == 'e');
    assert(d[17] == '=');
    assert(d[18] == '{');
    assert(forall|j: int| 19 <= j < 19 + n ==> d[j] == t[j - 19]);
    assert(d[19 + n] == '}');
    assert(d[20 + n] == ',');
    assert(d[21 + n] == ' ');
    assert(d[22 + n] == 'y');
    assert(d[23 + n] == 'e');
    assert(d[24 + n] == 'a');
    assert(d[25 + n] == 'r');
    assert(d[26 + n] == '=');
    assert(forall|j: int| 27 + n <= j < 27 + n + m ==> d[j] == y[j - 27 - n]);
    assert(d[27 + n + m] == '}');

    let mac = Seq::<(Seq<char>, Seq<char>)>::empty();
    let fuel = FUEL as nat;

    // the block's type and key
    lemma_skip_ws_stop(d, 1);
    lemma_ident_end_range(d, 1, 8);
    let ty = crate::scan::sp_lower_seq(d.subrange(1, 8));
    assert(d.subrange(1, 8) =~= seq!['a', 'r', 't', 'i', 'c', 'l', 'e']);
    assert(ty.len() == 7);
    assert(ty[0] == crate::scan::sp_lower_char(d.subrange(1, 8)[0]));
    assert(ty =~= seq!['a', 'r', 't', 'i', 'c', 'l', 'e']);
    assert(ty != seq!['c', 'o', 'm', 'm', 'e', 'n', 't']) by {
        assert(seq!['c', 'o', 'm', 'm', 'e', 'n', 't'][0] == 'c');
    }
    assert(ty != seq!['p', 'r', 'e', 'a', 'm', 'b', 'l', 'e']);
    assert(ty != seq!['s', 't', 'r', 'i', 'n', 'g']);
    lemma_skip_ws_stop(d, 8);
    lemma_skip_ws_stop(d, 9);
    lemma_ident_end_range(d, 9, 10);
    assert(d.subrange(9, 10) =~= seq!['k']);

    // the title field
    lemma_skip_ws_stop(d, 10);
    lemma_skip_ws_stop(d, 12);
    assert(crate::scan::sp_skip_ws(d, 11) == 12);
    lemma_ident_end_range(d, 12, 17);
    assert(d.subrange(12, 17) =~= seq!['t', 'i', 't', 'l', 'e']);
    let fname1 = crate::scan::sp_lower_seq(d.subrange(12, 17));
    assert(fname1 =~= seq!['t', 'i', 't', 'l', 'e']);
    lemma_skip_ws_stop(d, 17);
    lemma_skip_ws_stop(d, 18);
    lemma_braced_plain(d, 19, 19 + n as nat);
    assert(d.subrange(19, 19 + n) =~= t);
    lemma_skip_ws_stop(d, (20 + n) as nat);
    assert(crate::entries::sp_simple_value(d, 18, mac) == Some((t, (20 + n) as nat, true)));
    assert(crate::entries::sp_value(d, 18, mac, fuel) == Some((t, (20 + n) as nat, true)));

    // the year field
    lemma_skip_ws_stop(d, (22 + n) as nat);
    assert(crate::scan::sp_skip_ws(d, (21 + n) as nat) == 22 + n);
    lemma_skip_ws_stop(d, (20 + n) as nat);
    lemma_ident_end_range(d, (22 + n) as nat, (26 + n) as nat);
    assert(d.subrange(22 + n, 26 + n) =~= seq!['y', 'e', 'a', 'r']);
    let fname2 = crate::scan::sp_lower_seq(d.subrange(22 + n, 26 + n));
    assert(fname2 =~= seq!['y', 'e', 'a', 'r']);
    lemma_skip_ws_stop(d, (26 + n) as nat);
    assert(sp_is_digit(d[27 + n]));
    lemma_skip_ws_stop(d, (27 + n) as nat);
    lemma_digits_end_range(d, (27 + n) as nat, (27 + n + m) as nat);
    assert(d.subrange(27 + n, 27 + n + m) =~= y);
    lemma_skip_ws_stop(d, (27 + n + m) as nat);
    assert(crate::entries::sp_simple_value(d, (27 + n) as nat, mac) == Some(
        (y, (27 + n + m) as nat, true),
    ));
    assert(crate::entries::sp_value(d, (27 + n) as nat, mac, (fuel - 1) as nat) == Some(
        (y, (27 + n + m) as nat, true),
    ));

    // the field list, innermost call first
    assert(crate::entries::sp_parse_fields(d, (27 + n + m) as nat, mac, (fuel - 2) as nat) == Some(
        (
            Seq::<(Seq<char>, Seq<char>)>::empty(),
            Seq::<DiagnosticV>::empty(),
            (28 + n + m) as nat,
        ),
    ));
    let fields2 = seq![(seq!['y', 'e', 'a', 'r'], y)];
    assert(crate::entries::sp_parse_fields(d, (20 + n) as nat, mac, (fuel - 1) as nat) == Some(
        (fields2, Seq::<DiagnosticV>::empty(), (28 + n + m) as nat),
    )) by {
        assert(seq![(seq!['y', 'e', 'a', 'r'], y)] + Seq::<(Seq<char>, Seq<char>)>::empty()
            =~= fields2);
    }
    let fields = seq![(seq!['t', 'i', 't', 'l', 'e'], t), (seq!['y', 'e', 'a', 'r'], y)];
    assert(crate::entries::sp_parse_fields(d, 10, mac, fuel) == Some(
        (fields, Seq::<DiagnosticV>::empty(), (28 + n + m) as nat),
    )) by {
        assert(seq![(seq!['t', 'i', 't', 'l', 'e'], t)] + fields2 =~= fields);
    }

    // the block and the document
    let entry = RawEntryV {
        pos: 0,
        etype: seq!['a', 'r', 't', 'i', 'c', 'l', 'e'],
        key: seq!['k'],
        fields: fields,
    };
    assert(crate::entries::sp_parse_block(d, 0, mac, fuel) == Some(
        ((28 + n + m) as nat, mac, Some(entry), Seq::<DiagnosticV>::empty()),
    ));
    assert(crate::scan::sp_scan_at(d, 0) == 0);
    assert(crate::scan::sp_scan_at(d, (28 + n + m) as nat) == 28 + n + m);
    assert(crate::entries::sp_parse_all(d, (28 + n + m) as nat, mac, (fuel - 1) as nat) == (
        Seq::<RawEntryV>::empty(),
        Seq::<DiagnosticV>::empty(),
    ));
    let raws = seq![entry];
    assert(crate::entries::sp_parse_all(d, 0, mac, fuel) == (
        raws,
        Seq::<DiagnosticV>::empty(),
    )) by {
        assert(seq![entry] + Seq::<RawEntryV>::empty() =~= raws);
        assert(Seq::<DiagnosticV>::empty() + Seq::<DiagnosticV>::empty() =~= Seq::<
            DiagnosticV,
        >::empty());
    }

    // duplicate keys: none
    assert(crate::entries::sp_has_key(Seq::<RawEntryV>::empty(), crate::scan::sp_lower_seq(
        entry.key,
    ), 0) == false);
    assert(crate::entries::sp_dedup(raws, 1, seq![entry], Seq::<DiagnosticV>::empty()) == (
        seq![entry],
        Seq::<DiagnosticV>::empty(),
    ));
    assert(crate::entries::sp_dedup(raws, 0, Seq::<RawEntryV>::empty(), Seq::<
        DiagnosticV,
    >::empty()) == (seq![entry], Seq::<DiagnosticV>::empty()));

    // cross-references: none
    let cr = seq!['c', 'r', 'o', 's', 's', 'r', 'e', 'f'];
    assert(fields[1].0.len() == 4);
    assert(fields[0].0.len() == 5);
    assert(sp_lookup_at(fields, cr, 2) == sp_lookup_at(fields, cr, 1));
    assert(sp_lookup_at(fields, cr, 1) == sp_lookup_at(fields, cr, 0));
    assert(sp_lookup(fields, cr) is None);
    assert(crate::entries::sp_resolve(raws, 1, seq![entry], Seq::<DiagnosticV>::empty()) == (
        seq![entry],
        Seq::<DiagnosticV>::empty(),
    ));
    assert(crate::entries::sp_resolve(raws, 0, Seq::<RawEntryV>::empty(), Seq::<
        DiagnosticV,
    >::empty()) == (seq![entry], Seq::<DiagnosticV>::empty()));

    // extraction
    let ti = seq!['t', 'i', 't', 'l', 'e'];
    let yr = seq!['y', 'e', 'a', 'r'];
    let au = seq!['a', 'u', 't', 'h', 'o', 'r'];
    assert(fields[1].0 =~= yr);
    assert(fields[0].0 =~= ti);
    assert(fields[1].0 != ti);
    assert(sp_lookup_at(fields, ti, 2) == sp_lookup_at(fields, ti, 1));
    assert(sp_lookup(fields, ti) == Some(t));
    assert(sp_lookup(fields, yr) == Some(y));
    assert(fields[1].0.len() != au.len());
    assert(fields[0].0.len() != au.len());
    assert(sp_lookup_at(fields, au, 2) == sp_lookup_at(fields, au, 1));
    assert(sp_lookup_at(fields, au, 1) == sp_lookup_at(fields, au, 0));
    assert(sp_lookup(fields, au) is None);
    lemma_minimal_entry(entry, t, y);
    let out = sp_extract(entry)->Ok_0;
    assert(crate::extract::sp_extract_all(raws, 1, seq![out], Seq::<DiagnosticV>::empty()) == (
        seq![out],
        Seq::<DiagnosticV>::empty(),
    ));
    assert(crate::extract::sp_extract_all(raws, 0, Seq::<EntryV>::empty(), Seq::<
        DiagnosticV,
    >::empty()) == (seq![out], Seq::<DiagnosticV>::empty()));

    // the whole parse
    assert(sp_parse(d).0 =~= seq![out]);
    assert(sp_parse(d).1 =~= Seq::<DiagnosticV>::empty());
}

} // verus!
