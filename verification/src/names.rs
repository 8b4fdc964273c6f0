//! Parsing and formatting of personal-name lists: an `author` or `editor`
//! value is split on the word `and` at brace depth zero, each segment is
//! parsed into first, von, last and junior parts (comma form `von Last,
//! First` / `von Last, Jr, First`, or space form `First von Last` with the
//! lower-case-initial von heuristic), and each name is formatted back as
//! `First von Last` with a trailing `, Jr` when a junior part is present.
//! Every token is LaTeX-rendered before classification.
use crate::latex::{append_range, render, sp_render, FUEL};
use crate::scan::{is_ws, lower_char, skip_ws, sp_is_lower, sp_is_ws, sp_lower_char, sp_lower_seq,
    sp_skip_ws};
use crate::text::{chars_of, chars_to_string, str_views_of, strings_of, views_of};
use vstd::prelude::*;

verus! {

/// One parsed personal name: ordered plain-text tokens of the four parts.
/// An absent part is the empty token list.
#[derive(Debug, Clone, PartialEq)]
pub struct PersonName {
    pub first: Vec<String>,
    pub von: Vec<String>,
    pub last: Vec<String>,
    pub junior: Vec<String>,
}

/// The mathematical shape of a parsed personal name.
pub struct PersonNameV {
    pub first: Seq<Seq<char>>,
    pub von: Seq<Seq<char>>,
    pub last: Seq<Seq<char>>,
    pub junior: Seq<Seq<char>>,
}

impl View for PersonName {
    type V = PersonNameV;

    open spec fn view(&self) -> PersonNameV {
        PersonNameV {
            first: str_views_of(self.first@),
            von: str_views_of(self.von@),
            last: str_views_of(self.last@),
            junior: str_views_of(self.junior@),
        }
    }
}

/// The views of a sequence of token vectors.
pub open spec fn views2_of(xs: Seq<Vec<Vec<char>>>) -> Seq<Seq<Seq<char>>> {
    xs.map_values(|x: Vec<Vec<char>>| views_of(x@))
}

/// End of the name token starting at `i`: the token runs until whitespace
/// or a comma at brace depth zero; braces keep their content (including
/// any spaces, commas or `and` inside) in one token.
pub open spec fn sp_word_end(s: Seq<char>, i: nat, depth: nat) -> nat
    decreases s.len() - i,
{
    if i >= s.len() {
        i
    } else if depth == 0 && (sp_is_ws(s[i as int]) || s[i as int] == ',') {
        i
    } else if s[i as int] == '{' {
        if depth < usize::MAX as nat {
            sp_word_end(s, i + 1, depth + 1)
        } else {
            sp_word_end(s, i + 1, depth)
        }
    } else if s[i as int] == '}' && depth > 0 {
        sp_word_end(s, i + 1, (depth - 1) as nat)
    } else {
        sp_word_end(s, i + 1, depth)
    }
}

pub fn word_end(s: &Vec<char>, i: usize, depth: usize) -> (r: usize)
    requires
        i <= s.len(),
    ensures
        r == sp_word_end(s@, i as nat, depth as nat),
        i <= r <= s.len(),
    decreases s.len() - i,
{
    if i >= s.len() {
        i
    } else if depth == 0 && (is_ws(s[i]) || s[i] == ',') {
        i
    } else if s[i] == '{' {
        if depth < usize::MAX {
            word_end(s, i + 1, depth + 1)
        } else {
            word_end(s, i + 1, depth)
        }
    } else if s[i] == '}' && depth > 0 {
        word_end(s, i + 1, depth - 1)
    } else {
        word_end(s, i + 1, depth)
    }
}

/// The token list of a raw name string: words and comma markers, in order.
pub open spec fn sp_name_tokens(s: Seq<char>, i: nat, acc: Seq<Seq<char>>, fuel: nat) -> Seq<
    Seq<char>,
>
    decreases fuel,
{
    if fuel == 0 {
        acc
    } else {
        let j = sp_skip_ws(s, i);
        if j >= s.len() {
            acc
        } else if s[j as int] == ',' {
            sp_name_tokens(s, j + 1, acc.push(seq![',']), (fuel - 1) as nat)
        } else {
            let e = sp_word_end(s, j, 0);
            sp_name_tokens(s, e, acc.push(s.subrange(j as int, e as int)), (fuel - 1) as nat)
        }
    }
}

pub fn name_tokens(s: &Vec<char>, i: usize, acc: Vec<Vec<char>>, fuel: usize) -> (r: Vec<
    Vec<char>,
>)
    requires
        i <= s.len(),
    ensures
        views_of(r@) == sp_name_tokens(s@, i as nat, views_of(acc@), fuel as nat),
    decreases fuel,
{
    if fuel == 0 {
        acc
    } else {
        let j = skip_ws(s, i);
        if j >= s.len() {
            acc
        } else if s[j] == ',' {
            let ghost acc0 = acc@;
            let mut acc = acc;
            let mut comma: Vec<char> = Vec::new();
            comma.push(',');
            proof {
                assert(comma@ =~= seq![',']);
            }
            acc.push(comma);
            proof {
                assert(views_of(acc@) =~= views_of(acc0).push(seq![',']));
            }
            name_tokens(s, j + 1, acc, fuel - 1)
        } else {
            let e = word_end(s, j, 0);
            let word = copy_range(s, j, e);
            let ghost before = acc@;
            let mut acc = acc;
            acc.push(word);
            proof {
                assert(views_of(acc@) =~= views_of(before).push(s@.subrange(j as int, e as int)));
            }
            name_tokens(s, e, acc, fuel - 1)
        }
    }
}

/// A copy of `s[from..to]`.
pub fn copy_range(s: &Vec<char>, from: usize, to: usize) -> (r: Vec<char>)
    requires
        from <= to <= s.len(),
    ensures
        r@ == s@.subrange(from as int, to as int),
{
    let r = append_range(Vec::new(), s, from, to);
    proof {
        assert(r@ =~= s@.subrange(from as int, to as int));
    }
    r
}

/// The name-list separator: the word `and`, letter case disregarded.
pub open spec fn sp_is_and(tok: Seq<char>) -> bool {
    sp_lower_seq(tok) == seq!['a', 'n', 'd']
}

pub fn is_and(tok: &Vec<char>) -> (r: bool)
    ensures
        r == sp_is_and(tok@),
{
    proof {
        assert(sp_lower_seq(tok@).len() == tok@.len());
        assert(seq!['a', 'n', 'd'].len() == 3);
        assert(seq!['a', 'n', 'd'][0] == 'a');
        assert(seq!['a', 'n', 'd'][1] == 'n');
        assert(seq!['a', 'n', 'd'][2] == 'd');
        if tok@.len() == 3 {
            assert(sp_lower_seq(tok@)[0] == sp_lower_char(tok@[0]));
            assert(sp_lower_seq(tok@)[1] == sp_lower_char(tok@[1]));
            assert(sp_lower_seq(tok@)[2] == sp_lower_char(tok@[2]));
        }
    }
    if tok.len() == 3 && lower_char(tok[0]) == 'a' && lower_char(tok[1]) == 'n' && lower_char(
        tok[2],
    ) == 'd' {
        proof {
            assert(sp_lower_seq(tok@) =~= seq!['a', 'n', 'd']);
        }
        true
    } else {
        false
    }
}

/// A comma marker token.
pub open spec fn sp_is_comma_tok(tok: Seq<char>) -> bool {
    tok == seq![',']
}

pub fn is_comma_tok(tok: &Vec<char>) -> (r: bool)
    ensures
        r == sp_is_comma_tok(tok@),
{
    if tok.len() == 1 && tok[0] == ',' {
        proof {
            assert(tok@ =~= seq![',']);
        }
        true
    } else {
        proof {
            if tok@.len() == 1 {
                assert(tok@[0] == tok@[0]);
            }
        }
        false
    }
}

/// Splits a token list into name segments at each `and` word; empty
/// segments (leading, trailing or doubled separators) are dropped.
pub open spec fn sp_split_and(
    toks: Seq<Seq<char>>,
    i: nat,
    cur: Seq<Seq<char>>,
    acc: Seq<Seq<Seq<char>>>,
) -> Seq<Seq<Seq<char>>>
    decreases toks.len() - i,
{
    if i >= toks.len() {
        if cur.len() > 0 {
            acc.push(cur)
        } else {
            acc
        }
    } else if sp_is_and(toks[i as int]) {
        sp_split_and(
            toks,
            i + 1,
            Seq::empty(),
            if cur.len() > 0 {
                acc.push(cur)
            } else {
                acc
            },
        )
    } else {
        sp_split_and(toks, i + 1, cur.push(toks[i as int]), acc)
    }
}

pub fn split_and(
    toks: &Vec<Vec<char>>,
    i: usize,
    cur: Vec<Vec<char>>,
    acc: Vec<Vec<Vec<char>>>,
) -> (r: Vec<Vec<Vec<char>>>)
    requires
        i <= toks.len(),
    ensures
        views2_of(r@) == sp_split_and(views_of(toks@), i as nat, views_of(cur@), views2_of(acc@)),
    decreases toks.len() - i,
{
    proof {
        assert(views_of(toks@).len() == toks@.len());
        assert(views_of(cur@).len() == cur@.len());
    }
    if i >= toks.len() {
        if cur.len() > 0 {
            let ghost acc0 = acc@;
            let ghost cur0 = cur@;
            let mut acc = acc;
            acc.push(cur);
            proof {
                assert(views2_of(acc@) =~= views2_of(acc0).push(views_of(cur0)));
            }
            acc
        } else {
            acc
        }
    } else {
        proof {
            assert(views_of(toks@)[i as int] == toks@[i as int]@);
        }
        if is_and(&toks[i]) {
            if cur.len() > 0 {
                let ghost acc0 = acc@;
                let ghost cur0 = cur@;
                let mut acc = acc;
                acc.push(cur);
                proof {
                    assert(views2_of(acc@) =~= views2_of(acc0).push(views_of(cur0)));
                }
                let fresh: Vec<Vec<char>> = Vec::new();
                proof {
                    assert(views_of(fresh@) =~= Seq::<Seq<char>>::empty());
                }
                split_and(toks, i + 1, fresh, acc)
            } else {
                let fresh: Vec<Vec<char>> = Vec::new();
                proof {
                    assert(views_of(fresh@) =~= Seq::<Seq<char>>::empty());
                }
                split_and(toks, i + 1, fresh, acc)
            }
        } else {
            let w = copy_range(&toks[i], 0, toks[i].len());
            proof {
                assert(w@ =~= toks@[i as int]@);
            }
            let ghost cur0 = cur@;
            let mut cur = cur;
            cur.push(w);
            proof {
                assert(views_of(cur@) =~= views_of(cur0).push(views_of(toks@)[i as int]));
            }
            split_and(toks, i + 1, cur, acc)
        }
    }
}

/// Splits one segment into its comma-separated parts; the part boundaries
/// are kept even when a part is empty, so the part count mirrors the
/// comma count exactly.
pub open spec fn sp_split_commas(
    seg: Seq<Seq<char>>,
    i: nat,
    cur: Seq<Seq<char>>,
    acc: Seq<Seq<Seq<char>>>,
) -> Seq<Seq<Seq<char>>>
    decreases seg.len() - i,
{
    if i >= seg.len() {
        acc.push(cur)
    } else if sp_is_comma_tok(seg[i as int]) {
        sp_split_commas(seg, i + 1, Seq::empty(), acc.push(cur))
    } else {
        sp_split_commas(seg, i + 1, cur.push(seg[i as int]), acc)
    }
}

pub fn split_commas(
    seg: &Vec<Vec<char>>,
    i: usize,
    cur: Vec<Vec<char>>,
    acc: Vec<Vec<Vec<char>>>,
) -> (r: Vec<Vec<Vec<char>>>)
    requires
        i <= seg.len(),
    ensures
        views2_of(r@) == sp_split_commas(
            views_of(seg@),
            i as nat,
            views_of(cur@),
            views2_of(acc@),
        ),
    decreases seg.len() - i,
{
    proof {
        assert(views_of(seg@).len() == seg@.len());
        assert(views_of(cur@).len() == cur@.len());
    }
    if i >= seg.len() {
        let ghost acc0 = acc@;
        let ghost cur0 = cur@;
        let mut acc = acc;
        acc.push(cur);
        proof {
            assert(views2_of(acc@) =~= views2_of(acc0).push(views_of(cur0)));
        }
        acc
    } else {
        proof {
            assert(views_of(seg@)[i as int] == seg@[i as int]@);
        }
        if is_comma_tok(&seg[i]) {
            let ghost acc0 = acc@;
            let ghost cur0 = cur@;
            let mut acc = acc;
            acc.push(cur);
            proof {
                assert(views2_of(acc@) =~= views2_of(acc0).push(views_of(cur0)));
            }
            let fresh: Vec<Vec<char>> = Vec::new();
            proof {
                assert(views_of(fresh@) =~= Seq::<Seq<char>>::empty());
            }
            split_commas(seg, i + 1, fresh, acc)
        } else {
            let w = copy_range(&seg[i], 0, seg[i].len());
            proof {
                assert(w@ =~= seg@[i as int]@);
            }
            let ghost cur0 = cur@;
            let mut cur = cur;
            cur.push(w);
            proof {
                assert(views_of(cur@) =~= views_of(cur0).push(views_of(seg@)[i as int]));
            }
            split_commas(seg, i + 1, cur, acc)
        }
    }
}

/// Each raw token rendered to plain text, in order.
pub open spec fn sp_render_words(words: Seq<Seq<char>>) -> Seq<Seq<char>> {
    words.map_values(|w: Seq<char>| sp_render(w))
}

pub fn render_words(words: &Vec<Vec<char>>) -> (r: Vec<Vec<char>>)
    ensures
        views_of(r@) == sp_render_words(views_of(words@)),
{
    let mut r: Vec<Vec<char>> = Vec::new();
    let mut i: usize = 0;
    while i < words.len()
        invariant
            i <= words.len(),
            views_of(r@) == sp_render_words(views_of(words@.subrange(0, i as int))),
        decreases words.len() - i,
    {
        let ghost r0 = r@;
        r.push(render(&words[i]));
        proof {
            assert(views_of(words@.subrange(0, i + 1 as int)) =~= views_of(
                words@.subrange(0, i as int),
            ).push(words@[i as int]@));
            assert(sp_render_words(views_of(words@.subrange(0, i as int)).push(words@[i as int]@))
                =~= sp_render_words(views_of(words@.subrange(0, i as int))).push(
                sp_render(words@[i as int]@),
            ));
            assert(views_of(r@) =~= views_of(r0).push(r@[i as int]@));
            assert(views_of(r@) =~= sp_render_words(views_of(words@.subrange(0, i + 1 as int))));
        }
        i += 1;
    }
    proof {
        assert(words@.subrange(0, words@.len() as int) =~= words@);
    }
    r
}

/// The von heuristic: a rendered token starting with an ASCII lower-case
/// letter belongs to the von part.
pub open spec fn sp_is_von_word(w: Seq<char>) -> bool {
    w.len() > 0 && sp_is_lower(w[0])
}

pub fn is_von_word(w: &Vec<char>) -> (r: bool)
    ensures
        r == sp_is_von_word(w@),
{
    w.len() > 0 && crate::scan::is_lower(w[0])
}

/// First index in `[i, stop)` holding a von word.
pub open spec fn sp_first_von(words: Seq<Seq<char>>, i: nat, stop: nat) -> Option<nat>
    decreases stop - i,
{
    if i >= stop || i >= words.len() {
        None
    } else if sp_is_von_word(words[i as int]) {
        Some(i)
    } else {
        sp_first_von(words, i + 1, stop)
    }
}

pub fn first_von(words: &Vec<Vec<char>>, i: usize, stop: usize) -> (r: Option<usize>)
    requires
        stop <= words.len(),
    ensures
        match r {
            Some(f) => Some(f as nat) == sp_first_von(views_of(words@), i as nat, stop as nat) && i
                <= f < stop,
            None => sp_first_von(views_of(words@), i as nat, stop as nat) is None,
        },
    decreases stop - i,
{
    proof {
        assert(views_of(words@).len() == words@.len());
        if i < stop {
            assert(views_of(words@)[i as int] == words@[i as int]@);
        }
    }
    if i >= stop {
        None
    } else if is_von_word(&words[i]) {
        Some(i)
    } else {
        first_von(words, i + 1, stop)
    }
}

/// Last index in `[i, stop)` holding a von word.
pub open spec fn sp_last_von(words: Seq<Seq<char>>, i: nat, stop: nat) -> Option<nat>
    decreases stop,
{
    if stop <= i || stop == 0 {
        None
    } else if stop - 1 < words.len() && sp_is_von_word(words[stop - 1]) {
        Some((stop - 1) as nat)
    } else {
        sp_last_von(words, i, (stop - 1) as nat)
    }
}

pub fn last_von(words: &Vec<Vec<char>>, i: usize, stop: usize) -> (r: Option<usize>)
    requires
        stop <= words.len(),
    ensures
        match r {
            Some(l) => Some(l as nat) == sp_last_von(views_of(words@), i as nat, stop as nat) && i
                <= l < stop,
            None => sp_last_von(views_of(words@), i as nat, stop as nat) is None,
        },
    decreases stop,
{
    proof {
        assert(views_of(words@).len() == words@.len());
        if stop > i && stop > 0 {
            assert(views_of(words@)[stop - 1] == words@[stop - 1]@);
        }
    }
    if stop <= i || stop == 0 {
        None
    } else if is_von_word(&words[stop - 1]) {
        Some(stop - 1)
    } else {
        last_von(words, i, stop - 1)
    }
}

/// Length of the run of von words starting at `i`.
pub open spec fn sp_von_prefix(words: Seq<Seq<char>>, i: nat) -> nat
    decreases words.len() - i,
{
    if i < words.len() && sp_is_von_word(words[i as int]) {
        1 + sp_von_prefix(words, i + 1)
    } else {
        0
    }
}

pub fn von_prefix(words: &Vec<Vec<char>>, i: usize) -> (r: usize)
    requires
        i <= words.len(),
    ensures
        r as nat == sp_von_prefix(views_of(words@), i as nat),
        i + r <= words.len(),
    decreases words.len() - i,
{
    proof {
        assert(views_of(words@).len() == words@.len());
        if i < words.len() {
            assert(views_of(words@)[i as int] == words@[i as int]@);
        }
    }
    if i < words.len() && is_von_word(&words[i]) {
        1 + von_prefix(words, i + 1)
    } else {
        0
    }
}

/// An empty personal name.
pub open spec fn sp_empty_person() -> PersonNameV {
    PersonNameV {
        first: Seq::empty(),
        von: Seq::empty(),
        last: Seq::empty(),
        junior: Seq::empty(),
    }
}

/// Parses one name segment. A segment without commas is the space form
/// `First von Last`: the von part runs from the first to the last
/// lower-case-initial rendered token among all but the final token, and
/// the final token always belongs to the last name. A segment with commas
/// is the comma form `von Last, First` or `von Last, Jr, First`: the von
/// part is the leading run of lower-case-initial tokens of the part
/// before the first comma, capped so the last name keeps one token; any
/// parts after the third are disregarded.
pub open spec fn sp_parse_segment(seg: Seq<Seq<char>>) -> PersonNameV {
    let parts = sp_split_commas(seg, 0, Seq::empty(), Seq::empty());
    if parts.len() <= 1 {
        let words = sp_render_words(parts[0]);
        let n = words.len();
        if n == 0 {
            sp_empty_person()
        } else {
            match sp_first_von(words, 0, (n - 1) as nat) {
                None => PersonNameV {
                    first: words.subrange(0, n - 1),
                    von: Seq::empty(),
                    last: words.subrange(n - 1, n as int),
                    junior: Seq::empty(),
                },
                Some(f) => {
                    let l = match sp_last_von(words, 0, (n - 1) as nat) {
                        Some(l) => if l < f {
                            f
                        } else {
                            l
                        },
                        None => f,
                    };
                    PersonNameV {
                        first: words.subrange(0, f as int),
                        von: words.subrange(f as int, l + 1 as int),
                        last: words.subrange(l + 1 as int, n as int),
                        junior: Seq::empty(),
                    }
                },
            }
        }
    } else {
        let p1 = sp_render_words(parts[0]);
        let n1 = p1.len();
        let k0 = sp_von_prefix(p1, 0);
        let k = if n1 > 0 && k0 >= n1 {
            (n1 - 1) as nat
        } else {
            k0
        };
        let von = p1.subrange(0, k as int);
        let last = p1.subrange(k as int, n1 as int);
        if parts.len() == 2 {
            PersonNameV {
                first: sp_render_words(parts[1]),
                von: von,
                last: last,
                junior: Seq::empty(),
            }
        } else {
            PersonNameV {
                first: sp_render_words(parts[2]),
                von: von,
                last: last,
                junior: sp_render_words(parts[1]),
            }
        }
    }
}

pub fn parse_segment(seg: &Vec<Vec<char>>) -> (r: PersonName)
    ensures
        r@ == sp_parse_segment(views_of(seg@)),
    decreases seg.len(),
{
    let parts = split_commas(seg, 0, Vec::new(), Vec::new());
    proof {
        assert(views_of(Seq::<Vec<char>>::empty()) =~= Seq::<Seq<char>>::empty());
        assert(views2_of(Seq::<Vec<Vec<char>>>::empty()) =~= Seq::<Seq<Seq<char>>>::empty());
        assert(views2_of(parts@).len() == parts@.len());
    }
    let ghost sparts = sp_split_commas(views_of(seg@), 0, Seq::empty(), Seq::empty());
    if parts.len() == 0 {
        // the splitter always pushes the final part, so this cannot happen
        proof {
            lemma_split_commas_len(views_of(seg@), 0, Seq::empty(), Seq::empty());
            assert(false);
        }
        PersonName { first: Vec::new(), von: Vec::new(), last: Vec::new(), junior: Vec::new() }
    } else if parts.len() == 1 {
        proof {
            assert(views2_of(parts@)[0] == views_of(parts@[0]@));
        }
        let words = render_words(&parts[0]);
        let n = words.len();
        proof {
            assert(views_of(words@).len() == words@.len());
        }
        if n == 0 {
            proof {
                assert(str_views_of(Seq::<String>::empty()) =~= Seq::<Seq<char>>::empty());
            }
            PersonName { first: Vec::new(), von: Vec::new(), last: Vec::new(), junior: Vec::new() }
        } else {
            match first_von(&words, 0, n - 1) {
                None => {
                    let first = strings_of(&copy_words(&words, 0, n - 1));
                    let last = strings_of(&copy_words(&words, n - 1, n));
                    proof {
                        assert(str_views_of(Seq::<String>::empty()) =~= Seq::<Seq<char>>::empty());
                    }
                    PersonName { first: first, von: Vec::new(), last: last, junior: Vec::new() }
                },
                Some(f) => {
                    let l = match last_von(&words, 0, n - 1) {
                        Some(l) => if l < f {
                            f
                        } else {
                            l
                        },
                        None => f,
                    };
                    let first = strings_of(&copy_words(&words, 0, f));
                    let von = strings_of(&copy_words(&words, f, l + 1));
                    let last = strings_of(&copy_words(&words, l + 1, n));
                    proof {
                        assert(str_views_of(Seq::<String>::empty()) =~= Seq::<Seq<char>>::empty());
                    }
                    PersonName { first: first, von: von, last: last, junior: Vec::new() }
                },
            }
        }
    } else {
        proof {
            assert(views2_of(parts@)[0] == views_of(parts@[0]@));
            assert(views2_of(parts@)[1] == views_of(parts@[1]@));
            if parts@.len() > 2 {
                assert(views2_of(parts@)[2] == views_of(parts@[2]@));
            }
        }
        let p1 = render_words(&parts[0]);
        let n1 = p1.len();
        proof {
            assert(views_of(p1@).len() == p1@.len());
        }
        let k0 = von_prefix(&p1, 0);
        let k = if n1 > 0 && k0 >= n1 {
            n1 - 1
        } else {
            k0
        };
        let von = strings_of(&copy_words(&p1, 0, k));
        let last = strings_of(&copy_words(&p1, k, n1));
        proof {
            assert(str_views_of(Seq::<String>::empty()) =~= Seq::<Seq<char>>::empty());
        }
        if parts.len() == 2 {
            let first = strings_of(&render_words(&parts[1]));
            PersonName { first: first, von: von, last: last, junior: Vec::new() }
        } else {
            let first = strings_of(&render_words(&parts[2]));
            let junior = strings_of(&render_words(&parts[1]));
            PersonName { first: first, von: von, last: last, junior: junior }
        }
    }
}

/// The comma splitter always returns at least the final part.
pub proof fn lemma_split_commas_len(seg: Seq<Seq<char>>, i: nat, cur: Seq<Seq<char>>, acc: Seq<
    Seq<Seq<char>>,
>)
    ensures
        sp_split_commas(seg, i, cur, acc).len() > acc.len(),
    decreases seg.len() - i,
{
    if i >= seg.len() {
    } else if sp_is_comma_tok(seg[i as int]) {
        lemma_split_commas_len(seg, i + 1, Seq::empty(), acc.push(cur));
    } else {
        lemma_split_commas_len(seg, i + 1, cur.push(seg[i as int]), acc);
    }
}

/// A copy of `words[from..to]`.
pub fn copy_words(words: &Vec<Vec<char>>, from: usize, to: usize) -> (r: Vec<Vec<char>>)
    requires
        from <= to <= words.len(),
    ensures
        views_of(r@) == views_of(words@).subrange(from as int, to as int),
{
    let mut r: Vec<Vec<char>> = Vec::new();
    let mut i: usize = from;
    while i < to
        invariant
            from <= i <= to <= words.len(),
            views_of(r@) == views_of(words@).subrange(from as int, i as int),
        decreases to - i,
    {
        let ghost r0 = r@;
        r.push(copy_range(&words[i], 0, words[i].len()));
        proof {
            assert(views_of(words@).len() == words@.len());
            assert(words@[i as int]@.subrange(0, words@[i as int]@.len() as int)
                =~= words@[i as int]@);
            assert(views_of(r@) =~= views_of(r0).push(words@[i as int]@));
            assert(views_of(r@) =~= views_of(words@).subrange(from as int, i + 1 as int));
        }
        i += 1;
    }
    proof {
        assert(views_of(r@) =~= views_of(words@).subrange(from as int, to as int));
    }
    r
}

/// The names parsed from a raw person-list field value, in source order.
pub open spec fn sp_parse_names(s: Seq<char>) -> Seq<PersonNameV> {
    let toks = sp_name_tokens(s, 0, Seq::empty(), FUEL as nat);
    let segs = sp_split_and(toks, 0, Seq::empty(), Seq::empty());
    segs.map_values(|seg: Seq<Seq<char>>| sp_parse_segment(seg))
}

pub fn parse_names_vec(s: &Vec<char>) -> (r: Vec<PersonName>)
    ensures
        r@.map_values(|p: PersonName| p@) == sp_parse_names(s@),
{
    let toks = name_tokens(s, 0, Vec::new(), FUEL);
    proof {
        assert(views_of(Seq::<Vec<char>>::empty()) =~= Seq::<Seq<char>>::empty());
        assert(views2_of(Seq::<Vec<Vec<char>>>::empty()) =~= Seq::<Seq<Seq<char>>>::empty());
    }
    let segs = split_and(&toks, 0, Vec::new(), Vec::new());
    let ghost ssegs = sp_split_and(
        sp_name_tokens(s@, 0, Seq::empty(), FUEL as nat),
        0,
        Seq::empty(),
        Seq::empty(),
    );
    proof {
        assert(views2_of(segs@) == ssegs);
        assert(views2_of(segs@).len() == segs@.len());
    }
    let mut r: Vec<PersonName> = Vec::new();
    let mut i: usize = 0;
    while i < segs.len()
        invariant
            i <= segs.len(),
            views2_of(segs@) == ssegs,
            segs@.len() == ssegs.len(),
            r@.map_values(|p: PersonName| p@) == ssegs.subrange(0, i as int).map_values(
                |seg: Seq<Seq<char>>| sp_parse_segment(seg),
            ),
        decreases segs.len() - i,
    {
        let ghost r0 = r@;
        r.push(parse_segment(&segs[i]));
        proof {
            assert(views2_of(segs@)[i as int] == views_of(segs@[i as int]@));
            assert(r@.map_values(|p: PersonName| p@) =~= r0.map_values(|p: PersonName| p@).push(
                r@[i as int]@,
            ));
            assert(r@.map_values(|p: PersonName| p@) =~= ssegs.subrange(0, i + 1 as int).map_values(
                |seg: Seq<Seq<char>>| sp_parse_segment(seg),
            ));
        }
        i += 1;
    }
    proof {
        assert(ssegs.subrange(0, ssegs.len() as int) =~= ssegs);
        assert(r@.map_values(|p: PersonName| p@) =~= sp_parse_names(s@));
    }
    r
}

/// The tokens joined with single spaces.
pub open spec fn sp_join(words: Seq<Seq<char>>, i: nat, acc: Seq<char>) -> Seq<char>
    decreases words.len() - i,
{
    if i >= words.len() {
        acc
    } else if acc.len() == 0 {
        sp_join(words, i + 1, acc + words[i as int])
    } else {
        sp_join(words, i + 1, acc + seq![' '] + words[i as int])
    }
}

pub fn join_strs(words: &Vec<String>, i: usize, acc: Vec<char>) -> (r: Vec<char>)
    requires
        i <= words.len(),
    ensures
        r@ == sp_join(str_views_of(words@), i as nat, acc@),
    decreases words.len() - i,
{
    proof {
        assert(str_views_of(words@).len() == words@.len());
        if i < words.len() {
            assert(str_views_of(words@)[i as int] == words@[i as int]@);
        }
    }
    if i >= words.len() {
        acc
    } else {
        let w = chars_of(words[i].as_str());
        if acc.len() == 0 {
            let acc2 = append_range(acc, &w, 0, w.len());
            proof {
                assert(w@.subrange(0, w@.len() as int) =~= w@);
            }
            join_strs(words, i + 1, acc2)
        } else {
            let ghost acc0 = acc@;
            let mut acc2 = acc;
            acc2.push(' ');
            let acc3 = append_range(acc2, &w, 0, w.len());
            proof {
                assert(w@.subrange(0, w@.len() as int) =~= w@);
                assert(acc3@ =~= acc0 + seq![' '] + w@);
            }
            join_strs(words, i + 1, acc3)
        }
    }
}

/// The display form of a personal name: first, von and last tokens joined
/// with spaces in that order, then a `, ` and the junior tokens when a
/// junior part is present.
pub open spec fn sp_format_name(p: PersonNameV) -> Seq<char> {
    let base = sp_join(p.first + p.von + p.last, 0, Seq::empty());
    if p.junior.len() > 0 {
        base + seq![',', ' '] + sp_join(p.junior, 0, Seq::empty())
    } else {
        base
    }
}

pub fn format_name(p: &PersonName) -> (r: String)
    ensures
        r@ == sp_format_name(p@),
{
    let mut all: Vec<String> = Vec::new();
    let mut i: usize = 0;
    while i < p.first.len()
        invariant
            i <= p.first.len(),
            str_views_of(all@) == str_views_of(p.first@.subrange(0, i as int)),
        decreases p.first.len() - i,
    {
        let ghost a0 = all@;
        all.push(clone_string(&p.first[i]));
        proof {
            assert(str_views_of(all@) =~= str_views_of(a0).push(p.first@[i as int]@));
            assert(str_views_of(all@) =~= str_views_of(p.first@.subrange(0, i + 1 as int)));
        }
        i += 1;
    }
    let mut i: usize = 0;
    while i < p.von.len()
        invariant
            i <= p.von.len(),
            str_views_of(all@) == str_views_of(p.first@) + str_views_of(
                p.von@.subrange(0, i as int),
            ),
        decreases p.von.len() - i,
    {
        let ghost a0 = all@;
        all.push(clone_string(&p.von[i]));
        proof {
            assert(str_views_of(all@) =~= str_views_of(a0).push(p.von@[i as int]@));
            assert(str_views_of(all@) =~= str_views_of(p.first@) + str_views_of(
                p.von@.subrange(0, i + 1 as int),
            ));
        }
        i += 1;
    }
    let mut i: usize = 0;
    while i < p.last.len()
        invariant
            i <= p.last.len(),
            str_views_of(all@) == str_views_of(p.first@) + str_views_of(p.von@) + str_views_of(
                p.last@.subrange(0, i as int),
            ),
        decreases p.last.len() - i,
    {
        let ghost a0 = all@;
        all.push(clone_string(&p.last[i]));
        proof {
            assert(str_views_of(all@) =~= str_views_of(a0).push(p.last@[i as int]@));
            assert(str_views_of(all@) =~= str_views_of(p.first@) + str_views_of(p.von@)
                + str_views_of(p.last@.subrange(0, i + 1 as int)));
        }
        i += 1;
    }
    proof {
        assert(p.first@.subrange(0, p.first@.len() as int) =~= p.first@);
        assert(p.von@.subrange(0, p.von@.len() as int) =~= p.von@);
        assert(p.last@.subrange(0, p.last@.len() as int) =~= p.last@);
        assert(str_views_of(all@) =~= p@.first + p@.von + p@.last);
    }
    let base = join_strs(&all, 0, Vec::new());
    if p.junior.len() > 0 {
        let jr = join_strs(&p.junior, 0, Vec::new());
        let mut out = base;
        let ghost b0 = out@;
        out.push(',');
        out.push(' ');
        let out2 = append_range(out, &jr, 0, jr.len());
        proof {
            assert(jr@.subrange(0, jr@.len() as int) =~= jr@);
            assert(out2@ =~= b0 + seq![',', ' '] + jr@);
        }
        chars_to_string(&out2)
    } else {
        chars_to_string(&base)
    }
}

/// A copy of the string, holding the same characters.
pub fn clone_string(s: &String) -> (r: String)
    ensures
        r@ == s@,
{
    s.clone()
}

} // verus!
