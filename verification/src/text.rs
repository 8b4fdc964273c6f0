//! Conversions between `&str` / `String` and the `Vec<char>` form the
//! parser works on, each preserving the character sequence exactly.
use vstd::prelude::*;

verus! {

/// The characters of a string slice, in order.
pub fn chars_of(s: &str) -> (r: Vec<char>)
    ensures
        r@ == s@,
{
    let n = s.unicode_len();
    let mut r: Vec<char> = Vec::new();
    let mut i: usize = 0;
    while i < n
        invariant
            i <= n,
            n == s@.len(),
            r@ == s@.subrange(0, i as int),
        decreases n - i,
    {
        r.push(s.get_char(i));
        proof {
            assert(r@ =~= s@.subrange(0, i + 1 as int));
        }
        i += 1;
    }
    proof {
        assert(r@ =~= s@);
    }
    r
}

/// Relies on String::push: appends exactly the given character.
#[verifier::external_body]
fn push_char(s: &mut String, c: char)
    ensures
        final(s)@ == old(s)@.push(c),
{
    s.push(c);
}

/// The string holding exactly the given characters, in order.
pub fn chars_to_string(v: &Vec<char>) -> (r: String)
    ensures
        r@ == v@,
{
    let mut r = String::new();
    let mut i: usize = 0;
    while i < v.len()
        invariant
            i <= v.len(),
            r@ == v@.subrange(0, i as int),
        decreases v.len() - i,
    {
        push_char(&mut r, v[i]);
        proof {
            assert(r@ =~= v@.subrange(0, i + 1 as int));
        }
        i += 1;
    }
    proof {
        assert(r@ =~= v@);
    }
    r
}

/// The views of a sequence of character vectors.
pub open spec fn views_of(ws: Seq<Vec<char>>) -> Seq<Seq<char>> {
    ws.map_values(|w: Vec<char>| w@)
}

/// The views of a sequence of strings.
pub open spec fn str_views_of(ws: Seq<String>) -> Seq<Seq<char>> {
    ws.map_values(|w: String| w@)
}

/// Each character vector turned into a string, in order.
pub fn strings_of(ws: &Vec<Vec<char>>) -> (r: Vec<String>)
    ensures
        str_views_of(r@) == views_of(ws@),
{
    let mut r: Vec<String> = Vec::new();
    let mut i: usize = 0;
    while i < ws.len()
        invariant
            i <= ws.len(),
            str_views_of(r@) == views_of(ws@.subrange(0, i as int)),
        decreases ws.len() - i,
    {
        let ghost r0 = r@;
        r.push(chars_to_string(&ws[i]));
        proof {
            assert(views_of(ws@.subrange(0, i + 1 as int)) =~= views_of(
                ws@.subrange(0, i as int),
            ).push(ws@[i as int]@));
            assert(str_views_of(r@) =~= str_views_of(r0).push(r@[i as int]@));
            assert(str_views_of(r@) =~= views_of(ws@.subrange(0, i + 1 as int)));
        }
        i += 1;
    }
    proof {
        assert(ws@.subrange(0, ws@.len() as int) =~= ws@);
    }
    r
}

/// The two vectors joined, the first one's items first.
pub fn append_all<T>(a: Vec<T>, b: Vec<T>) -> (r: Vec<T>)
    ensures
        r@ == a@ + b@,
{
    let ghost a0 = a@;
    let ghost b0 = b@;
    let mut a = a;
    let mut b = b;
    while b.len() > 0
        invariant
            a@ + b@ == a0 + b0,
        decreases b.len(),
    {
        let ghost aa = a@;
        let ghost bb = b@;
        let x = b.remove(0);
        a.push(x);
        proof {
            assert(a@ + b@ =~= aa + bb);
        }
    }
    proof {
        assert(a@ =~= a@ + b@);
    }
    a
}

} // verus!
