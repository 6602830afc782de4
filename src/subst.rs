//! Substituting named points of a template.
use vstd::prelude::*;
use crate::text::{chars_of, string_of};

verus! {

/// `s` with every occurrence of `pat`, left to right and without overlap,
/// replaced by `with`.
pub open spec fn replaced(s: Seq<char>, pat: Seq<char>, with: Seq<char>) -> Seq<char>
    decreases s.len(),
{
    if pat.len() == 0 || s.len() == 0 {
        s
    } else if s.len() >= pat.len() && s.take(pat.len() as int) == pat {
        with + replaced(s.skip(pat.len() as int), pat, with)
    } else {
        seq![s[0]] + replaced(s.skip(1), pat, with)
    }
}

fn starts_at(s: &Vec<char>, i: usize, p: &Vec<char>) -> (r: bool)
    requires
        i <= s.len(),
    ensures
        r == (s@.skip(i as int).len() >= p@.len() && s@.skip(i as int).take(p@.len() as int) == p@),
{
    if s.len() - i < p.len() {
        return false;
    }
    let mut k: usize = 0;
    while k < p.len()
        invariant
            k <= p.len(),
            i + p.len() <= s.len(),
            forall|j: int| 0 <= j < k ==> s@[i + j] == p@[j],
        decreases p.len() - k,
    {
        if s[i + k] != p[k] {
            assert(s@.skip(i as int).take(p@.len() as int)[k as int] != p@[k as int]);
            return false;
        }
        k = k + 1;
    }
    assert(s@.skip(i as int).take(p@.len() as int) =~= p@);
    true
}

/// Replaces every occurrence of `pat` in `s` by `with`, as `str::replace`
/// does.
pub fn replace_all(s: &str, pat: &str, with: &str) -> (r: String)
    ensures
        r@ == replaced(s@, pat@, with@),
{
    let cs = chars_of(s);
    let ps = chars_of(pat);
    let ws = chars_of(with);
    if ps.len() == 0 {
        return string_of(&cs);
    }
    let mut out: Vec<char> = Vec::new();
    let mut i: usize = 0;
    assert(cs@.skip(0) =~= cs@);
    while i < cs.len()
        invariant
            i <= cs.len(),
            ps@.len() > 0,
            out@ + replaced(cs@.skip(i as int), ps@, ws@) == replaced(cs@, ps@, ws@),
        decreases cs.len() - i,
    {
        let ghost rest = cs@.skip(i as int);
        if starts_at(&cs, i, &ps) {
            let mut k: usize = 0;
            let ghost before = out@;
            while k < ws.len()
                invariant
                    k <= ws.len(),
                    out@ == before + ws@.take(k as int),
                decreases ws.len() - k,
            {
                out.push(ws[k]);
                assert(ws@.take(k + 1) =~= ws@.take(k as int).push(ws@[k as int]));
                k = k + 1;
            }
            assert(ws@.take(k as int) =~= ws@);
            assert(rest.skip(ps@.len() as int) =~= cs@.skip(i + ps@.len()));
            assert(out@ + replaced(cs@.skip(i + ps@.len()), ps@, ws@) =~= before + replaced(rest, ps@, ws@));
            i = i + ps.len();
        } else {
            let ghost before = out@;
            out.push(cs[i]);
            assert(rest.skip(1) =~= cs@.skip(i + 1));
            assert(out@ + replaced(cs@.skip(i + 1), ps@, ws@) =~= before + replaced(rest, ps@, ws@));
            i = i + 1;
        }
    }
    assert(cs@.skip(i as int) =~= seq![]);
    assert(out@ + replaced(cs@.skip(i as int), ps@, ws@) =~= out@);
    string_of(&out)
}

} // verus!
