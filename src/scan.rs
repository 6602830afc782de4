//! Finding the items of a module and their outer attributes.
use vstd::prelude::*;
use crate::literal::{is_group, is_ident, is_punct};
use crate::text::same_text;
use crate::tokens::{Delim, Tok};

verus! {

/// What an item is, as far as descriptors go. Positions index the
/// top-level tokens of the module.
#[derive(PartialEq, Eq, Structural, Clone, Copy, Debug)]
pub enum ItemKind {
    /// `const NAME: T = <tokens lo..hi>;`
    Const { lo: usize, hi: usize },
    /// `fn <token name>(..) -> <tokens out_lo..out_hi> { .. }`
    Fn { name: usize, out_lo: usize, out_hi: usize },
    /// Any other item.
    Other,
}

/// One outer attribute: the position of its bracketed group, and the item
/// that it is on.
#[derive(PartialEq, Eq, Structural, Clone, Copy, Debug)]
pub struct Mark {
    pub attr: usize,
    pub item: ItemKind,
}

/// A kind of token that a scan stops at.
#[derive(PartialEq, Eq, Structural, Clone, Copy, Debug)]
pub enum Probe {
    /// The end of an item: `;` or a braced group.
    Stop,
    Semi,
    Eq,
    Paren,
    /// The start of a function body, or of its `where` clause.
    BodyStart,
    /// The `fn` keyword, or the end of an item.
    FnKw,
}

pub open spec fn probe_hit(t: Tok, p: Probe) -> bool {
    match p {
        Probe::Stop => is_punct(t, ';') || is_group(t, Delim::Brace),
        Probe::Semi => is_punct(t, ';'),
        Probe::Eq => is_punct(t, '='),
        Probe::Paren => is_group(t, Delim::Paren),
        Probe::BodyStart => is_group(t, Delim::Brace) || is_punct(t, ';') || is_ident(t, "where"@),
        Probe::FnKw => is_ident(t, "fn"@) || is_punct(t, ';') || is_group(t, Delim::Brace),
    }
}

/// The first position at or after `i` whose token `p` hits, or the length.
pub open spec fn find_from(s: Seq<Tok>, i: int, p: Probe) -> int
    decreases s.len() - i,
{
    if i >= s.len() {
        s.len() as int
    } else if probe_hit(s[i], p) {
        i
    } else {
        find_from(s, i + 1, p)
    }
}

pub proof fn lemma_find_from(s: Seq<Tok>, i: int, p: Probe)
    requires
        0 <= i,
    ensures
        i <= find_from(s, i, p) <= s.len() || (i > s.len() && find_from(s, i, p) == s.len()),
        find_from(s, i, p) < s.len() ==> probe_hit(s[find_from(s, i, p)], p),
    decreases s.len() - i,
{
    if i < s.len() && !probe_hit(s[i], p) {
        lemma_find_from(s, i + 1, p);
    }
}

/// The position after the generic parameters `<..>` that open at or
/// before `i`, `depth` angle brackets deep; the `>` of an arrow `->` closes
/// nothing.
pub open spec fn skip_generics(s: Seq<Tok>, i: int, depth: nat) -> int
    decreases s.len() - i,
{
    if i < 0 || i >= s.len() {
        s.len() as int
    } else if is_punct(s[i], '<') {
        skip_generics(s, i + 1, depth + 1)
    } else if is_punct(s[i], '>') && !(i > 0 && is_punct(s[i - 1], '-')) {
        if depth <= 1 {
            i + 1
        } else {
            skip_generics(s, i + 1, (depth - 1) as nat)
        }
    } else {
        skip_generics(s, i + 1, depth)
    }
}

/// Where a function's parameter list is looked for: after its generic
/// parameters, if it has any.
pub open spec fn params_from(s: Seq<Tok>, f: int) -> int {
    if f + 2 < s.len() && is_punct(s[f + 2], '<') {
        skip_generics(s, f + 2, 0)
    } else {
        f + 2
    }
}

/// The position after a visibility: `pub` or `pub(..)`.
pub open spec fn skip_vis(s: Seq<Tok>, j: int) -> int {
    if 0 <= j < s.len() && is_ident(s[j], "pub"@) {
        if j + 1 < s.len() && is_group(s[j + 1], Delim::Paren) {
            j + 2
        } else {
            j + 1
        }
    } else {
        j
    }
}

pub open spec fn end_after(s: Seq<Tok>, k: int) -> int {
    if k < s.len() {
        k + 1
    } else {
        s.len() as int
    }
}

/// The item that starts at `j`, after its attributes, and the position
/// after it.
pub open spec fn item_at(s: Seq<Tok>, j: int) -> (ItemKind, int) {
    let k = skip_vis(s, j);
    if 0 <= k && k + 2 < s.len() && is_ident(s[k], "const"@) && s[k + 1] is Ident && is_punct(
        s[k + 2],
        ':',
    ) {
        let e = find_from(s, k + 3, Probe::Eq);
        let semi = find_from(s, k + 3, Probe::Semi);
        if e < semi {
            (ItemKind::Const { lo: (e + 1) as usize, hi: semi as usize }, end_after(s, semi))
        } else {
            (ItemKind::Other, end_after(s, semi))
        }
    } else {
        let f = find_from(s, j, Probe::FnKw);
        if f + 1 < s.len() && is_ident(s[f], "fn"@) && s[f + 1] is Ident {
            let p = find_from(s, params_from(s, f), Probe::Paren);
            if p < s.len() {
                let arrow = p + 2 < s.len() && is_punct(s[p + 1], '-') && is_punct(s[p + 2], '>');
                let out_lo = if arrow {
                    p + 3
                } else {
                    p + 1
                };
                let b = find_from(s, out_lo, Probe::BodyStart);
                let out_hi = if arrow {
                    b
                } else {
                    out_lo
                };
                let end = find_from(s, b, Probe::Stop);
                (
                    ItemKind::Fn { name: (f + 1) as usize, out_lo: out_lo as usize, out_hi: out_hi as usize },
                    end_after(s, end),
                )
            } else {
                (ItemKind::Other, s.len() as int)
            }
        } else {
            (ItemKind::Other, end_after(s, find_from(s, j, Probe::Stop)))
        }
    }
}

/// Whether an outer attribute `#[..]` starts at `i`.
pub open spec fn outer_attr_at(s: Seq<Tok>, i: int) -> bool {
    0 <= i && i + 1 < s.len() && is_punct(s[i], '#') && is_group(s[i + 1], Delim::Bracket)
}

/// Whether an inner attribute `#![..]` starts at `i`.
pub open spec fn inner_attr_at(s: Seq<Tok>, i: int) -> bool {
    0 <= i && i + 2 < s.len() && is_punct(s[i], '#') && is_punct(s[i + 1], '!') && is_group(
        s[i + 2],
        Delim::Bracket,
    )
}

/// The position after the outer attributes that start at `i`.
pub open spec fn attrs_end(s: Seq<Tok>, i: int) -> int
    decreases s.len() - i,
{
    if i < s.len() && outer_attr_at(s, i) {
        attrs_end(s, i + 2)
    } else {
        i
    }
}

/// The marks of the attributes in `s[i..a)`, all on `item`.
pub open spec fn attr_marks(i: int, a: int, item: ItemKind) -> Seq<Mark> {
    Seq::new(((a - i) / 2) as nat, |m: int| Mark { attr: (i + 2 * m + 1) as usize, item })
}

/// The marks of the items from position `i` on, in order.
pub open spec fn marks_from(s: Seq<Tok>, i: int) -> Seq<Mark>
    decreases s.len() - i,
{
    if i < 0 || i >= s.len() {
        seq![]
    } else if inner_attr_at(s, i) {
        marks_from(s, i + 3)
    } else {
        let a = attrs_end(s, i);
        let (kind, end) = item_at(s, a);
        let next = if end > i {
            end
        } else {
            i + 1
        };
        attr_marks(i, a, kind) + marks_from(s, next)
    }
}

/// Every outer attribute of every top-level item of `s`, in order.
pub open spec fn marks_of(s: Seq<Tok>) -> Seq<Mark> {
    marks_from(s, 0)
}

fn probe(t: &Tok, p: Probe) -> (r: bool)
    ensures
        r == probe_hit(*t, p),
{
    match t {
        Tok::Punct(c) => match p {
            Probe::Stop => *c == ';',
            Probe::Semi => *c == ';',
            Probe::Eq => *c == '=',
            Probe::Paren => false,
            Probe::BodyStart => *c == ';',
            Probe::FnKw => *c == ';',
        },
        Tok::Group(d, _) => match p {
            Probe::Stop => *d == Delim::Brace,
            Probe::Paren => *d == Delim::Paren,
            Probe::BodyStart => *d == Delim::Brace,
            Probe::FnKw => *d == Delim::Brace,
            _ => false,
        },
        Tok::Ident(x) => match p {
            Probe::BodyStart => same_text(x.as_str(), "where"),
            Probe::FnKw => same_text(x.as_str(), "fn"),
            _ => false,
        },
        Tok::Lit(_) => false,
    }
}

fn find(s: &Vec<Tok>, i: usize, p: Probe) -> (r: usize)
    ensures
        r == find_from(s@, i as int, p),
{
    let mut k = i;
    while k < s.len()
        invariant
            i <= k,
            k <= s.len() || k == i,
            find_from(s@, k as int, p) == find_from(s@, i as int, p),
        decreases s.len() - k,
    {
        if probe(&s[k], p) {
            return k;
        }
        k = k + 1;
    }
    s.len()
}

fn is_kw(t: &Tok, w: &str) -> (r: bool)
    ensures
        r == is_ident(*t, w@),
{
    match t {
        Tok::Ident(x) => same_text(x.as_str(), w),
        _ => false,
    }
}

fn is_sym(t: &Tok, c: char) -> (r: bool)
    ensures
        r == is_punct(*t, c),
{
    match t {
        Tok::Punct(x) => *x == c,
        _ => false,
    }
}

fn is_delim(t: &Tok, d: Delim) -> (r: bool)
    ensures
        r == is_group(*t, d),
{
    match t {
        Tok::Group(x, _) => *x == d,
        _ => false,
    }
}

fn is_any_ident(t: &Tok) -> (r: bool)
    ensures
        r == (*t is Ident),
{
    match t {
        Tok::Ident(_) => true,
        _ => false,
    }
}

fn generics_end(s: &Vec<Tok>, f: usize) -> (r: usize)
    requires
        f + 1 < s.len(),
    ensures
        r == params_from(s@, f as int),
{
    let n = s.len();
    if !(n > 2 && f < n - 2 && is_sym(&s[f + 2], '<')) {
        return f + 2;
    }
    let mut i = f + 2;
    let mut depth: usize = 0;
    while i < n
        invariant
            f + 2 <= i <= n == s@.len(),
            depth <= i,
            params_from(s@, f as int) == skip_generics(s@, f + 2, 0),
            skip_generics(s@, i as int, depth as nat) == skip_generics(s@, f + 2, 0),
        decreases n - i,
    {
        if is_sym(&s[i], '<') {
            depth = depth + 1;
        } else if is_sym(&s[i], '>') && !(i > 0 && is_sym(&s[i - 1], '-')) {
            if depth <= 1 {
                assert(is_punct(s@[i as int], '>'));
                assert(!(i > 0 && is_punct(s@[i - 1], '-')));
                assert(skip_generics(s@, i as int, depth as nat) == i + 1);
                return i + 1;
            }
            depth = depth - 1;
        }
        i = i + 1;
    }
    n
}

fn item(s: &Vec<Tok>, j: usize) -> (r: (ItemKind, usize))
    requires
        j <= s.len(),
    ensures
        (r.0, r.1 as int) == item_at(s@, j as int),
{
    let n = s.len();
    let k = if j < n && is_kw(&s[j], "pub") {
        if j + 1 < n && is_delim(&s[j + 1], Delim::Paren) {
            j + 2
        } else {
            j + 1
        }
    } else {
        j
    };
    if n > 2 && k < n - 2 && is_kw(&s[k], "const") && is_any_ident(&s[k + 1]) && is_sym(&s[k + 2], ':') {
        let e = find(s, k + 3, Probe::Eq);
        let semi = find(s, k + 3, Probe::Semi);
        proof {
            lemma_find_from(s@, k + 3, Probe::Semi);
            lemma_find_from(s@, k + 3, Probe::Eq);
        }
        let end = if semi < n {
            semi + 1
        } else {
            n
        };
        if e < semi {
            return (ItemKind::Const { lo: e + 1, hi: semi }, end);
        } else {
            return (ItemKind::Other, end);
        }
    }
    let f = find(s, j, Probe::FnKw);
    proof {
        lemma_find_from(s@, j as int, Probe::FnKw);
    }
    if f < n && f + 1 < n && is_kw(&s[f], "fn") && is_any_ident(&s[f + 1]) {
        let g = generics_end(s, f);
        let p = find(s, g, Probe::Paren);
        proof {
            lemma_find_from(s@, g as int, Probe::Paren);
        }
        if p < n {
            let arrow = n > 2 && p < n - 2 && is_sym(&s[p + 1], '-') && is_sym(&s[p + 2], '>');
            let out_lo = if arrow {
                p + 3
            } else {
                p + 1
            };
            let b = find(s, out_lo, Probe::BodyStart);
            proof {
                lemma_find_from(s@, out_lo as int, Probe::BodyStart);
            }
            let out_hi = if arrow {
                b
            } else {
                out_lo
            };
            let end = find(s, b, Probe::Stop);
            proof {
                lemma_find_from(s@, b as int, Probe::Stop);
            }
            let after = if end < n {
                end + 1
            } else {
                n
            };
            return (ItemKind::Fn { name: f + 1, out_lo, out_hi }, after);
        } else {
            return (ItemKind::Other, n);
        }
    }
    let st = find(s, j, Probe::Stop);
    proof {
        lemma_find_from(s@, j as int, Probe::Stop);
    }
    let after = if st < n {
        st + 1
    } else {
        n
    };
    (ItemKind::Other, after)
}

fn outer_attr(s: &Vec<Tok>, i: usize) -> (r: bool)
    ensures
        r == outer_attr_at(s@, i as int),
{
    i < s.len() && i + 1 < s.len() && is_sym(&s[i], '#') && is_delim(&s[i + 1], Delim::Bracket)
}

fn inner_attr(s: &Vec<Tok>, i: usize) -> (r: bool)
    ensures
        r == inner_attr_at(s@, i as int),
{
    s.len() > 2 && i < s.len() - 2 && is_sym(&s[i], '#') && is_sym(&s[i + 1], '!') && is_delim(
        &s[i + 2],
        Delim::Bracket,
    )
}

/// Lists every outer attribute of every top-level item, in order, with the
/// item it is on.
pub fn scan_marks(s: &Vec<Tok>) -> (r: Vec<Mark>)
    ensures
        r@ == marks_of(s@),
{
    let mut out: Vec<Mark> = Vec::new();
    let mut i: usize = 0;
    while i < s.len()
        invariant
            i <= s.len(),
            out@ + marks_from(s@, i as int) == marks_of(s@),
        decreases s.len() - i,
    {
        if inner_attr(s, i) {
            i = i + 3;
            continue;
        }
        let mut a = i;
        while outer_attr(s, a)
            invariant
                i <= a <= s.len(),
                (a - i) % 2 == 0,
                attrs_end(s@, a as int) == attrs_end(s@, i as int),
                forall|q: int| i <= q < a && (q - i) % 2 == 0 ==> outer_attr_at(s@, q),
            decreases s.len() - a,
        {
            a = a + 2;
        }
        let (kind, end) = item(s, a);
        let ghost start = out@;
        let mut q = i;
        while q < a
            invariant
                i <= q <= a,
                (q - i) % 2 == 0,
                (a - i) % 2 == 0,
                out@ == start + attr_marks(i as int, q as int, kind),
            decreases a - q,
        {
            out.push(Mark { attr: q + 1, item: kind });
            assert(attr_marks(i as int, q + 2, kind) =~= attr_marks(i as int, q as int, kind).push(
                Mark { attr: (q + 1) as usize, item: kind },
            ));
            q = q + 2;
        }
        let next = if end > i {
            end
        } else {
            i + 1
        };
        assert(marks_from(s@, i as int) == attr_marks(i as int, a as int, kind) + marks_from(s@, next as int));
        assert(out@ + marks_from(s@, next as int) =~= start + marks_from(s@, i as int));
        i = next;
    }
    assert(out@ + marks_from(s@, i as int) =~= out@);
    out
}

} // verus!
