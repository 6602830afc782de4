//! Small text operations with exact contracts.
use vstd::prelude::*;

verus! {

/// Whether two strings hold the same characters.
pub fn same_text(a: &str, b: &str) -> (r: bool)
    ensures
        r == (a@ == b@),
{
    let n = a.unicode_len();
    if n != b.unicode_len() {
        return false;
    }
    let mut i: usize = 0;
    while i < n
        invariant
            n == a@.len(),
            n == b@.len(),
            i <= n,
            a@.subrange(0, i as int) == b@.subrange(0, i as int),
        decreases n - i,
    {
        if a.get_char(i) != b.get_char(i) {
            return false;
        }
        assert(a@.subrange(0, i + 1) == a@.subrange(0, i as int).push(a@[i as int]));
        assert(b@.subrange(0, i + 1) == b@.subrange(0, i as int).push(b@[i as int]));
        i = i + 1;
    }
    assert(a@ == a@.subrange(0, n as int));
    assert(b@ == b@.subrange(0, n as int));
    true
}


/// Lexicographic order of character sequences, by code point.
pub open spec fn text_lt(a: Seq<char>, b: Seq<char>) -> bool
    decreases a.len(),
{
    if a.len() == 0 {
        b.len() > 0
    } else if b.len() == 0 {
        false
    } else if a[0] != b[0] {
        (a[0] as u32) < (b[0] as u32)
    } else {
        text_lt(a.drop_first(), b.drop_first())
    }
}

/// Whether `a` sorts strictly before `b`.
pub fn text_less(a: &str, b: &str) -> (r: bool)
    ensures
        r == text_lt(a@, b@),
{
    let n = a.unicode_len();
    let m = b.unicode_len();
    let mut i: usize = 0;
    assert(a@.skip(0) =~= a@);
    assert(b@.skip(0) =~= b@);
    while i < n && i < m
        invariant
            n == a@.len(),
            m == b@.len(),
            i <= n,
            i <= m,
            text_lt(a@, b@) == text_lt(a@.skip(i as int), b@.skip(i as int)),
        decreases n - i,
    {
        let x = a.get_char(i);
        let y = b.get_char(i);
        assert(a@.skip(i as int)[0] == x);
        assert(b@.skip(i as int)[0] == y);
        if x != y {
            return (x as u32) < (y as u32);
        }
        assert(a@.skip(i as int).drop_first() =~= a@.skip(i + 1));
        assert(b@.skip(i as int).drop_first() =~= b@.skip(i + 1));
        i = i + 1;
    }
    i == n && i < m
}

/// `s` with `x` added in its sorted place, unless `s` holds it already.
pub open spec fn insert_sorted(s: Seq<Seq<char>>, x: Seq<char>) -> Seq<Seq<char>>
    decreases s.len(),
{
    if s.len() == 0 {
        seq![x]
    } else if s[0] == x {
        s
    } else if text_lt(x, s[0]) {
        seq![x] + s
    } else {
        seq![s[0]] + insert_sorted(s.drop_first(), x)
    }
}

pub open spec fn texts(v: Seq<String>) -> Seq<Seq<char>> {
    v.map_values(|x: String| x@)
}

/// Adds `x` to the sorted list `v` in its place, unless `v` holds it.
pub fn add_sorted(v: &mut Vec<String>, x: &str)
    ensures
        texts(final(v)@) == insert_sorted(texts(old(v)@), x@),
{
    let ghost s0 = texts(v@);
    let mut i: usize = 0;
    assert(s0.skip(0) =~= s0);
    assert(s0.take(0) + s0 =~= s0);
    while i < v.len()
        invariant
            i <= v.len(),
            s0 == texts(v@),
            s0 == texts(old(v)@),
            insert_sorted(s0, x@) == s0.take(i as int) + insert_sorted(s0.skip(i as int), x@),
        decreases v.len() - i,
    {
        assert(s0.skip(i as int)[0] == v@[i as int]@);
        if same_text(v[i].as_str(), x) {
            assert(s0.take(i as int) + s0.skip(i as int) =~= s0);
            return;
        }
        if text_less(x, v[i].as_str()) {
            assert(insert_sorted(s0.skip(i as int), x@) == seq![x@] + s0.skip(i as int));
            v.insert(i, String::from_str(x));
            assert(texts(v@) =~= s0.take(i as int) + (seq![x@] + s0.skip(i as int)));
            return;
        }
        assert(s0.skip(i as int).drop_first() =~= s0.skip(i + 1));
        assert(s0.take(i + 1) =~= s0.take(i as int).push(s0[i as int]));
        assert(s0.take(i as int) + insert_sorted(s0.skip(i as int), x@) =~= s0.take(i + 1)
            + insert_sorted(s0.skip(i + 1), x@));
        i = i + 1;
    }
    assert(s0.skip(i as int) =~= seq![]);
    v.push(String::from_str(x));
    assert(texts(v@) =~= s0.take(i as int) + seq![x@]);
}


/// Whether `c` has Unicode's White_Space property (what
/// `char::is_whitespace` tests).
pub open spec fn is_blank(c: char) -> bool {
    let u = c as u32;
    (0x09 <= u <= 0x0D) || u == 0x20 || u == 0x85 || u == 0xA0 || u == 0x1680 || (0x2000 <= u
        <= 0x200A) || u == 0x2028 || u == 0x2029 || u == 0x202F || u == 0x205F || u == 0x3000
}

pub open spec fn trim_end(x: Seq<char>) -> Seq<char>
    decreases x.len(),
{
    if x.len() > 0 && is_blank(x.last()) {
        trim_end(x.drop_last())
    } else {
        x
    }
}

pub open spec fn trim_start(x: Seq<char>) -> Seq<char>
    decreases x.len(),
{
    if x.len() > 0 && is_blank(x[0]) {
        trim_start(x.drop_first())
    } else {
        x
    }
}

/// A line without its leading and trailing white space.
pub open spec fn trimmed(x: Seq<char>) -> Seq<char> {
    trim_start(trim_end(x))
}

pub open spec fn push_nonempty(v: Seq<Seq<char>>, x: Seq<char>) -> Seq<Seq<char>> {
    if x.len() > 0 {
        v.push(x)
    } else {
        v
    }
}

/// The finished lines and the current line after reading `s`.
pub open spec fn lines_fold(s: Seq<char>) -> (Seq<Seq<char>>, Seq<char>)
    decreases s.len(),
{
    if s.len() == 0 {
        (seq![], seq![])
    } else {
        let (done, cur) = lines_fold(s.drop_last());
        if s.last() == '\n' {
            (push_nonempty(done, trimmed(cur)), seq![])
        } else {
            (done, cur.push(s.last()))
        }
    }
}

/// The non-blank lines of `s`, trimmed, in order.
pub open spec fn word_lines(s: Seq<char>) -> Seq<Seq<char>> {
    let (done, cur) = lines_fold(s);
    push_nonempty(done, trimmed(cur))
}

/// Relies on `FromIterator<&char> for String`: the characters as a string.
#[verifier::external_body]
pub(crate) fn string_of(v: &Vec<char>) -> (r: String)
    ensures
        r@ == v@,
{
    v.iter().collect()
}

/// Relies on `str::chars` collected into a `Vec`: the characters in order.
#[verifier::external_body]
pub(crate) fn chars_of(s: &str) -> (r: Vec<char>)
    ensures
        r@ == s@,
{
    s.chars().collect()
}

fn blank(c: char) -> (r: bool)
    ensures
        r == is_blank(c),
{
    let u = c as u32;
    (0x09 <= u && u <= 0x0D) || u == 0x20 || u == 0x85 || u == 0xA0 || u == 0x1680 || (0x2000 <= u
        && u <= 0x200A) || u == 0x2028 || u == 0x2029 || u == 0x202F || u == 0x205F || u == 0x3000
}

fn trim_line(cur: &Vec<char>) -> (r: Vec<char>)
    ensures
        r@ == trimmed(cur@),
{
    let mut end = cur.len();
    assert(cur@.take(end as int) =~= cur@);
    while end > 0 && blank(cur[end - 1])
        invariant
            end <= cur.len(),
            trim_end(cur@) == trim_end(cur@.take(end as int)),
        decreases end,
    {
        assert(cur@.take(end as int).drop_last() =~= cur@.take(end - 1));
        end = end - 1;
    }
    let ghost te = cur@.take(end as int);
    assert(trim_end(cur@) == te) by {
        assert(cur@.take(end as int) =~= te);
    }
    let mut start: usize = 0;
    assert(te.skip(0) =~= te);
    while start < end && blank(cur[start])
        invariant
            start <= end <= cur.len(),
            te == cur@.take(end as int),
            trim_start(te) == trim_start(te.skip(start as int)),
        decreases end - start,
    {
        assert(te.skip(start as int).drop_first() =~= te.skip(start + 1));
        start = start + 1;
    }
    let mut out: Vec<char> = Vec::new();
    let mut k = start;
    while k < end
        invariant
            start <= k <= end <= cur.len(),
            out@ == cur@.subrange(start as int, k as int),
        decreases end - k,
    {
        out.push(cur[k]);
        assert(cur@.subrange(start as int, k + 1) =~= cur@.subrange(start as int, k as int).push(cur@[k as int]));
        k = k + 1;
    }
    assert(te.skip(start as int) =~= out@);
    out
}

/// Reads a list of words, one per line: each line trimmed of white space,
/// empty lines left out.
pub fn word_list(text: &str) -> (r: Vec<String>)
    ensures
        texts(r@) == word_lines(text@),
{
    let cs = chars_of(text);
    let mut done: Vec<String> = Vec::new();
    let mut cur: Vec<char> = Vec::new();
    let mut i: usize = 0;
    assert(cs@.take(0) =~= seq![]);
    assert(texts(done@) =~= seq![]);
    while i < cs.len()
        invariant
            i <= cs.len(),
            lines_fold(cs@.take(i as int)) == (texts(done@), cur@),
        decreases cs.len() - i,
    {
        assert(cs@.take(i + 1).drop_last() =~= cs@.take(i as int));
        if cs[i] == '\n' {
            let t = trim_line(&cur);
            if t.len() > 0 {
                let ghost before = texts(done@);
                done.push(string_of(&t));
                assert(texts(done@) =~= before.push(t@));
            }
            cur = Vec::new();
            assert(cur@ =~= seq![]);
        } else {
            cur.push(cs[i]);
        }
        i = i + 1;
    }
    assert(cs@.take(i as int) =~= cs@);
    let t = trim_line(&cur);
    if t.len() > 0 {
        let ghost before = texts(done@);
        done.push(string_of(&t));
        assert(texts(done@) =~= before.push(t@));
    }
    done
}

} // verus!
