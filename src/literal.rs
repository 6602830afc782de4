//! Values written in the small literal grammar of descriptors: strings,
//! booleans, floats, paths, `Some(..)` / `None`, `&[..]` arrays, tuples and
//! struct literals.
use vstd::prelude::*;
use crate::menu::{debug_quoted, quote};
use crate::text::string_of;
use crate::tokens::{Delim, Tok, push_chars, range_text, tok_string, tok_text, toks_text};
use crate::text::same_text;

verus! {

broadcast use vstd::std_specs::vec::group_vec_axioms, vstd::seq::group_seq_axioms;

/// The value of a string literal written as `text`, escapes resolved.
pub uninterp spec fn str_literal_value(text: Seq<char>) -> Option<Seq<char>>;

/// The base-10 digits of a float literal written as `text`, without
/// underscores or suffix.
pub uninterp spec fn float_literal_digits(text: Seq<char>) -> Option<Seq<char>>;

/// Relies on syn's `LitStr` parser and `LitStr::value`: the value of the
/// string literal `text`; `None` where `text` is not one string literal.
#[verifier::external_body]
fn string_literal(text: &str) -> (r: Option<String>)
    ensures
        match r {
            Some(v) => str_literal_value(text@) == Some(v@),
            None => str_literal_value(text@) is None,
        },
{
    syn::parse_str::<syn::LitStr>(text).ok().map(|l| l.value())
}

/// Relies on syn's `LitFloat` parser and `LitFloat::base10_digits`: the
/// digits of the float literal `text`; `None` where `text` is not one float
/// literal.
#[verifier::external_body]
fn float_literal(text: &str) -> (r: Option<String>)
    ensures
        match r {
            Some(v) => float_literal_digits(text@) == Some(v@),
            None => float_literal_digits(text@) is None,
        },
{
    syn::parse_str::<syn::LitFloat>(text).ok().map(|l| l.base10_digits().to_string())
}

/// A value of the literal grammar.
#[derive(Debug)]
pub enum Value {
    Str(String),
    Bool(bool),
    Float(String),
    Path(Vec<String>),
    OptNone,
    OptSome(Box<Value>),
    Array(Vec<Value>),
    Tuple(Vec<Value>),
    Struct(Vec<String>, Vec<Field>),
    /// An expression outside the literal grammar, as text.
    Opaque(String),
}

/// One `name: value` field of a struct literal.
#[derive(Debug)]
pub struct Field {
    pub name: String,
    pub value: Value,
}

/// The mathematical form of a [`Value`].
pub enum ValueV {
    Str(Seq<char>),
    Bool(bool),
    Float(Seq<char>),
    Path(Seq<Seq<char>>),
    OptNone,
    OptSome(Box<ValueV>),
    Array(Seq<ValueV>),
    Tuple(Seq<ValueV>),
    Struct(Seq<Seq<char>>, Seq<(Seq<char>, ValueV)>),
    Opaque(Seq<char>),
}

pub open spec fn texts_view(s: Seq<String>) -> Seq<Seq<char>> {
    s.map_values(|x: String| x@)
}

impl Value {
    pub open spec fn view(self) -> ValueV
        decreases self,
    {
        match self {
            Value::Str(s) => ValueV::Str(s@),
            Value::Bool(b) => ValueV::Bool(b),
            Value::Float(d) => ValueV::Float(d@),
            Value::Path(p) => ValueV::Path(texts_view(p@)),
            Value::OptNone => ValueV::OptNone,
            Value::OptSome(b) => ValueV::OptSome(Box::new((*b).view())),
            Value::Array(v) => ValueV::Array(values_view(v@)),
            Value::Tuple(v) => ValueV::Tuple(values_view(v@)),
            Value::Struct(p, f) => ValueV::Struct(texts_view(p@), fields_view(f@)),
            Value::Opaque(t) => ValueV::Opaque(t@),
        }
    }
}

pub open spec fn values_view(s: Seq<Value>) -> Seq<ValueV>
    decreases s,
{
    if s.len() == 0 {
        seq![]
    } else {
        values_view(s.drop_last()).push(s.last().view())
    }
}

pub open spec fn fields_view(s: Seq<Field>) -> Seq<(Seq<char>, ValueV)>
    decreases s,
{
    if s.len() == 0 {
        seq![]
    } else {
        fields_view(s.drop_last()).push((s.last().name@, s.last().value.view()))
    }
}

pub open spec fn is_punct(t: Tok, c: char) -> bool {
    t matches Tok::Punct(x) && x == c
}

pub open spec fn is_ident(t: Tok, w: Seq<char>) -> bool {
    t matches Tok::Ident(x) && x@ == w
}

pub open spec fn is_group(t: Tok, d: Delim) -> bool {
    t matches Tok::Group(x, _) && x == d
}

/// The position of the first `,` in `s[lo..hi)`, or `hi` where there is none.
pub open spec fn next_comma(s: Seq<Tok>, lo: int, hi: int) -> int
    decreases hi - lo,
{
    if lo >= hi {
        hi
    } else if is_punct(s[lo], ',') {
        lo
    } else {
        next_comma(s, lo + 1, hi)
    }
}

/// The segments of the path `a::b::c` that fills `s[lo..hi)` exactly.
pub open spec fn path_of(s: Seq<Tok>, lo: int, hi: int) -> Option<Seq<Seq<char>>>
    decreases hi - lo,
{
    if 0 <= lo < hi <= s.len() && s[lo] is Ident {
        if hi - lo == 1 {
            Some(seq![s[lo]->Ident_0@])
        } else if hi - lo >= 4 && is_punct(s[lo + 1], ':') && is_punct(s[lo + 2], ':') {
            match path_of(s, lo + 3, hi) {
                Some(rest) => Some(seq![s[lo]->Ident_0@] + rest),
                None => None,
            }
        } else {
            None
        }
    } else {
        None
    }
}

/// The value of the single token `t`.
pub open spec fn token_value(t: Tok) -> Option<ValueV> {
    match t {
        Tok::Lit(x) => match str_literal_value(x@) {
            Some(v) => Some(ValueV::Str(v)),
            None => match float_literal_digits(x@) {
                Some(d) => Some(ValueV::Float(d)),
                None => Some(ValueV::Opaque(tok_text(t))),
            },
        },
        Tok::Ident(x) => if x@ == "true"@ {
            Some(ValueV::Bool(true))
        } else if x@ == "false"@ {
            Some(ValueV::Bool(false))
        } else if x@ == "None"@ {
            Some(ValueV::OptNone)
        } else {
            Some(ValueV::Path(seq![x@]))
        },
        _ => Some(ValueV::Opaque(tok_text(t))),
    }
}

/// The value written by the tokens `s[lo..hi)`; `Opaque` where they write
/// none of the literal grammar, `None` where the range is empty.
pub open spec fn value_of(s: Seq<Tok>, lo: int, hi: int) -> Option<ValueV>
    decreases s, hi - lo, 0int,
{
    if !(0 <= lo < hi <= s.len()) {
        None
    } else if hi - lo == 1 {
        match s[lo] {
            Tok::Group(Delim::Paren, inner) => match list_of(inner@, 0, inner@.len() as int) {
                Some(vs) => Some(ValueV::Tuple(vs)),
                None => Some(ValueV::Opaque(toks_text(s.subrange(lo, hi)))),
            },
            _ => token_value(s[lo]),
        }
    } else if hi - lo == 2 && is_punct(s[lo], '&') && is_group(s[lo + 1], Delim::Bracket) {
        let inner = s[lo + 1]->Group_1;
        match list_of(inner@, 0, inner@.len() as int) {
            Some(vs) => Some(ValueV::Array(vs)),
            None => Some(ValueV::Opaque(toks_text(s.subrange(lo, hi)))),
        }
    } else if hi - lo == 2 && is_ident(s[lo], "Some"@) && is_group(s[lo + 1], Delim::Paren) {
        let inner = s[lo + 1]->Group_1;
        match list_of(inner@, 0, inner@.len() as int) {
            Some(vs) => if vs.len() == 1 {
                Some(ValueV::OptSome(Box::new(vs[0])))
            } else {
                Some(ValueV::Opaque(toks_text(s.subrange(lo, hi))))
            },
            None => Some(ValueV::Opaque(toks_text(s.subrange(lo, hi)))),
        }
    } else if is_group(s[hi - 1], Delim::Brace) {
        let inner = s[hi - 1]->Group_1;
        match (path_of(s, lo, hi - 1), fields_of(inner@, 0, inner@.len() as int, ':')) {
            (Some(p), Some(fs)) => Some(ValueV::Struct(p, fs)),
            _ => Some(ValueV::Opaque(toks_text(s.subrange(lo, hi)))),
        }
    } else {
        match path_of(s, lo, hi) {
            Some(p) => Some(ValueV::Path(p)),
            None => Some(ValueV::Opaque(toks_text(s.subrange(lo, hi)))),
        }
    }
}

/// The values of the comma-separated list `s[lo..hi)` (a trailing comma is
/// allowed).
pub open spec fn list_of(s: Seq<Tok>, lo: int, hi: int) -> Option<Seq<ValueV>>
    decreases s, hi - lo, 1int,
{
    if lo >= hi {
        Some(seq![])
    } else {
        let k = next_comma(s, lo, hi);
        if !(lo <= k <= hi) {
            None
        } else {
            match value_of(s, lo, k) {
                Some(v) => if k >= hi {
                    Some(seq![v])
                } else {
                    match list_of(s, k + 1, hi) {
                        Some(vs) => Some(seq![v] + vs),
                        None => None,
                    }
                },
                None => None,
            }
        }
    }
}

/// The `name <sep> value` pairs of `s[lo..hi)`, separated by commas: the
/// fields of a struct literal body (`sep` is `:`), or the arguments of an
/// attribute (`sep` is `=`).
pub open spec fn fields_of(s: Seq<Tok>, lo: int, hi: int, sep: char) -> Option<Seq<(Seq<char>, ValueV)>>
    decreases s, hi - lo, 1int,
{
    if lo >= hi {
        Some(seq![])
    } else {
        let k = next_comma(s, lo, hi);
        if !(lo + 3 <= k <= hi && s[lo] is Ident && is_punct(s[lo + 1], sep)) {
            None
        } else {
            match value_of(s, lo + 2, k) {
                Some(v) => {
                    let f = (s[lo]->Ident_0@, v);
                    if k >= hi {
                        Some(seq![f])
                    } else {
                        match fields_of(s, k + 1, hi, sep) {
                            Some(fs) => Some(seq![f] + fs),
                            None => None,
                        }
                    }
                },
                None => None,
            }
        }
    }
}


pub proof fn lemma_values_view(s: Seq<Value>)
    ensures
        values_view(s).len() == s.len(),
        forall|i: int| 0 <= i < s.len() ==> #[trigger] values_view(s)[i] == s[i].view(),
    decreases s.len(),
{
    if s.len() > 0 {
        lemma_values_view(s.drop_last());
    }
}

pub proof fn lemma_fields_view(s: Seq<Field>)
    ensures
        fields_view(s).len() == s.len(),
        forall|i: int|
            0 <= i < s.len() ==> #[trigger] fields_view(s)[i] == (s[i].name@, s[i].value.view()),
    decreases s.len(),
{
    if s.len() > 0 {
        lemma_fields_view(s.drop_last());
    }
}

fn find_comma(s: &Vec<Tok>, lo: usize, hi: usize) -> (k: usize)
    requires
        lo <= hi <= s.len(),
    ensures
        k == next_comma(s@, lo as int, hi as int),
        lo <= k <= hi,
{
    let mut i = lo;
    while i < hi
        invariant
            lo <= i <= hi <= s.len(),
            next_comma(s@, i as int, hi as int) == next_comma(s@, lo as int, hi as int),
        decreases hi - i,
    {
        if let Tok::Punct(c) = &s[i] {
            if *c == ',' {
                return i;
            }
        }
        i = i + 1;
    }
    i
}

fn parse_path(s: &Vec<Tok>, lo: usize, hi: usize) -> (r: Option<Vec<String>>)
    ensures
        match r {
            Some(p) => path_of(s@, lo as int, hi as int) == Some(texts_view(p@)),
            None => path_of(s@, lo as int, hi as int) is None,
        },
    decreases hi - lo,
{
    if !(lo < hi && hi <= s.len()) {
        return None;
    }
    let first = match &s[lo] {
        Tok::Ident(x) => x.clone(),
        _ => return None,
    };
    if hi - lo == 1 {
        let r = vec![first];
        assert(texts_view(r@) =~= seq![s@[lo as int]->Ident_0@]);
        return Some(r);
    }
    if hi - lo >= 4 {
        let c1 = match &s[lo + 1] {
            Tok::Punct(c) => *c == ':',
            _ => false,
        };
        let c2 = match &s[lo + 2] {
            Tok::Punct(c) => *c == ':',
            _ => false,
        };
        if c1 && c2 {
            match parse_path(s, lo + 3, hi) {
                Some(rest) => {
                    let mut r = rest;
                    let ghost old_r = r@;
                    r.insert(0, first);
                    assert(texts_view(r@) =~= seq![s@[lo as int]->Ident_0@] + texts_view(old_r));
                    return Some(r);
                },
                None => return None,
            }
        }
    }
    None
}

fn token_value_exec(t: &Tok) -> (r: Option<Value>)
    ensures
        match r {
            Some(v) => token_value(*t) == Some(v.view()),
            None => token_value(*t) is None,
        },
{
    match t {
        Tok::Lit(x) => match string_literal(x.as_str()) {
            Some(v) => Some(Value::Str(v)),
            None => match float_literal(x.as_str()) {
                Some(d) => Some(Value::Float(d)),
                None => Some(Value::Opaque(tok_string(t))),
            },
        },
        Tok::Ident(x) => {
            if same_text(x.as_str(), "true") {
                Some(Value::Bool(true))
            } else if same_text(x.as_str(), "false") {
                Some(Value::Bool(false))
            } else if same_text(x.as_str(), "None") {
                Some(Value::OptNone)
            } else {
                let p = vec![x.clone()];
                assert(texts_view(p@) =~= seq![x@]);
                Some(Value::Path(p))
            }
        },
        _ => Some(Value::Opaque(tok_string(t))),
    }
}

/// Parses the value written by the tokens `s[lo..hi)`.
pub fn parse_value(s: &Vec<Tok>, lo: usize, hi: usize) -> (r: Option<Value>)
    ensures
        match r {
            Some(v) => value_of(s@, lo as int, hi as int) == Some(v.view()),
            None => value_of(s@, lo as int, hi as int) is None,
        },
    decreases s@, hi - lo, 0int,
{
    if !(lo < hi && hi <= s.len()) {
        return None;
    }
    if hi - lo == 1 {
        if let Tok::Group(d, inner) = &s[lo] {
            if *d == Delim::Paren {
                return match parse_list(inner, 0, inner.len()) {
                    Some(vs) => Some(Value::Tuple(vs)),
                    None => Some(Value::Opaque(range_text(s, lo, hi))),
                };
            }
        }
        return token_value_exec(&s[lo]);
    }
    if hi - lo == 2 {
        let amp = match &s[lo] {
            Tok::Punct(c) => *c == '&',
            _ => false,
        };
        if amp {
            if let Tok::Group(d, inner) = &s[lo + 1] {
                if *d == Delim::Bracket {
                    return match parse_list(inner, 0, inner.len()) {
                        Some(vs) => Some(Value::Array(vs)),
                        None => Some(Value::Opaque(range_text(s, lo, hi))),
                    };
                }
            }
        }
        let some = match &s[lo] {
            Tok::Ident(x) => same_text(x.as_str(), "Some"),
            _ => false,
        };
        if some {
            if let Tok::Group(d, inner) = &s[lo + 1] {
                if *d == Delim::Paren {
                    return match parse_list(inner, 0, inner.len()) {
                        Some(vs) => {
                            proof {
                                lemma_values_view(vs@);
                            }
                            if vs.len() == 1 {
                                let ghost vv = values_view(vs@);
                                let mut vs = vs;
                                let v = vs.pop().unwrap();
                                assert(v.view() == vv[0]);
                                let r = Value::OptSome(Box::new(v));
                                assert(r.view() == ValueV::OptSome(Box::new(vv[0])));
                                Some(r)
                            } else {
                                Some(Value::Opaque(range_text(s, lo, hi)))
                            }
                        },
                        None => Some(Value::Opaque(range_text(s, lo, hi))),
                    };
                }
            }
        }
    }
    if let Tok::Group(d, inner) = &s[hi - 1] {
        if *d == Delim::Brace {
            let p = parse_path(s, lo, hi - 1);
            let fs = parse_fields(inner, 0, inner.len(), ':');
            return match (p, fs) {
                (Some(p), Some(fs)) => Some(Value::Struct(p, fs)),
                _ => Some(Value::Opaque(range_text(s, lo, hi))),
            };
        }
    }
    match parse_path(s, lo, hi) {
        Some(p) => Some(Value::Path(p)),
        None => Some(Value::Opaque(range_text(s, lo, hi))),
    }
}

/// Parses the comma-separated values of `s[lo..hi)`.
pub fn parse_list(s: &Vec<Tok>, lo: usize, hi: usize) -> (r: Option<Vec<Value>>)
    requires
        hi <= s.len(),
    ensures
        match r {
            Some(vs) => list_of(s@, lo as int, hi as int) == Some(values_view(vs@)),
            None => list_of(s@, lo as int, hi as int) is None,
        },
    decreases s@, hi - lo, 1int,
{
    if lo >= hi {
        let r: Vec<Value> = Vec::new();
        assert(values_view(r@) =~= seq![]);
        return Some(r);
    }
    let k = find_comma(s, lo, hi);
    let v = match parse_value(s, lo, k) {
        Some(v) => v,
        None => return None,
    };
    if k >= hi {
        let r = vec![v];
        proof {
            lemma_values_view(r@);
        }
        assert(values_view(r@) =~= seq![r@[0].view()]);
        return Some(r);
    }
    match parse_list(s, k + 1, hi) {
        Some(rest) => {
            let ghost vv = v.view();
            let mut r = rest;
            let ghost old_r = r@;
            r.insert(0, v);
            proof {
                lemma_values_view(r@);
                lemma_values_view(old_r);
            }
            assert(values_view(r@) =~= seq![vv] + values_view(old_r));
            Some(r)
        },
        None => None,
    }
}

/// Parses the `name <sep> value` pairs of `s[lo..hi)`.
pub fn parse_fields(s: &Vec<Tok>, lo: usize, hi: usize, sep: char) -> (r: Option<Vec<Field>>)
    requires
        hi <= s.len(),
    ensures
        match r {
            Some(fs) => fields_of(s@, lo as int, hi as int, sep) == Some(fields_view(fs@)),
            None => fields_of(s@, lo as int, hi as int, sep) is None,
        },
    decreases s@, hi - lo, 1int,
{
    if lo >= hi {
        let r: Vec<Field> = Vec::new();
        assert(fields_view(r@) =~= seq![]);
        return Some(r);
    }
    let k = find_comma(s, lo, hi);
    if k - lo < 3 {
        return None;
    }
    let name = match &s[lo] {
        Tok::Ident(x) => x.clone(),
        _ => return None,
    };
    let colon = match &s[lo + 1] {
        Tok::Punct(c) => *c == sep,
        _ => false,
    };
    if !colon {
        return None;
    }
    let v = match parse_value(s, lo + 2, k) {
        Some(v) => v,
        None => return None,
    };
    let f = Field { name, value: v };
    if k >= hi {
        let r = vec![f];
        proof {
            lemma_fields_view(r@);
        }
        assert(fields_view(r@) =~= seq![(r@[0].name@, r@[0].value.view())]);
        return Some(r);
    }
    match parse_fields(s, k + 1, hi, sep) {
        Some(rest) => {
            let ghost fv = (f.name@, f.value.view());
            let mut r = rest;
            let ghost old_r = r@;
            r.insert(0, f);
            proof {
                lemma_fields_view(r@);
                lemma_fields_view(old_r);
            }
            assert(fields_view(r@) =~= seq![fv] + fields_view(old_r));
            Some(r)
        },
        None => None,
    }
}


/// A path as text: its segments joined by `::`.
pub open spec fn path_text(p: Seq<Seq<char>>) -> Seq<char>
    decreases p.len(),
{
    if p.len() == 0 {
        seq![]
    } else if p.len() == 1 {
        p[0]
    } else {
        path_text(p.drop_last()) + "::"@ + p.last()
    }
}

/// A value as text, in the literal grammar that it was written in.
pub open spec fn value_text(v: ValueV) -> Seq<char>
    decreases v,
{
    match v {
        ValueV::Str(x) => debug_quoted(x),
        ValueV::Bool(b) => if b {
            "true"@
        } else {
            "false"@
        },
        ValueV::Float(d) => d,
        ValueV::Path(p) => path_text(p),
        ValueV::OptNone => "None"@,
        ValueV::OptSome(b) => "Some("@ + value_text(*b) + ")"@,
        ValueV::Array(vs) => "&["@ + values_text(vs) + "]"@,
        ValueV::Tuple(vs) => "("@ + values_text(vs) + ")"@,
        ValueV::Struct(p, fs) => path_text(p) + " { "@ + fields_text(fs) + " }"@,
        ValueV::Opaque(t) => t,
    }
}

/// Values as text, joined by `, `.
pub open spec fn values_text(s: Seq<ValueV>) -> Seq<char>
    decreases s,
{
    if s.len() == 0 {
        seq![]
    } else if s.len() == 1 {
        value_text(s[0])
    } else {
        values_text(s.drop_last()) + ", "@ + value_text(s.last())
    }
}

/// Fields as `name: value` text, joined by `, `.
pub open spec fn fields_text(s: Seq<(Seq<char>, ValueV)>) -> Seq<char>
    decreases s,
{
    if s.len() == 0 {
        seq![]
    } else if s.len() == 1 {
        s[0].0 + ": "@ + value_text(s[0].1)
    } else {
        fields_text(s.drop_last()) + ", "@ + (s.last().0 + ": "@ + value_text(s.last().1))
    }
}

fn write_path(out: &mut Vec<char>, p: &Vec<String>)
    ensures
        final(out)@ == old(out)@ + path_text(texts_view(p@)),
{
    let ghost start = out@;
    let ghost pv = texts_view(p@);
    let mut i: usize = 0;
    assert(out@ =~= start + path_text(pv.take(0)));
    while i < p.len()
        invariant
            i <= p.len(),
            pv == texts_view(p@),
            out@ == start + path_text(pv.take(i as int)),
        decreases p.len() - i,
    {
        let ghost before = out@;
        assert(pv.take(i + 1).drop_last() =~= pv.take(i as int));
        if i > 0 {
            push_chars(out, "::");
        }
        push_chars(out, p[i].as_str());
        if i == 0 {
            assert(out@ =~= start + path_text(pv.take(i + 1)));
        } else {
            assert(out@ =~= start + path_text(pv.take(i + 1)));
        }
        i = i + 1;
    }
    assert(pv.take(i as int) =~= pv);
}

fn write_value(out: &mut Vec<char>, v: &Value)
    ensures
        final(out)@ == old(out)@ + value_text(v@),
    decreases *v,
{
    let ghost start = out@;
    match v {
        Value::Str(x) => push_chars(out, quote(x.as_str()).as_str()),
        Value::Bool(b) => {
            if *b {
                push_chars(out, "true");
            } else {
                push_chars(out, "false");
            }
        },
        Value::Float(d) => push_chars(out, d.as_str()),
        Value::Path(p) => write_path(out, p),
        Value::OptNone => push_chars(out, "None"),
        Value::OptSome(b) => {
            push_chars(out, "Some(");
            write_value(out, &**b);
            push_chars(out, ")");
            assert(out@ =~= start + value_text(v@));
        },
        Value::Array(vs) => {
            push_chars(out, "&[");
            write_values(out, vs);
            push_chars(out, "]");
            assert(out@ =~= start + value_text(v@));
        },
        Value::Tuple(vs) => {
            push_chars(out, "(");
            write_values(out, vs);
            push_chars(out, ")");
            assert(out@ =~= start + value_text(v@));
        },
        Value::Struct(p, fs) => {
            write_path(out, p);
            push_chars(out, " { ");
            write_fields(out, fs);
            push_chars(out, " }");
            assert(out@ =~= start + value_text(v@));
        },
        Value::Opaque(t) => push_chars(out, t.as_str()),
    }
}

fn write_values(out: &mut Vec<char>, vs: &Vec<Value>)
    ensures
        final(out)@ == old(out)@ + values_text(values_view(vs@)),
    decreases vs@,
{
    let ghost start = out@;
    let ghost vv = values_view(vs@);
    proof {
        lemma_values_view(vs@);
    }
    let mut i: usize = 0;
    assert(out@ =~= start + values_text(vv.take(0)));
    while i < vs.len()
        invariant
            i <= vs.len(),
            vv == values_view(vs@),
            vv.len() == vs@.len(),
            forall|j: int| 0 <= j < vs@.len() ==> #[trigger] vv[j] == vs@[j].view(),
            out@ == start + values_text(vv.take(i as int)),
        decreases vs.len() - i,
    {
        assert(vv.take(i + 1).drop_last() =~= vv.take(i as int));
        assert(vv.take(i + 1).last() == vs@[i as int].view());
        if i > 0 {
            push_chars(out, ", ");
        }
        write_value(out, &vs[i]);
        assert(out@ =~= start + values_text(vv.take(i + 1)));
        i = i + 1;
    }
    assert(vv.take(i as int) =~= vv);
}

fn write_fields(out: &mut Vec<char>, fs: &Vec<Field>)
    ensures
        final(out)@ == old(out)@ + fields_text(fields_view(fs@)),
    decreases fs@,
{
    let ghost start = out@;
    let ghost fv = fields_view(fs@);
    proof {
        lemma_fields_view(fs@);
    }
    let mut i: usize = 0;
    assert(out@ =~= start + fields_text(fv.take(0)));
    while i < fs.len()
        invariant
            i <= fs.len(),
            fv == fields_view(fs@),
            fv.len() == fs@.len(),
            forall|j: int| 0 <= j < fs@.len() ==> #[trigger] fv[j] == (fs@[j].name@, fs@[j].value.view()),
            out@ == start + fields_text(fv.take(i as int)),
        decreases fs.len() - i,
    {
        assert(fv.take(i + 1).drop_last() =~= fv.take(i as int));
        assert(fv.take(i + 1).last() == fv[i as int]);
        if i > 0 {
            push_chars(out, ", ");
        }
        push_chars(out, fs[i].name.as_str());
        push_chars(out, ": ");
        write_value(out, &fs[i].value);
        assert(out@ =~= start + fields_text(fv.take(i + 1)));
        i = i + 1;
    }
    assert(fv.take(i as int) =~= fv);
}

/// A value as text, in the literal grammar that it was written in.
pub fn value_string(v: &Value) -> (r: String)
    ensures
        r@ == value_text(v@),
{
    let mut out: Vec<char> = Vec::new();
    write_value(&mut out, v);
    assert(out@ =~= value_text(v@));
    string_of(&out)
}

} // verus!
