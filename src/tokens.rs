//! Token trees of Rust source text, as plain values.
use vstd::prelude::*;
use crate::text::{chars_of, string_of};

verus! {

broadcast use vstd::std_specs::vec::group_vec_axioms, vstd::seq::group_seq_axioms;

/// proc-macro2's token stream, carried through opaquely.
#[verifier::external_type_specification]
#[verifier::external_body]
pub struct ExTokenStream(proc_macro2::TokenStream);

/// A proc-macro2 token type, carried through opaquely.
#[verifier::external_type_specification]
#[verifier::external_body]
pub struct ExTokenTree(proc_macro2::TokenTree);

/// A proc-macro2 token type, carried through opaquely.
#[verifier::external_type_specification]
#[verifier::external_body]
pub struct ExGroup(proc_macro2::Group);

/// A proc-macro2 token type, carried through opaquely.
#[verifier::external_type_specification]
#[verifier::external_body]
pub struct ExIdent(proc_macro2::Ident);

/// A proc-macro2 token type, carried through opaquely.
#[verifier::external_type_specification]
#[verifier::external_body]
pub struct ExPunct(proc_macro2::Punct);

/// A proc-macro2 token type, carried through opaquely.
#[verifier::external_type_specification]
#[verifier::external_body]
pub struct ExLiteral(proc_macro2::Literal);

/// The delimiter of a group.
#[derive(PartialEq, Eq, Structural, Clone, Copy, Debug)]
pub enum Delim {
    Paren,
    Brace,
    Bracket,
    Invisible,
}

/// One token tree: an identifier, a punctuation character, a literal as it
/// is written in the source, or a delimited group of token trees.
#[derive(Debug)]
pub enum Tok {
    Ident(String),
    Punct(char),
    Lit(String),
    Group(Delim, Vec<Tok>),
}

/// The mathematical form of a [`Tok`].
pub enum TokV {
    Ident(Seq<char>),
    Punct(char),
    Lit(Seq<char>),
    Group(Delim, Seq<TokV>),
}

impl Tok {
    pub open spec fn view(self) -> TokV
        decreases self,
    {
        match self {
            Tok::Ident(x) => TokV::Ident(x@),
            Tok::Punct(c) => TokV::Punct(c),
            Tok::Lit(x) => TokV::Lit(x@),
            Tok::Group(d, v) => TokV::Group(d, toks_view(v@)),
        }
    }
}

pub open spec fn toks_view(s: Seq<Tok>) -> Seq<TokV>
    decreases s,
{
    if s.len() == 0 {
        seq![]
    } else {
        toks_view(s.drop_last()).push(s.last().view())
    }
}

pub proof fn lemma_toks_view(s: Seq<Tok>)
    ensures
        toks_view(s).len() == s.len(),
        forall|i: int| 0 <= i < s.len() ==> #[trigger] toks_view(s)[i] == s[i].view(),
    decreases s.len(),
{
    if s.len() > 0 {
        lemma_toks_view(s.drop_last());
    }
}

/// The token trees that Rust source text `src` lexes to, or `None` where
/// it does not lex.
pub uninterp spec fn lexed(src: Seq<char>) -> Option<Seq<TokV>>;

/// The token trees that a proc-macro2 stream holds, at its top level and
/// in its groups.
pub uninterp spec fn stream_view(s: proc_macro2::TokenStream) -> Seq<TokV>;

/// The token tree that a proc-macro2 tree stands for.
pub uninterp spec fn tree_view(t: proc_macro2::TokenTree) -> TokV;

/// The token tree that a proc-macro2 group stands for.
pub uninterp spec fn group_view(g: proc_macro2::Group) -> TokV;

/// The text of a proc-macro2 identifier.
pub uninterp spec fn ident_view(i: proc_macro2::Ident) -> Seq<char>;

/// The character of a proc-macro2 punctuation token.
pub uninterp spec fn punct_view(p: proc_macro2::Punct) -> char;

/// The text of a proc-macro2 literal, as written.
pub uninterp spec fn literal_view(l: proc_macro2::Literal) -> Seq<char>;

/// Relies on `proc_macro2::Group::stream`: the tokens inside the group.
pub assume_specification[ proc_macro2::Group::stream ](g: &proc_macro2::Group) -> (r: proc_macro2::TokenStream)
    ensures
        group_view(*g) == TokV::Group(group_view(*g)->Group_0, stream_view(r)),
;

/// Relies on `proc_macro2::Punct::as_char`: the punctuation character.
pub assume_specification[ proc_macro2::Punct::as_char ](p: &proc_macro2::Punct) -> (r: char)
    ensures
        r == punct_view(*p),
;

/// Relies on `<proc_macro2::TokenTree as Clone>::clone`: a copy of a token
/// tree.
pub assume_specification[ <proc_macro2::TokenTree as Clone>::clone ](t: &proc_macro2::TokenTree) -> (r: proc_macro2::TokenTree)
    ensures
        tree_view(r) == tree_view(*t),
;

/// One token tree of proc-macro2, split by kind.
enum RawTree {
    Group(proc_macro2::Group),
    Ident(proc_macro2::Ident),
    Punct(proc_macro2::Punct),
    Literal(proc_macro2::Literal),
}

/// Relies on `<proc_macro2::TokenStream as FromStr>::from_str`: lexes Rust
/// source text into token trees; `None` where the lexer reports an error.
#[verifier::external_body]
fn lex_stream(src: &str) -> (r: Option<proc_macro2::TokenStream>)
    ensures
        match r {
            Some(s) => lexed(src@) == Some(stream_view(s)),
            None => lexed(src@) is None,
        },
{
    src.parse::<proc_macro2::TokenStream>().ok()
}

/// Relies on `<proc_macro2::TokenStream as IntoIterator>::into_iter`: the
/// token trees of one level of a stream, in order.
#[verifier::external_body]
fn stream_trees(s: &proc_macro2::TokenStream) -> (r: Vec<proc_macro2::TokenTree>)
    ensures
        r@.len() == stream_view(*s).len(),
        forall|i: int| 0 <= i < r@.len() ==> #[trigger] tree_view(r@[i]) == stream_view(*s)[i],
{
    s.clone().into_iter().collect()
}

/// Tells the variants of `proc_macro2::TokenTree` apart, moving each payload.
#[verifier::external_body]
fn split_tree(t: proc_macro2::TokenTree) -> (r: RawTree)
    ensures
        match r {
            RawTree::Group(g) => tree_view(t) == group_view(g),
            RawTree::Ident(i) => tree_view(t) == TokV::Ident(ident_view(i)),
            RawTree::Punct(p) => tree_view(t) == TokV::Punct(punct_view(p)),
            RawTree::Literal(l) => tree_view(t) == TokV::Lit(literal_view(l)),
        },
{
    match t {
        proc_macro2::TokenTree::Group(g) => RawTree::Group(g),
        proc_macro2::TokenTree::Ident(i) => RawTree::Ident(i),
        proc_macro2::TokenTree::Punct(p) => RawTree::Punct(p),
        proc_macro2::TokenTree::Literal(l) => RawTree::Literal(l),
    }
}

/// Relies on `proc_macro2::Group::delimiter`: the group's delimiter, with
/// its variants told apart; `None` is the invisible delimiter.
#[verifier::external_body]
fn group_delim(g: &proc_macro2::Group) -> (r: Delim)
    ensures
        group_view(*g) == TokV::Group(r, group_view(*g)->Group_1),
{
    match g.delimiter() {
        proc_macro2::Delimiter::Parenthesis => Delim::Paren,
        proc_macro2::Delimiter::Brace => Delim::Brace,
        proc_macro2::Delimiter::Bracket => Delim::Bracket,
        proc_macro2::Delimiter::None => Delim::Invisible,
    }
}

/// Relies on `<proc_macro2::Ident as Display>`: the identifier's text.
#[verifier::external_body]
fn ident_text(i: &proc_macro2::Ident) -> (r: String)
    ensures
        r@ == ident_view(*i),
{
    i.to_string()
}

/// Relies on `<proc_macro2::Literal as Display>`: the literal as written.
#[verifier::external_body]
fn literal_text(l: &proc_macro2::Literal) -> (r: String)
    ensures
        r@ == literal_view(*l),
{
    l.to_string()
}

/// Converts one level of a stream, and the groups under it, to plain token
/// trees.
fn convert_stream(s: &proc_macro2::TokenStream) -> (r: Vec<Tok>)
    ensures
        toks_view(r@) == stream_view(*s),
    decreases stream_view(*s),
{
    let ghost sv = stream_view(*s);
    let trees = stream_trees(s);
    let mut out: Vec<Tok> = Vec::new();
    let mut i: usize = 0;
    assert(toks_view(out@) =~= sv.take(0));
    while i < trees.len()
        invariant
            i <= trees.len(),
            sv == stream_view(*s),
            trees@.len() == sv.len(),
            forall|j: int| 0 <= j < trees@.len() ==> #[trigger] tree_view(trees@[j]) == sv[j],
            toks_view(out@) == sv.take(i as int),
        decreases trees.len() - i,
    {
        let t = trees[i].clone();
        assert(tree_view(t) == sv[i as int]);
        let tok = match split_tree(t) {
            RawTree::Group(g) => {
                let d = group_delim(&g);
                let child = g.stream();
                assert(stream_view(child) == sv[i as int]->Group_1);
                let inner = convert_stream(&child);
                Tok::Group(d, inner)
            },
            RawTree::Ident(id) => Tok::Ident(ident_text(&id)),
            RawTree::Punct(p) => Tok::Punct(p.as_char()),
            RawTree::Literal(l) => Tok::Lit(literal_text(&l)),
        };
        assert(tok.view() == sv[i as int]);
        let ghost before = out@;
        out.push(tok);
        assert(out@.drop_last() == before);
        assert(sv.take(i + 1) =~= sv.take(i as int).push(sv[i as int]));
        i = i + 1;
    }
    assert(sv.take(i as int) =~= sv);
    out
}

/// Lexes Rust source text into plain token trees; `None` where the text
/// does not lex.
pub fn tokenize(src: &str) -> (r: Option<Vec<Tok>>)
    ensures
        match r {
            Some(v) => lexed(src@) == Some(toks_view(v@)),
            None => lexed(src@) is None,
        },
{
    match lex_stream(src) {
        Some(s) => Some(convert_stream(&s)),
        None => None,
    }
}


pub open spec fn open_text(d: Delim) -> Seq<char> {
    match d {
        Delim::Paren => seq!['('],
        Delim::Brace => seq!['{'],
        Delim::Bracket => seq!['['],
        Delim::Invisible => seq![],
    }
}

pub open spec fn close_text(d: Delim) -> Seq<char> {
    match d {
        Delim::Paren => seq![')'],
        Delim::Brace => seq!['}'],
        Delim::Bracket => seq![']'],
        Delim::Invisible => seq![],
    }
}

/// A token tree as text: a group in its delimiters.
pub open spec fn tok_text(t: Tok) -> Seq<char>
    decreases t,
{
    match t {
        Tok::Ident(x) => x@,
        Tok::Punct(c) => seq![c],
        Tok::Lit(x) => x@,
        Tok::Group(d, v) => open_text(d) + toks_text(v@) + close_text(d),
    }
}

/// Token trees as text, separated by single spaces.
pub open spec fn toks_text(s: Seq<Tok>) -> Seq<char>
    decreases s,
{
    if s.len() == 0 {
        seq![]
    } else if s.len() == 1 {
        tok_text(s[0])
    } else {
        toks_text(s.drop_last()) + seq![' '] + tok_text(s.last())
    }
}

pub(crate) fn push_chars(out: &mut Vec<char>, x: &str)
    ensures
        final(out)@ == old(out)@ + x@,
{
    let cs = chars_of(x);
    let ghost start = out@;
    let mut i: usize = 0;
    while i < cs.len()
        invariant
            i <= cs.len(),
            out@ == start + cs@.take(i as int),
        decreases cs.len() - i,
    {
        out.push(cs[i]);
        assert(cs@.take(i + 1) =~= cs@.take(i as int).push(cs@[i as int]));
        i = i + 1;
    }
    assert(cs@.take(i as int) =~= cs@);
}

fn push_delim(out: &mut Vec<char>, d: Delim, open: bool)
    ensures
        final(out)@ == old(out)@ + if open {
            open_text(d)
        } else {
            close_text(d)
        },
{
    let ghost start = out@;
    match d {
        Delim::Paren => out.push(if open { '(' } else { ')' }),
        Delim::Brace => out.push(if open { '{' } else { '}' }),
        Delim::Bracket => out.push(if open { '[' } else { ']' }),
        Delim::Invisible => {},
    }
    assert(out@ =~= start + if open { open_text(d) } else { close_text(d) });
}

fn write_tok(out: &mut Vec<char>, t: &Tok)
    ensures
        final(out)@ == old(out)@ + tok_text(*t),
    decreases *t,
{
    let ghost start = out@;
    match t {
        Tok::Ident(x) => push_chars(out, x.as_str()),
        Tok::Punct(c) => {
            out.push(*c);
            assert(out@ =~= start + seq![*c]);
        },
        Tok::Lit(x) => push_chars(out, x.as_str()),
        Tok::Group(d, v) => {
            push_delim(out, *d, true);
            write_toks(out, v, 0, v.len());
            assert(v@.subrange(0, v@.len() as int) =~= v@);
            push_delim(out, *d, false);
            assert(out@ =~= start + tok_text(*t));
        },
    }
}

fn write_toks(out: &mut Vec<char>, s: &Vec<Tok>, lo: usize, hi: usize)
    requires
        lo <= hi <= s@.len(),
    ensures
        final(out)@ == old(out)@ + toks_text(s@.subrange(lo as int, hi as int)),
    decreases s@,
{
    let ghost start = out@;
    let mut i = lo;
    assert(toks_text(s@.subrange(lo as int, lo as int)) =~= seq![]);
    assert(out@ =~= start + toks_text(s@.subrange(lo as int, lo as int)));
    while i < hi
        invariant
            lo <= i <= hi <= s@.len(),
            out@ == start + toks_text(s@.subrange(lo as int, i as int)),
        decreases hi - i,
    {
        let ghost before = out@;
        let ghost sub = s@.subrange(lo as int, i + 1);
        assert(sub.drop_last() =~= s@.subrange(lo as int, i as int));
        assert(sub.last() == s@[i as int]);
        if i > lo {
            out.push(' ');
        }
        write_tok(out, &s[i]);
        if i == lo {
            assert(sub.len() == 1 && sub[0] == s@[i as int]);
            assert(out@ =~= start + toks_text(sub));
        } else {
            assert(out@ =~= before + seq![' '] + tok_text(s@[i as int]));
            assert(out@ =~= start + toks_text(sub));
        }
        i = i + 1;
    }
}

/// One token tree as text.
pub fn tok_string(t: &Tok) -> (r: String)
    ensures
        r@ == tok_text(*t),
{
    let mut out: Vec<char> = Vec::new();
    write_tok(&mut out, t);
    assert(out@ =~= tok_text(*t));
    string_of(&out)
}

/// The tokens `s[lo..hi)` as text.
pub fn range_text(s: &Vec<Tok>, lo: usize, hi: usize) -> (r: String)
    requires
        lo <= hi <= s@.len(),
    ensures
        r@ == toks_text(s@.subrange(lo as int, hi as int)),
{
    let mut out: Vec<char> = Vec::new();
    write_toks(&mut out, s, lo, hi);
    assert(out@ =~= toks_text(s@.subrange(lo as int, hi as int)));
    string_of(&out)
}

} // verus!
