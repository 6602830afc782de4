//! The textual form of input slot menus.
use vstd::prelude::*;
use crate::model::{Menu, MenuV, menus_view, lemma_menus_view};

verus! {

broadcast use vstd::std_specs::vec::group_vec_axioms, vstd::seq::group_seq_axioms;

/// A string as Rust's `Debug` writes it: in double quotes, with escapes.
pub uninterp spec fn debug_quoted(s: Seq<char>) -> Seq<char>;

/// Relies on `<str as Debug>::fmt`: the string quoted and escaped.
#[verifier::external_body]
pub(crate) fn quote(s: &str) -> (r: String)
    ensures
        r@ == debug_quoted(s@),
{
    format!("{:?}", s)
}

/// One menu node as `"label": "value",` or `"label": {children},`.
pub open spec fn menu_text(m: MenuV) -> Seq<char>
    decreases m,
{
    match m {
        MenuV::Entry(l, v) => debug_quoted(l) + ": "@ + debug_quoted(v) + ","@,
        MenuV::Submenu(l, c) => debug_quoted(l) + ": {"@ + menus_text(c) + "},"@,
    }
}

/// The nodes of a menu level, one after another.
pub open spec fn menus_text(s: Seq<MenuV>) -> Seq<char>
    decreases s,
{
    if s.len() == 0 {
        seq![]
    } else {
        menus_text(s.drop_last()) + menu_text(s.last())
    }
}

/// A whole menu, in braces.
pub open spec fn menu_tree_text(s: Seq<MenuV>) -> Seq<char> {
    "{"@ + menus_text(s) + "}"@
}

proof fn lemma_menus_text_step(s: Seq<MenuV>, i: int)
    requires
        0 <= i < s.len(),
    ensures
        menus_text(s.take(i + 1)) == menus_text(s.take(i)) + menu_text(s[i]),
{
    assert(s.take(i + 1).drop_last() =~= s.take(i));
}

fn write_nodes(content: &Vec<Menu>, res: &mut String)
    ensures
        final(res)@ == old(res)@ + menus_text(menus_view(content@)),
    decreases content@, 0int,
{
    let ghost start = res@;
    proof {
        lemma_menus_view(content@);
    }
    let mut i: usize = 0;
    while i < content.len()
        invariant
            i <= content.len(),
            menus_view(content@).len() == content@.len(),
            forall|j: int| 0 <= j < content@.len() ==> #[trigger] menus_view(content@)[j] == content@[j].view(),
            res@ == start + menus_text(menus_view(content@).take(i as int)),
        decreases content.len() - i,
    {
        write_node(&content[i], res);
        proof {
            lemma_menus_text_step(menus_view(content@), i as int);
        }
        i = i + 1;
    }
    assert(menus_view(content@).take(content@.len() as int) =~= menus_view(content@));
}

fn write_node(m: &Menu, res: &mut String)
    ensures
        final(res)@ == old(res)@ + menu_text(m.view()),
    decreases *m, 1int,
{
    match m {
        Menu::Entry { label, value } => {
            res.append(quote(label.as_str()).as_str());
            res.append(": ");
            res.append(quote(value.as_str()).as_str());
            res.append(",");
        },
        Menu::Submenu { label, content } => {
            res.append(quote(label.as_str()).as_str());
            res.append(": {");
            write_nodes(content, res);
            res.append("},");
        },
    }
}

/// Writes a menu as nested `label: value` pairs in braces, a submenu as a
/// label with its own braced children.
pub fn format_menu(menu: &Vec<Menu>) -> (r: String)
    ensures
        r@ == menu_tree_text(menus_view(menu@)),
{
    let mut res = String::new();
    res.append("{");
    write_nodes(menu, &mut res);
    res.append("}");
    res
}

} // verus!
