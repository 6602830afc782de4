//! Descriptor records rebuilt from parsed values.
use vstd::prelude::*;
use crate::error::{BuildError, Descriptor, ErrV, malformed, missing};
use crate::literal::{Field, Value, ValueV, fields_view, texts_view, value_string, value_text};
use crate::literal::{is_group, is_ident, is_punct, fields_of, parse_fields, list_of, parse_list, values_view, lemma_values_view};
use crate::model::{
    BlockType, BlockV, CustomBlock, CustomCategory, ExtensionInfo, ExtensionSetting, CategoryV,
    LabelPart, LabelPartV, ReturnShape, SettingV, Menu, MenuV, TargetObject, menus_view,
    lemma_menus_view, inferred_type,
};
use crate::tokens::{Delim, Tok, range_text, toks_text};
use crate::text::same_text;

verus! {

broadcast use vstd::std_specs::vec::group_vec_axioms, vstd::seq::group_seq_axioms;

/// The position of the last field named `name`, or -1: a later field
/// overrides an earlier one.
pub open spec fn field_pos(fs: Seq<(Seq<char>, ValueV)>, name: Seq<char>) -> int
    decreases fs.len(),
{
    if fs.len() == 0 {
        -1
    } else if fs.last().0 == name {
        fs.len() - 1
    } else {
        field_pos(fs.drop_last(), name)
    }
}

/// The value of the field `name`, where there is one.
pub open spec fn field_in(fs: Seq<(Seq<char>, ValueV)>, name: Seq<char>) -> Option<ValueV> {
    let i = field_pos(fs, name);
    if 0 <= i < fs.len() {
        Some(fs[i].1)
    } else {
        None
    }
}

/// A required string field.
pub open spec fn req_str(d: Descriptor, fs: Seq<(Seq<char>, ValueV)>, name: Seq<char>) -> Result<Seq<char>, ErrV> {
    match field_in(fs, name) {
        Some(ValueV::Str(x)) => Ok(x),
        Some(v) => Err(ErrV::Malformed(d, name, value_text(v))),
        None => Err(ErrV::Missing(d, name)),
    }
}

/// A required boolean field.
pub open spec fn req_bool(d: Descriptor, fs: Seq<(Seq<char>, ValueV)>, name: Seq<char>) -> Result<bool, ErrV> {
    match field_in(fs, name) {
        Some(ValueV::Bool(x)) => Ok(x),
        Some(v) => Err(ErrV::Malformed(d, name, value_text(v))),
        None => Err(ErrV::Missing(d, name)),
    }
}

pub(crate) fn find_field(fs: &Vec<Field>, name: &str) -> (r: Option<usize>)
    ensures
        ({
            let i = field_pos(fields_view(fs@), name@);
            match r {
                Some(k) => k == i && 0 <= i < fs@.len() && fields_view(fs@).len() == fs@.len()
                    && fields_view(fs@)[i].1 == fs@[i].value.view(),
                None => i == -1,
            }
        }),
{
    proof {
        crate::literal::lemma_fields_view(fs@);
    }
    let ghost fv = fields_view(fs@);
    let mut k = fs.len();
    assert(fv.take(k as int) =~= fv);
    while k > 0
        invariant
            k <= fs.len(),
            fv == fields_view(fs@),
            fv.len() == fs@.len(),
            forall|i: int| 0 <= i < fs@.len() ==> #[trigger] fv[i] == (fs@[i].name@, fs@[i].value.view()),
            field_pos(fv, name@) == field_pos(fv.take(k as int), name@),
        decreases k,
    {
        assert(fv.take(k as int).drop_last() =~= fv.take(k - 1));
        if same_text(fs[k - 1].name.as_str(), name) {
            return Some(k - 1);
        }
        k = k - 1;
    }
    None
}

pub(crate) fn get_str(d: Descriptor, fs: &Vec<Field>, name: &str) -> (r: Result<String, BuildError>)
    ensures
        match r {
            Ok(x) => req_str(d, fields_view(fs@), name@) == Ok::<Seq<char>, ErrV>(x@),
            Err(e) => req_str(d, fields_view(fs@), name@) == Err::<Seq<char>, ErrV>(e@),
        },
{
    match find_field(fs, name) {
        Some(k) => match &fs[k].value {
            Value::Str(x) => {
                Ok(x.clone())
            },
            _ => Err(malformed(d, name, value_string(&fs[k].value))),
        },
        None => Err(missing(d, name)),
    }
}

pub(crate) fn get_bool(d: Descriptor, fs: &Vec<Field>, name: &str) -> (r: Result<bool, BuildError>)
    ensures
        match r {
            Ok(x) => req_bool(d, fields_view(fs@), name@) == Ok::<bool, ErrV>(x),
            Err(e) => req_bool(d, fields_view(fs@), name@) == Err::<bool, ErrV>(e@),
        },
{
    match find_field(fs, name) {
        Some(k) => match &fs[k].value {
            Value::Bool(x) => Ok(*x),
            _ => Err(malformed(d, name, value_string(&fs[k].value))),
        },
        None => Err(missing(d, name)),
    }
}

/// The extension info written as `v`: its name.
pub open spec fn info_of(v: ValueV) -> Result<Seq<char>, ErrV> {
    match v {
        ValueV::Struct(_, fs) => req_str(Descriptor::ExtensionInfo, fs, "name"@),
        _ => Err(ErrV::Malformed(Descriptor::ExtensionInfo, ""@, value_text(v))),
    }
}

/// Rebuilds extension info from its struct literal.
pub fn parse_info(v: &Value) -> (r: Result<ExtensionInfo, BuildError>)
    ensures
        match r {
            Ok(i) => info_of(v@) == Ok::<Seq<char>, ErrV>(i.name@),
            Err(e) => info_of(v@) == Err::<Seq<char>, ErrV>(e@),
        },
{
    match v {
        Value::Struct(_, fs) => match get_str(Descriptor::ExtensionInfo, fs, "name") {
            Ok(name) => Ok(ExtensionInfo { name }),
            Err(e) => Err(e),
        },
        _ => Err(malformed(Descriptor::ExtensionInfo, "", value_string(v))),
    }
}

/// The category written as `v`.
pub open spec fn category_of(v: ValueV) -> Result<CategoryV, ErrV> {
    let d = Descriptor::Category;
    match v {
        ValueV::Struct(_, fs) => {
            let name = req_str(d, fs, "name"@);
            if name is Err {
                Err(name->Err_0)
            } else {
                match field_in(fs, "color"@) {
                    Some(ValueV::Tuple(c)) => if c.len() == 3 && c[0] is Float && c[1] is Float
                        && c[2] is Float {
                        Ok(
                            CategoryV {
                                name: name->Ok_0,
                                color: (c[0]->Float_0, c[1]->Float_0, c[2]->Float_0),
                            },
                        )
                    } else {
                        Err(ErrV::Malformed(d, "color"@, value_text(ValueV::Tuple(c))))
                    },
                    Some(x) => Err(ErrV::Malformed(d, "color"@, value_text(x))),
                    None => Err(ErrV::Missing(d, "color"@)),
                }
            }
        },
        _ => Err(ErrV::Malformed(d, ""@, value_text(v))),
    }
}

/// Rebuilds a category from its struct literal.
pub fn parse_category(v: &Value) -> (r: Result<CustomCategory, BuildError>)
    ensures
        match r {
            Ok(c) => category_of(v@) == Ok::<CategoryV, ErrV>(c@),
            Err(e) => category_of(v@) == Err::<CategoryV, ErrV>(e@),
        },
{
    let d = Descriptor::Category;
    match v {
        Value::Struct(_, fs) => {
            let name = match get_str(d, fs, "name") {
                Ok(x) => x,
                Err(e) => return Err(e),
            };
            match find_field(fs, "color") {
                Some(k) => match &fs[k].value {
                    Value::Tuple(c) => {
                        proof {
                            crate::literal::lemma_values_view(c@);
                        }
                        if c.len() == 3 {
                            match (&c[0], &c[1], &c[2]) {
                                (Value::Float(r), Value::Float(g), Value::Float(b)) => {
                                    return Ok(
                                        CustomCategory {
                                            name,
                                            color: (r.clone(), g.clone(), b.clone()),
                                        },
                                    );
                                },
                                _ => {},
                            }
                        }
                        Err(malformed(d, "color", value_string(&fs[k].value)))
                    },
                    _ => Err(malformed(d, "color", value_string(&fs[k].value))),
                },
                None => Err(missing(d, "color")),
            }
        },
        _ => Err(malformed(d, "", value_string(v))),
    }
}

/// The setting written as `v`.
pub open spec fn setting_of(v: ValueV) -> Result<SettingV, ErrV> {
    let d = Descriptor::Setting;
    match v {
        ValueV::Struct(_, fs) => {
            let name = req_str(d, fs, "name"@);
            let id = req_str(d, fs, "id"@);
            let default_value = req_bool(d, fs, "default_value"@);
            let on_hint = req_str(d, fs, "on_hint"@);
            let off_hint = req_str(d, fs, "off_hint"@);
            let hidden = req_bool(d, fs, "hidden"@);
            if name is Err {
                Err(name->Err_0)
            } else if id is Err {
                Err(id->Err_0)
            } else if default_value is Err {
                Err(default_value->Err_0)
            } else if on_hint is Err {
                Err(on_hint->Err_0)
            } else if off_hint is Err {
                Err(off_hint->Err_0)
            } else if hidden is Err {
                Err(hidden->Err_0)
            } else {
                Ok(
                    SettingV {
                        name: name->Ok_0,
                        id: id->Ok_0,
                        default_value: default_value->Ok_0,
                        on_hint: on_hint->Ok_0,
                        off_hint: off_hint->Ok_0,
                        hidden: hidden->Ok_0,
                    },
                )
            }
        },
        _ => Err(ErrV::Malformed(d, ""@, value_text(v))),
    }
}

/// Rebuilds a setting from its struct literal.
pub fn parse_setting(v: &Value) -> (r: Result<ExtensionSetting, BuildError>)
    ensures
        match r {
            Ok(s) => setting_of(v@) == Ok::<SettingV, ErrV>(s@),
            Err(e) => setting_of(v@) == Err::<SettingV, ErrV>(e@),
        },
{
    let d = Descriptor::Setting;
    match v {
        Value::Struct(_, fs) => {
            let name = match get_str(d, fs, "name") {
                Ok(x) => x,
                Err(e) => return Err(e),
            };
            let id = match get_str(d, fs, "id") {
                Ok(x) => x,
                Err(e) => return Err(e),
            };
            let default_value = match get_bool(d, fs, "default_value") {
                Ok(x) => x,
                Err(e) => return Err(e),
            };
            let on_hint = match get_str(d, fs, "on_hint") {
                Ok(x) => x,
                Err(e) => return Err(e),
            };
            let off_hint = match get_str(d, fs, "off_hint") {
                Ok(x) => x,
                Err(e) => return Err(e),
            };
            let hidden = match get_bool(d, fs, "hidden") {
                Ok(x) => x,
                Err(e) => return Err(e),
            };
            Ok(ExtensionSetting { name, id, default_value, on_hint, off_hint, hidden })
        },
        _ => Err(malformed(d, "", value_string(v))),
    }
}


/// The menu node written as `v`: `Menu::Entry { label, value }` or
/// `Menu::Submenu { label, content: &[..] }`.
pub open spec fn menu_of(v: ValueV) -> Result<MenuV, ErrV>
    decreases v,
{
    let d = Descriptor::Menu;
    match v {
        ValueV::Struct(p, fs) => if p.len() == 2 && p[0] == "Menu"@ {
            let label = req_str(d, fs, "label"@);
            if p[1] == "Entry"@ {
                let value = req_str(d, fs, "value"@);
                if label is Err {
                    Err(label->Err_0)
                } else if value is Err {
                    Err(value->Err_0)
                } else {
                    Ok(MenuV::Entry(label->Ok_0, value->Ok_0))
                }
            } else if p[1] == "Submenu"@ {
                if label is Err {
                    Err(label->Err_0)
                } else {
                    let i = field_pos(fs, "content"@);
                    if 0 <= i < fs.len() {
                        match fs[i].1 {
                            ValueV::Array(items) => match menus_of(items) {
                                Ok(c) => Ok(MenuV::Submenu(label->Ok_0, c)),
                                Err(e) => Err(e),
                            },
                            x => Err(ErrV::Malformed(d, "content"@, value_text(x))),
                        }
                    } else {
                        Err(ErrV::Missing(d, "content"@))
                    }
                }
            } else {
                Err(ErrV::Malformed(d, ""@, value_text(v)))
            }
        } else {
            Err(ErrV::Malformed(d, ""@, value_text(v)))
        },
        _ => Err(ErrV::Malformed(d, ""@, value_text(v))),
    }
}

/// The menu nodes written as `s`, in order; the first error where one fails.
pub open spec fn menus_of(s: Seq<ValueV>) -> Result<Seq<MenuV>, ErrV>
    decreases s,
{
    if s.len() == 0 {
        Ok(seq![])
    } else {
        match menu_of(s[0]) {
            Ok(m) => match menus_of(s.drop_first()) {
                Ok(ms) => Ok(seq![m] + ms),
                Err(e) => Err(e),
            },
            Err(e) => Err(e),
        }
    }
}

/// Rebuilds one menu node.
pub fn parse_menu(v: &Value) -> (r: Result<Menu, BuildError>)
    ensures
        match r {
            Ok(m) => menu_of(v@) == Ok::<MenuV, ErrV>(m.view()),
            Err(e) => menu_of(v@) == Err::<MenuV, ErrV>(e@),
        },
    decreases *v, 0int,
{
    let d = Descriptor::Menu;
    match v {
        Value::Struct(p, fs) => {
            if p.len() == 2 && same_text(p[0].as_str(), "Menu") {
                if same_text(p[1].as_str(), "Entry") {
                    let label = match get_str(d, fs, "label") {
                        Ok(x) => x,
                        Err(e) => return Err(e),
                    };
                    let value = match get_str(d, fs, "value") {
                        Ok(x) => x,
                        Err(e) => return Err(e),
                    };
                    Ok(Menu::Entry { label, value })
                } else if same_text(p[1].as_str(), "Submenu") {
                    let label = match get_str(d, fs, "label") {
                        Ok(x) => x,
                        Err(e) => return Err(e),
                    };
                    match find_field(fs, "content") {
                        Some(k) => match &fs[k].value {
                            Value::Array(items) => match parse_menus(items, 0) {
                                Ok(content) => {
                                    assert(items@.skip(0) =~= items@);
                                    Ok(Menu::Submenu { label, content })
                                },
                                Err(e) => {
                                    assert(items@.skip(0) =~= items@);
                                    Err(e)
                                },
                            },
                            _ => Err(malformed(d, "content", value_string(&fs[k].value))),
                        },
                        None => Err(missing(d, "content")),
                    }
                } else {
                    Err(malformed(d, "", value_string(v)))
                }
            } else {
                Err(malformed(d, "", value_string(v)))
            }
        },
        _ => Err(malformed(d, "", value_string(v))),
    }
}

/// Rebuilds the menu nodes `items[i..]`.
pub fn parse_menus(items: &Vec<Value>, i: usize) -> (r: Result<Vec<Menu>, BuildError>)
    requires
        i <= items@.len(),
    ensures
        match r {
            Ok(ms) => menus_of(values_view(items@.skip(i as int))) == Ok::<Seq<MenuV>, ErrV>(
                menus_view(ms@),
            ),
            Err(e) => menus_of(values_view(items@.skip(i as int))) == Err::<Seq<MenuV>, ErrV>(e@),
        },
    decreases items@, items@.len() - i,
{
    let ghost rest = values_view(items@.skip(i as int));
    proof {
        lemma_values_view(items@.skip(i as int));
        lemma_values_view(items@.skip(i + 1));
    }
    if i == items.len() {
        let r: Vec<Menu> = Vec::new();
        assert(menus_view(r@) =~= seq![]);
        return Ok(r);
    }
    assert(rest[0] == items@[i as int].view());
    assert(rest.drop_first() =~= values_view(items@.skip(i + 1)));
    let m = match parse_menu(&items[i]) {
        Ok(m) => m,
        Err(e) => return Err(e),
    };
    match parse_menus(items, i + 1) {
        Ok(ms) => {
            let ghost mv = m.view();
            let ghost old_ms = ms@;
            let mut ms = ms;
            ms.insert(0, m);
            proof {
                lemma_menus_view(ms@);
                lemma_menus_view(old_ms);
            }
            assert(menus_view(ms@) =~= seq![mv] + menus_view(old_ms));
            Ok(ms)
        },
        Err(e) => Err(e),
    }
}

/// The optional placeholder text of a label part.
pub open spec fn opt_text(d: Descriptor, fs: Seq<(Seq<char>, ValueV)>) -> Result<Option<Seq<char>>, ErrV> {
    match field_in(fs, "text"@) {
        Some(ValueV::OptNone) => Ok(None),
        Some(ValueV::OptSome(b)) => match *b {
            ValueV::Str(x) => Ok(Some(x)),
            _ => Err(ErrV::Malformed(d, "text"@, value_text(ValueV::OptSome(b)))),
        },
        Some(x) => Err(ErrV::Malformed(d, "text"@, value_text(x))),
        None => Err(ErrV::Missing(d, "text"@)),
    }
}

/// The optional menu of a label part.
pub open spec fn opt_menu(d: Descriptor, fs: Seq<(Seq<char>, ValueV)>) -> Result<Option<Seq<MenuV>>, ErrV> {
    match field_in(fs, "menu"@) {
        Some(ValueV::OptNone) => Ok(None),
        Some(ValueV::OptSome(b)) => match *b {
            ValueV::Array(items) => match menus_of(items) {
                Ok(ms) => Ok(Some(ms)),
                Err(e) => Err(e),
            },
            _ => Err(ErrV::Malformed(d, "menu"@, value_text(ValueV::OptSome(b)))),
        },
        Some(x) => Err(ErrV::Malformed(d, "menu"@, value_text(x))),
        None => Err(ErrV::Missing(d, "menu"@)),
    }
}

/// The label part written as `v`.
pub open spec fn label_part_of(v: ValueV) -> Result<LabelPartV, ErrV> {
    let d = Descriptor::LabelPart;
    match v {
        ValueV::Struct(_, fs) => {
            let spec = req_str(d, fs, "spec"@);
            let text = opt_text(d, fs);
            let numeric = req_bool(d, fs, "numeric"@);
            let menu = opt_menu(d, fs);
            let readonly = req_bool(d, fs, "readonly"@);
            if spec is Err {
                Err(spec->Err_0)
            } else if text is Err {
                Err(text->Err_0)
            } else if numeric is Err {
                Err(numeric->Err_0)
            } else if menu is Err {
                Err(menu->Err_0)
            } else if readonly is Err {
                Err(readonly->Err_0)
            } else {
                Ok(
                    LabelPartV {
                        spec: spec->Ok_0,
                        text: text->Ok_0,
                        numeric: numeric->Ok_0,
                        menu: menu->Ok_0,
                        readonly: readonly->Ok_0,
                    },
                )
            }
        },
        _ => Err(ErrV::Malformed(d, ""@, value_text(v))),
    }
}

fn get_opt_text(d: Descriptor, fs: &Vec<Field>) -> (r: Result<Option<String>, BuildError>)
    ensures
        match r {
            Ok(Some(x)) => opt_text(d, fields_view(fs@)) == Ok::<Option<Seq<char>>, ErrV>(Some(x@)),
            Ok(None) => opt_text(d, fields_view(fs@)) == Ok::<Option<Seq<char>>, ErrV>(None),
            Err(e) => opt_text(d, fields_view(fs@)) == Err::<Option<Seq<char>>, ErrV>(e@),
        },
{
    match find_field(fs, "text") {
        Some(k) => match &fs[k].value {
            Value::OptNone => Ok(None),
            Value::OptSome(b) => match &**b {
                Value::Str(x) => {
                    assert((**b).view() == ValueV::Str(x@));
                    assert(fs@[k as int].value.view() == ValueV::OptSome(Box::new(ValueV::Str(x@))));
                    Ok(Some(x.clone()))
                },
                _ => Err(malformed(d, "text", value_string(&fs[k].value))),
            },
            _ => Err(malformed(d, "text", value_string(&fs[k].value))),
        },
        None => Err(missing(d, "text")),
    }
}

fn get_opt_menu(d: Descriptor, fs: &Vec<Field>) -> (r: Result<Option<Vec<Menu>>, BuildError>)
    ensures
        match r {
            Ok(Some(m)) => opt_menu(d, fields_view(fs@)) == Ok::<Option<Seq<MenuV>>, ErrV>(Some(menus_view(m@))),
            Ok(None) => opt_menu(d, fields_view(fs@)) == Ok::<Option<Seq<MenuV>>, ErrV>(None),
            Err(e) => opt_menu(d, fields_view(fs@)) == Err::<Option<Seq<MenuV>>, ErrV>(e@),
        },
{
    match find_field(fs, "menu") {
        Some(k) => match &fs[k].value {
            Value::OptNone => Ok(None),
            Value::OptSome(b) => match &**b {
                Value::Array(items) => {
                    assert(items@.skip(0) =~= items@);
                    assert((**b).view() == ValueV::Array(values_view(items@)));
                    assert(fs@[k as int].value.view() == ValueV::OptSome(
                        Box::new(ValueV::Array(values_view(items@))),
                    ));
                    match parse_menus(items, 0) {
                        Ok(ms) => Ok(Some(ms)),
                        Err(e) => Err(e),
                    }
                },
                _ => Err(malformed(d, "menu", value_string(&fs[k].value))),
            },
            _ => Err(malformed(d, "menu", value_string(&fs[k].value))),
        },
        None => Err(missing(d, "menu")),
    }
}

/// Rebuilds a label part from its struct literal.
pub fn parse_label_part(v: &Value) -> (r: Result<LabelPart, BuildError>)
    ensures
        match r {
            Ok(l) => label_part_of(v@) == Ok::<LabelPartV, ErrV>(l@),
            Err(e) => label_part_of(v@) == Err::<LabelPartV, ErrV>(e@),
        },
{
    let d = Descriptor::LabelPart;
    match v {
        Value::Struct(_, fs) => {
            let spec = match get_str(d, fs, "spec") {
                Ok(x) => x,
                Err(e) => return Err(e),
            };
            let text = match get_opt_text(d, fs) {
                Ok(x) => x,
                Err(e) => return Err(e),
            };
            let numeric = match get_bool(d, fs, "numeric") {
                Ok(x) => x,
                Err(e) => return Err(e),
            };
            let menu = match get_opt_menu(d, fs) {
                Ok(x) => x,
                Err(e) => return Err(e),
            };
            let readonly = match get_bool(d, fs, "readonly") {
                Ok(x) => x,
                Err(e) => return Err(e),
            };
            Ok(LabelPart { spec, text, numeric, menu, readonly })
        },
        _ => Err(malformed(d, "", value_string(v))),
    }
}


/// The empty tuple `()`.
pub open spec fn is_unit_tok(t: Tok) -> bool {
    t matches Tok::Group(Delim::Paren, inner) && inner@.len() == 0
}

/// The result shape written by the return type tokens `out` (empty where
/// the function declares no result).
pub open spec fn shape_of(out: Seq<Tok>) -> ReturnShape {
    if out.len() == 0 {
        ReturnShape::Unit
    } else if out.len() == 1 && is_unit_tok(out[0]) {
        ReturnShape::Unit
    } else if is_ident(out[0], "bool"@) {
        ReturnShape::Bool
    } else if out.len() >= 3 && is_ident(out[0], "Result"@) && is_punct(out[1], '<') {
        if is_unit_tok(out[2]) {
            ReturnShape::FallibleUnit
        } else if is_ident(out[2], "bool"@) {
            ReturnShape::FallibleBool
        } else {
            ReturnShape::Other
        }
    } else {
        ReturnShape::Other
    }
}

fn is_unit(t: &Tok) -> (r: bool)
    ensures
        r == is_unit_tok(*t),
{
    match t {
        Tok::Group(d, inner) => *d == Delim::Paren && inner.len() == 0,
        _ => false,
    }
}

fn is_word(t: &Tok, w: &str) -> (r: bool)
    ensures
        r == is_ident(*t, w@),
{
    match t {
        Tok::Ident(x) => same_text(x.as_str(), w),
        _ => false,
    }
}

fn is_char(t: &Tok, c: char) -> (r: bool)
    ensures
        r == is_punct(*t, c),
{
    match t {
        Tok::Punct(x) => *x == c,
        _ => false,
    }
}

/// Classifies a function's declared result by its return type tokens
/// `s[lo..hi)`.
pub fn return_shape(s: &Vec<Tok>, lo: usize, hi: usize) -> (r: ReturnShape)
    requires
        lo <= hi <= s.len(),
    ensures
        r == shape_of(s@.subrange(lo as int, hi as int)),
{
    let ghost out = s@.subrange(lo as int, hi as int);
    let n = hi - lo;
    if n == 0 {
        ReturnShape::Unit
    } else if n == 1 && is_unit(&s[lo]) {
        ReturnShape::Unit
    } else if is_word(&s[lo], "bool") {
        ReturnShape::Bool
    } else if n >= 3 && is_word(&s[lo], "Result") && is_char(&s[lo + 1], '<') {
        if is_unit(&s[lo + 2]) {
            ReturnShape::FallibleUnit
        } else if is_word(&s[lo + 2], "bool") {
            ReturnShape::FallibleBool
        } else {
            ReturnShape::Other
        }
    } else {
        assert(n >= 3 ==> out[1] == s@[lo + 1]);
        ReturnShape::Other
    }
}

/// The variant named by an enum path `..::ty::Variant`.
pub open spec fn tag_of(v: ValueV, ty: Seq<char>) -> Option<Seq<char>> {
    match v {
        ValueV::Path(p) => if p.len() >= 2 && p[p.len() - 2] == ty {
            Some(p.last())
        } else {
            None
        },
        _ => None,
    }
}

pub open spec fn block_type_named(w: Seq<char>) -> Option<BlockType> {
    if w == "Command"@ {
        Some(BlockType::Command)
    } else if w == "Terminator"@ {
        Some(BlockType::Terminator)
    } else if w == "Reporter"@ {
        Some(BlockType::Reporter)
    } else if w == "Predicate"@ {
        Some(BlockType::Predicate)
    } else if w == "Hat"@ {
        Some(BlockType::Hat)
    } else {
        None
    }
}

pub open spec fn target_named(w: Seq<char>) -> Option<TargetObject> {
    if w == "SpriteMorph"@ {
        Some(TargetObject::SpriteMorph)
    } else if w == "StageMorph"@ {
        Some(TargetObject::StageMorph)
    } else if w == "Both"@ {
        Some(TargetObject::Both)
    } else {
        None
    }
}

/// An optional string argument, with its default.
pub open spec fn str_or(d: Descriptor, fs: Seq<(Seq<char>, ValueV)>, name: Seq<char>, dflt: Seq<char>) -> Result<Seq<char>, ErrV> {
    match field_in(fs, name) {
        Some(ValueV::Str(x)) => Ok(x),
        Some(v) => Err(ErrV::Malformed(d, name, value_text(v))),
        None => Ok(dflt),
    }
}

/// An optional boolean argument, with its default.
pub open spec fn bool_or(d: Descriptor, fs: Seq<(Seq<char>, ValueV)>, name: Seq<char>, dflt: bool) -> Result<bool, ErrV> {
    match field_in(fs, name) {
        Some(ValueV::Bool(x)) => Ok(x),
        Some(v) => Err(ErrV::Malformed(d, name, value_text(v))),
        None => Ok(dflt),
    }
}

/// The explicit block type: the later of `type_override` and `block_type`.
pub open spec fn explicit_type(fs: Seq<(Seq<char>, ValueV)>) -> Result<Option<BlockType>, ErrV> {
    let a = field_pos(fs, "type_override"@);
    let b = field_pos(fs, "block_type"@);
    let i = if a >= b { a } else { b };
    if 0 <= i < fs.len() {
        match tag_of(fs[i].1, "BlockType"@) {
            Some(w) => match block_type_named(w) {
                Some(t) => Ok(Some(t)),
                None => Err(ErrV::Malformed(Descriptor::Block, fs[i].0, value_text(fs[i].1))),
            },
            None => Err(ErrV::Malformed(Descriptor::Block, fs[i].0, value_text(fs[i].1))),
        }
    } else {
        Ok(None)
    }
}

/// The target surfaces, `Both` where none is given.
pub open spec fn target_of(fs: Seq<(Seq<char>, ValueV)>) -> Result<TargetObject, ErrV> {
    match field_in(fs, "target"@) {
        Some(v) => match tag_of(v, "TargetObject"@) {
            Some(w) => match target_named(w) {
                Some(t) => Ok(t),
                None => Err(ErrV::Malformed(Descriptor::Block, "target"@, value_text(v))),
            },
            None => Err(ErrV::Malformed(Descriptor::Block, "target"@, value_text(v))),
        },
        None => Ok(TargetObject::Both),
    }
}

/// The block declared by the attribute arguments `args` on the function
/// `fn_name` whose result has the shape `shape`.
pub open spec fn block_of(args: Seq<Tok>, fn_name: Seq<char>, shape: ReturnShape) -> Result<BlockV, ErrV> {
    let d = Descriptor::Block;
    match fields_of(args, 0, args.len() as int, '=') {
        None => Err(ErrV::Malformed(d, ""@, toks_text(args))),
        Some(fs) => {
            let name = req_str(d, fs, "name"@);
            let category = req_str(d, fs, "category"@);
            let spec = req_str(d, fs, "spec"@);
            let defaults = str_or(d, fs, "defaults"@, "[]"@);
            let pass_proc = bool_or(d, fs, "pass_proc"@, false);
            let explicit = explicit_type(fs);
            let target = target_of(fs);
            if name is Err {
                Err(name->Err_0)
            } else if category is Err {
                Err(category->Err_0)
            } else if spec is Err {
                Err(spec->Err_0)
            } else if defaults is Err {
                Err(defaults->Err_0)
            } else if pass_proc is Err {
                Err(pass_proc->Err_0)
            } else if explicit is Err {
                Err(explicit->Err_0)
            } else if target is Err {
                Err(target->Err_0)
            } else {
                Ok(
                    BlockV {
                        name: name->Ok_0,
                        block_type: match explicit->Ok_0 {
                            Some(t) => t,
                            None => inferred_type(shape),
                        },
                        category: category->Ok_0,
                        spec: spec->Ok_0,
                        defaults: defaults->Ok_0,
                        impl_fn: fn_name,
                        target: target->Ok_0,
                        pass_proc: pass_proc->Ok_0,
                    },
                )
            }
        },
    }
}

fn get_str_or(d: Descriptor, fs: &Vec<Field>, name: &str, dflt: &str) -> (r: Result<String, BuildError>)
    ensures
        match r {
            Ok(x) => str_or(d, fields_view(fs@), name@, dflt@) == Ok::<Seq<char>, ErrV>(x@),
            Err(e) => str_or(d, fields_view(fs@), name@, dflt@) == Err::<Seq<char>, ErrV>(e@),
        },
{
    match find_field(fs, name) {
        Some(k) => match &fs[k].value {
            Value::Str(x) => Ok(x.clone()),
            _ => Err(malformed(d, name, value_string(&fs[k].value))),
        },
        None => Ok(String::from_str(dflt)),
    }
}

fn get_bool_or(d: Descriptor, fs: &Vec<Field>, name: &str, dflt: bool) -> (r: Result<bool, BuildError>)
    ensures
        match r {
            Ok(x) => bool_or(d, fields_view(fs@), name@, dflt) == Ok::<bool, ErrV>(x),
            Err(e) => bool_or(d, fields_view(fs@), name@, dflt) == Err::<bool, ErrV>(e@),
        },
{
    match find_field(fs, name) {
        Some(k) => match &fs[k].value {
            Value::Bool(x) => Ok(*x),
            _ => Err(malformed(d, name, value_string(&fs[k].value))),
        },
        None => Ok(dflt),
    }
}

fn enum_tag<'a>(v: &'a Value, ty: &str) -> (r: Option<&'a String>)
    ensures
        match r {
            Some(w) => tag_of(v@, ty@) == Some(w@),
            None => tag_of(v@, ty@) is None,
        },
{
    match v {
        Value::Path(p) => {
            let n = p.len();
            if n >= 2 && same_text(p[n - 2].as_str(), ty) {
                Some(&p[n - 1])
            } else {
                None
            }
        },
        _ => None,
    }
}

fn block_type_word(w: &String) -> (r: Option<BlockType>)
    ensures
        r == block_type_named(w@),
{
    if same_text(w.as_str(), "Command") {
        Some(BlockType::Command)
    } else if same_text(w.as_str(), "Terminator") {
        Some(BlockType::Terminator)
    } else if same_text(w.as_str(), "Reporter") {
        Some(BlockType::Reporter)
    } else if same_text(w.as_str(), "Predicate") {
        Some(BlockType::Predicate)
    } else if same_text(w.as_str(), "Hat") {
        Some(BlockType::Hat)
    } else {
        None
    }
}

fn target_word(w: &String) -> (r: Option<TargetObject>)
    ensures
        r == target_named(w@),
{
    if same_text(w.as_str(), "SpriteMorph") {
        Some(TargetObject::SpriteMorph)
    } else if same_text(w.as_str(), "StageMorph") {
        Some(TargetObject::StageMorph)
    } else if same_text(w.as_str(), "Both") {
        Some(TargetObject::Both)
    } else {
        None
    }
}

fn get_explicit_type(fs: &Vec<Field>) -> (r: Result<Option<BlockType>, BuildError>)
    ensures
        match r {
            Ok(t) => explicit_type(fields_view(fs@)) == Ok::<Option<BlockType>, ErrV>(t),
            Err(e) => explicit_type(fields_view(fs@)) == Err::<Option<BlockType>, ErrV>(e@),
        },
{
    proof {
        crate::literal::lemma_fields_view(fs@);
    }
    let a = find_field(fs, "type_override");
    let b = find_field(fs, "block_type");
    let k = match (a, b) {
        (Some(x), Some(y)) => if x >= y { x } else { y },
        (Some(x), None) => x,
        (None, Some(y)) => y,
        (None, None) => return Ok(None),
    };
    let f = &fs[k];
    match enum_tag(&f.value, "BlockType") {
        Some(w) => match block_type_word(w) {
            Some(t) => Ok(Some(t)),
            None => Err(
                BuildError::MalformedLiteral {
                    descriptor: Descriptor::Block,
                    field: f.name.clone(),
                    expr: value_string(&f.value),
                },
            ),
        },
        None => Err(
            BuildError::MalformedLiteral {
                descriptor: Descriptor::Block,
                field: f.name.clone(),
                expr: value_string(&f.value),
            },
        ),
    }
}

fn get_target(fs: &Vec<Field>) -> (r: Result<TargetObject, BuildError>)
    ensures
        match r {
            Ok(t) => target_of(fields_view(fs@)) == Ok::<TargetObject, ErrV>(t),
            Err(e) => target_of(fields_view(fs@)) == Err::<TargetObject, ErrV>(e@),
        },
{
    match find_field(fs, "target") {
        Some(k) => match enum_tag(&fs[k].value, "TargetObject") {
            Some(w) => match target_word(w) {
                Some(t) => Ok(t),
                None => Err(malformed(Descriptor::Block, "target", value_string(&fs[k].value))),
            },
            None => Err(malformed(Descriptor::Block, "target", value_string(&fs[k].value))),
        },
        None => Ok(TargetObject::Both),
    }
}

/// Rebuilds a block from the arguments of its attribute, the name of the
/// function it is on, and that function's result shape. Fields left out
/// take their defaults: no values, target `Both`, no process argument, and
/// the block type that the result shape implies.
pub fn parse_block(args: &Vec<Tok>, fn_name: &String, shape: ReturnShape) -> (r: Result<CustomBlock, BuildError>)
    ensures
        match r {
            Ok(b) => block_of(args@, fn_name@, shape) == Ok::<BlockV, ErrV>(b@),
            Err(e) => block_of(args@, fn_name@, shape) == Err::<BlockV, ErrV>(e@),
        },
{
    let d = Descriptor::Block;
    let fs = match parse_fields(args, 0, args.len(), '=') {
        Some(fs) => fs,
        None => {
            assert(args@.subrange(0, args@.len() as int) =~= args@);
            return Err(malformed(d, "", range_text(args, 0, args.len())));
        },
    };
    let name = match get_str(d, &fs, "name") {
        Ok(x) => x,
        Err(e) => return Err(e),
    };
    let category = match get_str(d, &fs, "category") {
        Ok(x) => x,
        Err(e) => return Err(e),
    };
    let spec = match get_str(d, &fs, "spec") {
        Ok(x) => x,
        Err(e) => return Err(e),
    };
    let defaults = match get_str_or(d, &fs, "defaults", "[]") {
        Ok(x) => x,
        Err(e) => return Err(e),
    };
    let pass_proc = match get_bool_or(d, &fs, "pass_proc", false) {
        Ok(x) => x,
        Err(e) => return Err(e),
    };
    let explicit = match get_explicit_type(&fs) {
        Ok(x) => x,
        Err(e) => return Err(e),
    };
    let target = match get_target(&fs) {
        Ok(x) => x,
        Err(e) => return Err(e),
    };
    Ok(
        CustomBlock {
            name,
            block_type: BlockType::resolve(explicit, shape),
            category,
            spec,
            defaults,
            impl_fn: fn_name.clone(),
            target,
            pass_proc,
        },
    )
}

/// The label of a menu item: the string that its attribute's first
/// argument holds.
pub open spec fn menu_label_of(args: Seq<Tok>) -> Result<Seq<char>, ErrV> {
    match list_of(args, 0, args.len() as int) {
        Some(vs) => if vs.len() == 0 {
            Err(ErrV::Missing(Descriptor::MenuItem, "label"@))
        } else {
            match vs[0] {
                ValueV::Str(x) => Ok(x),
                x => Err(ErrV::Malformed(Descriptor::MenuItem, "label"@, value_text(x))),
            }
        },
        None => Err(ErrV::Malformed(Descriptor::MenuItem, "label"@, toks_text(args))),
    }
}

/// Reads the label of a menu item from its attribute's arguments.
pub fn parse_menu_label(args: &Vec<Tok>) -> (r: Result<String, BuildError>)
    ensures
        match r {
            Ok(x) => menu_label_of(args@) == Ok::<Seq<char>, ErrV>(x@),
            Err(e) => menu_label_of(args@) == Err::<Seq<char>, ErrV>(e@),
        },
{
    match parse_list(args, 0, args.len()) {
        Some(vs) => {
            proof {
                lemma_values_view(vs@);
            }
            if vs.len() == 0 {
                Err(missing(Descriptor::MenuItem, "label"))
            } else {
                match &vs[0] {
                    Value::Str(x) => Ok(x.clone()),
                    _ => Err(malformed(Descriptor::MenuItem, "label", value_string(&vs[0]))),
                }
            }
        },
        None => {
            assert(args@.subrange(0, args@.len() as int) =~= args@);
            Err(malformed(Descriptor::MenuItem, "label", range_text(args, 0, args.len())))
        },
    }
}


/// Whether `e` is an error of a descriptor's own fields.
pub open spec fn is_field_error(e: ErrV) -> bool {
    e is Malformed || e is Missing
}

pub proof fn lemma_menu_errors(v: ValueV)
    ensures
        menu_of(v) matches Err(e) ==> is_field_error(e),
    decreases v,
{
    if let ValueV::Struct(p, fs) = v {
        let i = field_pos(fs, "content"@);
        if 0 <= i < fs.len() {
            if let ValueV::Array(items) = fs[i].1 {
                lemma_menus_errors(items);
            }
        }
    }
}

pub proof fn lemma_menus_errors(s: Seq<ValueV>)
    ensures
        menus_of(s) matches Err(e) ==> is_field_error(e),
    decreases s,
{
    if s.len() > 0 {
        lemma_menu_errors(s[0]);
        lemma_menus_errors(s.drop_first());
    }
}

pub proof fn lemma_label_part_errors(v: ValueV)
    ensures
        label_part_of(v) matches Err(e) ==> is_field_error(e),
{
    if let ValueV::Struct(_, fs) = v {
        if let Some(ValueV::OptSome(b)) = field_in(fs, "menu"@) {
            if let ValueV::Array(items) = *b {
                lemma_menus_errors(items);
            }
        }
    }
}

} // verus!
