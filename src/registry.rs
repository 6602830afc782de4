//! Collecting the descriptors of a module into a registry, with its checks.
use vstd::prelude::*;
use crate::descriptor::{
    block_of, category_of, info_of, label_part_of, menu_label_of, parse_block, parse_category,
    parse_info, parse_label_part, parse_menu_label, parse_setting, return_shape, setting_of,
    shape_of,
};
use crate::error::{BuildError, Descriptor, ErrV, malformed};
use crate::literal::{Field, Value, fields_view, is_group, is_ident, parse_fields, parse_value, value_of};
use crate::model::{
    BlockV, CategoryV, CustomBlock, CustomCategory, ExtensionInfo, ExtensionSetting, LabelPart,
    LabelPartV, MenuItem, SettingV,
};
use crate::scan::{ItemKind, Mark, marks_of, scan_marks};
use crate::text::{add_sorted, insert_sorted, same_text, texts};
use crate::tokens::{Delim, Tok};

verus! {

broadcast use vstd::std_specs::vec::group_vec_axioms, vstd::seq::group_seq_axioms;

/// For each successive non-overlapping match of the regular expression
/// `pattern` in `text`, what its capture group `group` matched, where it
/// took part in the match; `None` where the pattern does not compile.
pub uninterp spec fn capture_group_of(pattern: Seq<char>, group: nat, text: Seq<char>) -> Option<
    Seq<Option<Seq<char>>>,
>;

/// regex's compile error, carried through opaquely.
#[verifier::external_type_specification]
#[verifier::external_body]
pub struct ExRegexError(regex::Error);

pub open spec fn opt_texts(v: Seq<Option<String>>) -> Seq<Option<Seq<char>>> {
    v.map_values(
        |o: Option<String>|
            match o {
                Some(x) => Some(x@),
                None => None,
            },
    )
}

/// Relies on `regex::Regex::new` and `Regex::captures_iter`: compiles
/// `pattern` and lists, for each successive non-overlapping match in
/// `text`, what capture group `group` matched (`Captures::get`); the
/// compile error where the pattern does not compile.
#[verifier::external_body]
fn capture_group(pattern: &str, group: usize, text: &str) -> (r: Result<Vec<Option<String>>, regex::Error>)
    ensures
        match r {
            Ok(v) => capture_group_of(pattern@, group as nat, text@) == Some(opt_texts(v@)),
            Err(_) => capture_group_of(pattern@, group as nat, text@) is None,
        },
{
    let re = regex::Regex::new(pattern)?;
    Ok(re.captures_iter(text).map(|c| c.get(group).map(|m| m.as_str().to_string())).collect())
}

/// A placeholder: `%` and a word, marked variadic by a `%mult` prefix.
pub open spec fn placeholder_pattern() -> Seq<char> {
    "(%mult)?%(\\w+)"@
}

/// The groups, where every one of them took part in its match.
pub open spec fn all_present(gs: Seq<Option<Seq<char>>>) -> Option<Seq<Seq<char>>>
    decreases gs.len(),
{
    if gs.len() == 0 {
        Some(seq![])
    } else {
        match (all_present(gs.drop_last()), gs.last()) {
            (Some(v), Some(x)) => Some(v.push(x)),
            _ => None,
        }
    }
}

/// The tokens that the placeholders of a block spec name, in order.
pub open spec fn placeholders_of(spec: Seq<char>) -> Option<Seq<Seq<char>>> {
    match capture_group_of(placeholder_pattern(), 2, spec) {
        Some(gs) => all_present(gs),
        None => None,
    }
}

proof fn lemma_all_present_none(gs: Seq<Option<Seq<char>>>, i: int)
    requires
        0 <= i <= gs.len(),
        all_present(gs.take(i)) is None,
    ensures
        all_present(gs) is None,
    decreases gs.len() - i,
{
    if i < gs.len() {
        assert(gs.take(i + 1).drop_last() =~= gs.take(i));
        lemma_all_present_none(gs, i + 1);
    } else {
        assert(gs.take(i) =~= gs);
    }
}

/// Lists the tokens that the placeholders of a block spec name, in order.
pub fn placeholders(spec: &str) -> (r: Result<Vec<String>, BuildError>)
    ensures
        match r {
            Ok(v) => placeholders_of(spec@) == Some(texts(v@)),
            Err(e) => placeholders_of(spec@) is None && e@ == ErrV::Pattern,
        },
{
    let gs = match capture_group("(%mult)?%(\\w+)", 2, spec) {
        Ok(gs) => gs,
        Err(_) => return Err(BuildError::Pattern),
    };
    let ghost gv = opt_texts(gs@);
    let mut out: Vec<String> = Vec::new();
    let mut i: usize = 0;
    assert(gv.take(0) =~= seq![]);
    assert(texts(out@) =~= seq![]);
    while i < gs.len()
        invariant
            i <= gs.len(),
            gv == opt_texts(gs@),
            capture_group_of(placeholder_pattern(), 2, spec@) == Some(gv),
            all_present(gv.take(i as int)) == Some(texts(out@)),
        decreases gs.len() - i,
    {
        assert(gv.take(i + 1).drop_last() =~= gv.take(i as int));
        match &gs[i] {
            Some(x) => {
                let ghost before = texts(out@);
                out.push(x.clone());
                assert(texts(out@) =~= before.push(x@));
            },
            None => {
                assert(gv[i as int] is None);
                assert(gv.take(i + 1).last() == gv[i as int]);
                assert(all_present(gv.take(i + 1)) is None);
                proof {
                    lemma_all_present_none(gv, i + 1);
                }
                return Err(BuildError::Pattern);
            },
        }
        i = i + 1;
    }
    assert(gv.take(i as int) =~= gv);
    Ok(out)
}

/// A non-fatal finding.
#[derive(Debug)]
pub enum Warning {
    /// A block with an empty name, on the named function, was dropped.
    EmptyBlockName { fn_name: String },
    /// A descriptor names a field that it does not have; the field is
    /// ignored.
    UnknownField { descriptor: Descriptor, field: String },
}

/// The mathematical form of a [`Warning`].
pub enum WarningV {
    EmptyBlockName(Seq<char>),
    UnknownField(Descriptor, Seq<char>),
}

impl Warning {
    pub open spec fn view(&self) -> WarningV {
        match self {
            Warning::EmptyBlockName { fn_name } => WarningV::EmptyBlockName(fn_name@),
            Warning::UnknownField { descriptor, field } => WarningV::UnknownField(*descriptor, field@),
        }
    }
}

pub open spec fn warnings_view(ws: Seq<Warning>) -> Seq<WarningV> {
    ws.map_values(|w: Warning| w@)
}

/// Whether descriptors of kind `d` have a field named `name`.
pub open spec fn known_field(d: Descriptor, name: Seq<char>) -> bool {
    match d {
        Descriptor::ExtensionInfo => name == "name"@,
        Descriptor::Category => name == "name"@ || name == "color"@,
        Descriptor::Setting => name == "name"@ || name == "id"@ || name == "default_value"@ || name
            == "on_hint"@ || name == "off_hint"@ || name == "hidden"@,
        Descriptor::LabelPart => name == "spec"@ || name == "text"@ || name == "numeric"@ || name
            == "menu"@ || name == "readonly"@,
        Descriptor::Block => name == "name"@ || name == "category"@ || name == "spec"@ || name
            == "defaults"@ || name == "pass_proc"@ || name == "type_override"@ || name
            == "block_type"@ || name == "target"@,
        _ => true,
    }
}

/// A warning for each field of `fs` that descriptors of kind `d` do not
/// have, in order.
pub open spec fn unknown_fields(d: Descriptor, fs: Seq<(Seq<char>, crate::literal::ValueV)>) -> Seq<WarningV>
    decreases fs.len(),
{
    if fs.len() == 0 {
        seq![]
    } else {
        unknown_fields(d, fs.drop_last()) + if known_field(d, fs.last().0) {
            Seq::<WarningV>::empty()
        } else {
            seq![WarningV::UnknownField(d, fs.last().0)]
        }
    }
}

/// The unknown-field warnings of a struct literal.
pub open spec fn struct_warnings(d: Descriptor, v: crate::literal::ValueV) -> Seq<WarningV> {
    match v {
        crate::literal::ValueV::Struct(_, fs) => unknown_fields(d, fs),
        _ => seq![],
    }
}

/// Whether a menu node has a field named `name`: `label` and `value` for an
/// entry, `label` and `content` for a submenu.
pub open spec fn known_menu_field(entry: bool, name: Seq<char>) -> bool {
    name == "label"@ || (entry && name == "value"@) || (!entry && name == "content"@)
}

/// A warning for each field of `fs` that a menu node does not have.
pub open spec fn unknown_menu_fields(entry: bool, fs: Seq<(Seq<char>, crate::literal::ValueV)>) -> Seq<WarningV>
    decreases fs.len(),
{
    if fs.len() == 0 {
        seq![]
    } else {
        unknown_menu_fields(entry, fs.drop_last()) + if known_menu_field(entry, fs.last().0) {
            Seq::<WarningV>::empty()
        } else {
            seq![WarningV::UnknownField(Descriptor::Menu, fs.last().0)]
        }
    }
}

/// The unknown-field warnings of a menu node and the nodes under it.
pub open spec fn menu_warnings(v: crate::literal::ValueV) -> Seq<WarningV>
    decreases v,
{
    match v {
        crate::literal::ValueV::Struct(p, fs) => if p.len() == 2 && p[0] == "Menu"@ && p[1]
            == "Entry"@ {
            unknown_menu_fields(true, fs)
        } else if p.len() == 2 && p[0] == "Menu"@ && p[1] == "Submenu"@ {
            let i = crate::descriptor::field_pos(fs, "content"@);
            unknown_menu_fields(false, fs) + if 0 <= i < fs.len() {
                match fs[i].1 {
                    crate::literal::ValueV::Array(items) => menus_warnings(items),
                    _ => Seq::<WarningV>::empty(),
                }
            } else {
                Seq::<WarningV>::empty()
            }
        } else {
            seq![]
        },
        _ => seq![],
    }
}

/// The unknown-field warnings of menu nodes, in order.
pub open spec fn menus_warnings(s: Seq<crate::literal::ValueV>) -> Seq<WarningV>
    decreases s,
{
    if s.len() == 0 {
        seq![]
    } else {
        menus_warnings(s.drop_last()) + menu_warnings(s.last())
    }
}

/// The unknown-field warnings of a label part: its own fields, then those
/// of its menu.
pub open spec fn part_warnings(v: crate::literal::ValueV) -> Seq<WarningV> {
    match v {
        crate::literal::ValueV::Struct(_, fs) => unknown_fields(Descriptor::LabelPart, fs) + match crate::descriptor::field_in(
            fs,
            "menu"@,
        ) {
            Some(crate::literal::ValueV::OptSome(b)) => match *b {
                crate::literal::ValueV::Array(items) => menus_warnings(items),
                _ => Seq::<WarningV>::empty(),
            },
            _ => Seq::<WarningV>::empty(),
        },
        _ => seq![],
    }
}

fn is_known_menu_field(entry: bool, name: &str) -> (r: bool)
    ensures
        r == known_menu_field(entry, name@),
{
    same_text(name, "label") || (entry && same_text(name, "value")) || (!entry && same_text(
        name,
        "content",
    ))
}

fn push_unknown_menu(ws: &mut Vec<Warning>, entry: bool, fs: &Vec<Field>)
    ensures
        warnings_view(final(ws)@) == warnings_view(old(ws)@) + unknown_menu_fields(entry, fields_view(fs@)),
{
    proof {
        crate::literal::lemma_fields_view(fs@);
    }
    let ghost start = warnings_view(ws@);
    let ghost fv = fields_view(fs@);
    let mut i: usize = 0;
    assert(fv.take(0) =~= seq![]);
    assert(start + unknown_menu_fields(entry, fv.take(0)) =~= start);
    while i < fs.len()
        invariant
            i <= fs.len(),
            fv == fields_view(fs@),
            fv.len() == fs@.len(),
            forall|j: int| 0 <= j < fs@.len() ==> #[trigger] fv[j] == (fs@[j].name@, fs@[j].value.view()),
            warnings_view(ws@) == start + unknown_menu_fields(entry, fv.take(i as int)),
        decreases fs.len() - i,
    {
        assert(fv.take(i + 1).drop_last() =~= fv.take(i as int));
        let ghost before = warnings_view(ws@);
        if !is_known_menu_field(entry, fs[i].name.as_str()) {
            ws.push(Warning::UnknownField { descriptor: Descriptor::Menu, field: fs[i].name.clone() });
            assert(warnings_view(ws@) =~= before + seq![WarningV::UnknownField(Descriptor::Menu, fv[i as int].0)]);
        } else {
            assert(warnings_view(ws@) =~= before + Seq::<WarningV>::empty());
        }
        i = i + 1;
    }
    assert(fv.take(i as int) =~= fv);
}

fn push_menu_warnings(ws: &mut Vec<Warning>, v: &Value)
    ensures
        warnings_view(final(ws)@) == warnings_view(old(ws)@) + menu_warnings(v@),
    decreases *v, 0int,
{
    let ghost start = warnings_view(ws@);
    match v {
        Value::Struct(p, fs) => {
            if p.len() == 2 && same_text(p[0].as_str(), "Menu") && same_text(p[1].as_str(), "Entry") {
                push_unknown_menu(ws, true, fs);
            } else if p.len() == 2 && same_text(p[0].as_str(), "Menu") && same_text(p[1].as_str(), "Submenu") {
                push_unknown_menu(ws, false, fs);
                let ghost mid = warnings_view(ws@);
                match crate::descriptor::find_field(fs, "content") {
                    Some(k) => match &fs[k].value {
                        Value::Array(items) => {
                            push_menus_warnings(ws, items);
                        },
                        _ => {
                            assert(warnings_view(ws@) =~= mid + Seq::<WarningV>::empty());
                        },
                    },
                    None => {
                        assert(warnings_view(ws@) =~= mid + Seq::<WarningV>::empty());
                    },
                }
                assert(warnings_view(ws@) =~= start + menu_warnings(v@));
            } else {
                assert(warnings_view(ws@) =~= start + Seq::<WarningV>::empty());
            }
        },
        _ => {
            assert(warnings_view(ws@) =~= start + Seq::<WarningV>::empty());
        },
    }
}

fn push_menus_warnings(ws: &mut Vec<Warning>, items: &Vec<Value>)
    ensures
        warnings_view(final(ws)@) == warnings_view(old(ws)@) + menus_warnings(
            crate::literal::values_view(items@),
        ),
    decreases items@, 1int,
{
    proof {
        crate::literal::lemma_values_view(items@);
    }
    let ghost start = warnings_view(ws@);
    let ghost vv = crate::literal::values_view(items@);
    let mut i: usize = 0;
    assert(vv.take(0) =~= seq![]);
    assert(start + menus_warnings(vv.take(0)) =~= start);
    while i < items.len()
        invariant
            i <= items.len(),
            vv == crate::literal::values_view(items@),
            vv.len() == items@.len(),
            forall|j: int| 0 <= j < items@.len() ==> #[trigger] vv[j] == items@[j].view(),
            warnings_view(ws@) == start + menus_warnings(vv.take(i as int)),
        decreases items.len() - i,
    {
        assert(vv.take(i + 1).drop_last() =~= vv.take(i as int));
        let ghost before = warnings_view(ws@);
        push_menu_warnings(ws, &items[i]);
        assert(warnings_view(ws@) =~= start + menus_warnings(vv.take(i + 1)));
        i = i + 1;
    }
    assert(vv.take(i as int) =~= vv);
}

fn push_part_warnings(ws: &mut Vec<Warning>, v: &Value)
    ensures
        warnings_view(final(ws)@) == warnings_view(old(ws)@) + part_warnings(v@),
{
    let ghost start = warnings_view(ws@);
    match v {
        Value::Struct(_, fs) => {
            push_unknown(ws, Descriptor::LabelPart, fs);
            let ghost mid = warnings_view(ws@);
            match crate::descriptor::find_field(fs, "menu") {
                Some(k) => match &fs[k].value {
                    Value::OptSome(b) => match &**b {
                        Value::Array(items) => {
                            assert((**b).view() == crate::literal::ValueV::Array(crate::literal::values_view(items@)));
                            push_menus_warnings(ws, items);
                        },
                        _ => {
                            assert(warnings_view(ws@) =~= mid + Seq::<WarningV>::empty());
                        },
                    },
                    _ => {
                        assert(warnings_view(ws@) =~= mid + Seq::<WarningV>::empty());
                    },
                },
                None => {
                    assert(warnings_view(ws@) =~= mid + Seq::<WarningV>::empty());
                },
            }
            assert(warnings_view(ws@) =~= start + part_warnings(v@));
        },
        _ => {
            assert(warnings_view(ws@) =~= start + Seq::<WarningV>::empty());
        },
    }
}

/// The unknown-field warnings of a block's attribute arguments.
pub open spec fn block_warnings(args: Seq<Tok>) -> Seq<WarningV> {
    match crate::literal::fields_of(args, 0, args.len() as int, '=') {
        Some(fs) => unknown_fields(Descriptor::Block, fs),
        None => seq![],
    }
}

fn is_known_field(d: Descriptor, name: &str) -> (r: bool)
    ensures
        r == known_field(d, name@),
{
    match d {
        Descriptor::ExtensionInfo => same_text(name, "name"),
        Descriptor::Category => same_text(name, "name") || same_text(name, "color"),
        Descriptor::Setting => same_text(name, "name") || same_text(name, "id") || same_text(
            name,
            "default_value",
        ) || same_text(name, "on_hint") || same_text(name, "off_hint") || same_text(name, "hidden"),
        Descriptor::LabelPart => same_text(name, "spec") || same_text(name, "text") || same_text(
            name,
            "numeric",
        ) || same_text(name, "menu") || same_text(name, "readonly"),
        Descriptor::Block => same_text(name, "name") || same_text(name, "category") || same_text(
            name,
            "spec",
        ) || same_text(name, "defaults") || same_text(name, "pass_proc") || same_text(
            name,
            "type_override",
        ) || same_text(name, "block_type") || same_text(name, "target"),
        _ => true,
    }
}

fn push_unknown(ws: &mut Vec<Warning>, d: Descriptor, fs: &Vec<Field>)
    ensures
        warnings_view(final(ws)@) == warnings_view(old(ws)@) + unknown_fields(d, fields_view(fs@)),
{
    proof {
        crate::literal::lemma_fields_view(fs@);
    }
    let ghost start = warnings_view(ws@);
    let ghost fv = fields_view(fs@);
    let mut i: usize = 0;
    assert(fv.take(0) =~= seq![]);
    assert(start + unknown_fields(d, fv.take(0)) =~= start);
    while i < fs.len()
        invariant
            i <= fs.len(),
            fv == fields_view(fs@),
            fv.len() == fs@.len(),
            forall|j: int| 0 <= j < fs@.len() ==> #[trigger] fv[j] == (fs@[j].name@, fs@[j].value.view()),
            warnings_view(ws@) == start + unknown_fields(d, fv.take(i as int)),
        decreases fs.len() - i,
    {
        assert(fv.take(i + 1).drop_last() =~= fv.take(i as int));
        let ghost before = warnings_view(ws@);
        if !is_known_field(d, fs[i].name.as_str()) {
            ws.push(Warning::UnknownField { descriptor: d, field: fs[i].name.clone() });
            assert(warnings_view(ws@) =~= before + seq![WarningV::UnknownField(d, fv[i as int].0)]);
        } else {
            assert(warnings_view(ws@) =~= before + Seq::<WarningV>::empty());
        }
        i = i + 1;
    }
    assert(fv.take(i as int) =~= fv);
}

fn push_block_warnings(ws: &mut Vec<Warning>, args: &Vec<Tok>)
    ensures
        warnings_view(final(ws)@) == warnings_view(old(ws)@) + block_warnings(args@),
{
    match parse_fields(args, 0, args.len(), '=') {
        Some(fs) => push_unknown(ws, Descriptor::Block, &fs),
        None => {
            assert(warnings_view(ws@) =~= warnings_view(ws@) + Seq::<WarningV>::empty());
        },
    }
}

fn push_struct_warnings(ws: &mut Vec<Warning>, d: Descriptor, v: &Value)
    ensures
        warnings_view(final(ws)@) == warnings_view(old(ws)@) + struct_warnings(d, v@),
{
    match v {
        Value::Struct(_, fs) => push_unknown(ws, d, fs),
        _ => {
            assert(warnings_view(ws@) =~= warnings_view(ws@) + Seq::<WarningV>::empty());
        },
    }
}

/// Everything that a module declares.
#[derive(Debug)]
pub struct Registry {
    pub info: Option<ExtensionInfo>,
    pub categories: Vec<CustomCategory>,
    pub settings: Vec<ExtensionSetting>,
    pub blocks: Vec<CustomBlock>,
    pub label_parts: Vec<LabelPart>,
    pub menu_items: Vec<MenuItem>,
    pub setup: Option<String>,
    /// The functions that the script binds, sorted, each once.
    pub fn_names: Vec<String>,
    pub warnings: Vec<Warning>,
}

/// The mathematical form of a [`Registry`].
pub struct RegistryV {
    pub info: Option<Seq<char>>,
    pub categories: Seq<CategoryV>,
    pub settings: Seq<SettingV>,
    pub blocks: Seq<BlockV>,
    pub label_parts: Seq<LabelPartV>,
    pub menu_items: Seq<(Seq<char>, Seq<char>)>,
    pub setup: Option<Seq<char>>,
    pub fn_names: Seq<Seq<char>>,
    pub warnings: Seq<WarningV>,
}

impl Registry {
    pub open spec fn view(&self) -> RegistryV {
        RegistryV {
            info: match self.info {
                Some(i) => Some(i.name@),
                None => None,
            },
            categories: self.categories@.map_values(|c: CustomCategory| c@),
            settings: self.settings@.map_values(|c: ExtensionSetting| c@),
            blocks: self.blocks@.map_values(|c: CustomBlock| c@),
            label_parts: self.label_parts@.map_values(|c: LabelPart| c@),
            menu_items: self.menu_items@.map_values(|c: MenuItem| (c.label@, c.fn_name@)),
            setup: match self.setup {
                Some(f) => Some(f@),
                None => None,
            },
            fn_names: texts(self.fn_names@),
            warnings: warnings_view(self.warnings@),
        }
    }
}

/// Whether the attribute at `at` is named `w`: `#[w]` or `#[w(..)]`.
pub open spec fn attr_named(s: Seq<Tok>, at: int, w: Seq<char>) -> bool {
    0 <= at < s.len() && is_group(s[at], Delim::Bracket) && s[at]->Group_1@.len() >= 1
        && is_ident(s[at]->Group_1@[0], w)
}

/// The argument tokens of the attribute at `at`: what its parentheses
/// hold, or nothing.
pub open spec fn attr_args(s: Seq<Tok>, at: int) -> Seq<Tok> {
    if 0 <= at < s.len() && s[at] is Group && s[at]->Group_1@.len() == 2 && is_group(
        s[at]->Group_1@[1],
        Delim::Paren,
    ) {
        s[at]->Group_1@[1]->Group_1@
    } else {
        seq![]
    }
}

/// The value of a constant item.
pub open spec fn const_value(s: Seq<Tok>, item: ItemKind) -> Option<crate::literal::ValueV> {
    match item {
        ItemKind::Const { lo, hi } => value_of(s, lo as int, hi as int),
        _ => None,
    }
}

/// The label parts of the module, in order of declaration.
pub open spec fn parts_fold(s: Seq<Tok>, ms: Seq<Mark>) -> Result<Seq<LabelPartV>, ErrV>
    decreases ms.len(),
{
    if ms.len() == 0 {
        Ok(seq![])
    } else {
        match parts_fold(s, ms.drop_last()) {
            Err(e) => Err(e),
            Ok(ps) => {
                let m = ms.last();
                if m.item is Const && attr_named(s, m.attr as int, "netsblox_extension_label_part"@) {
                    match const_value(s, m.item) {
                        Some(v) => match label_part_of(v) {
                            Ok(p) => Ok(ps.push(p)),
                            Err(e) => Err(e),
                        },
                        None => Err(ErrV::Malformed(Descriptor::LabelPart, ""@, ""@)),
                    }
                } else {
                    Ok(ps)
                }
            },
        }
    }
}

/// Whether `t` names a known input slot: a built-in one or a declared
/// label part.
pub open spec fn known(builtins: Seq<Seq<char>>, parts: Seq<LabelPartV>, t: Seq<char>) -> bool {
    builtins.contains(t) || exists|j: int| 0 <= j < parts.len() && #[trigger] parts[j].spec == t
}

/// The first of `ts` that names no known input slot.
pub open spec fn first_unknown(ts: Seq<Seq<char>>, builtins: Seq<Seq<char>>, parts: Seq<LabelPartV>) -> Option<
    Seq<char>,
>
    decreases ts.len(),
{
    if ts.len() == 0 {
        None
    } else if !known(builtins, parts, ts[0]) {
        Some(ts[0])
    } else {
        first_unknown(ts.drop_first(), builtins, parts)
    }
}

/// The registry after the descriptor of mark `m` is taken in.
pub open spec fn step(
    s: Seq<Tok>,
    builtins: Seq<Seq<char>>,
    st: RegistryV,
    m: Mark,
) -> Result<RegistryV, ErrV> {
    match m.item {
        ItemKind::Const { .. } => if attr_named(s, m.attr as int, "netsblox_extension_info"@) {
            match const_value(s, m.item) {
                Some(v) => match info_of(v) {
                    Ok(n) => Ok(
                        RegistryV {
                            info: Some(n),
                            warnings: st.warnings + struct_warnings(Descriptor::ExtensionInfo, v),
                            ..st
                        },
                    ),
                    Err(e) => Err(e),
                },
                None => Err(ErrV::Malformed(Descriptor::ExtensionInfo, ""@, ""@)),
            }
        } else if attr_named(s, m.attr as int, "netsblox_extension_category"@) {
            match const_value(s, m.item) {
                Some(v) => match category_of(v) {
                    Ok(c) => Ok(
                        RegistryV {
                            categories: st.categories.push(c),
                            warnings: st.warnings + struct_warnings(Descriptor::Category, v),
                            ..st
                        },
                    ),
                    Err(e) => Err(e),
                },
                None => Err(ErrV::Malformed(Descriptor::Category, ""@, ""@)),
            }
        } else if attr_named(s, m.attr as int, "netsblox_extension_setting"@) {
            match const_value(s, m.item) {
                Some(v) => match setting_of(v) {
                    Ok(c) => Ok(
                        RegistryV {
                            settings: st.settings.push(c),
                            warnings: st.warnings + struct_warnings(Descriptor::Setting, v),
                            ..st
                        },
                    ),
                    Err(e) => Err(e),
                },
                None => Err(ErrV::Malformed(Descriptor::Setting, ""@, ""@)),
            }
        } else if attr_named(s, m.attr as int, "netsblox_extension_label_part"@) {
            match const_value(s, m.item) {
                Some(v) => Ok(RegistryV { warnings: st.warnings + part_warnings(v), ..st }),
                None => Ok(st),
            }
        } else {
            Ok(st)
        },
        ItemKind::Fn { name, out_lo, out_hi } => {
            let f = s[name as int]->Ident_0@;
            if !(name < s.len() && s[name as int] is Ident && out_lo <= out_hi <= s.len()) {
                Ok(st)
            } else if attr_named(s, m.attr as int, "netsblox_extension_block"@) {
                let shape = shape_of(s.subrange(out_lo as int, out_hi as int));
                match block_of(attr_args(s, m.attr as int), f, shape) {
                    Ok(b) => if b.name.len() == 0 {
                        Ok(
                            RegistryV {
                                warnings: (st.warnings + block_warnings(attr_args(s, m.attr as int))).push(
                                    WarningV::EmptyBlockName(f),
                                ),
                                ..st
                            },
                        )
                    } else {
                        match placeholders_of(b.spec) {
                            Some(ts) => match first_unknown(ts, builtins, st.label_parts) {
                                Some(t) => Err(ErrV::UnknownSlot(b.name, t)),
                                None => Ok(
                                    RegistryV {
                                        blocks: st.blocks.push(b),
                                        fn_names: insert_sorted(st.fn_names, b.impl_fn),
                                        warnings: st.warnings + block_warnings(attr_args(s, m.attr as int)),
                                        ..st
                                    },
                                ),
                            },
                            None => Err(ErrV::Pattern),
                        }
                    },
                    Err(e) => Err(e),
                }
            } else if attr_named(s, m.attr as int, "netsblox_extension_menu_item"@) {
                match menu_label_of(attr_args(s, m.attr as int)) {
                    Ok(l) => Ok(
                        RegistryV {
                            menu_items: st.menu_items.push((l, f)),
                            fn_names: insert_sorted(st.fn_names, f),
                            ..st
                        },
                    ),
                    Err(e) => Err(e),
                }
            } else if attr_named(s, m.attr as int, "netsblox_extension_setup"@) {
                match st.setup {
                    Some(first) => Err(ErrV::DuplicateSetup(first, f)),
                    None => Ok(
                        RegistryV { setup: Some(f), fn_names: insert_sorted(st.fn_names, f), ..st },
                    ),
                }
            } else {
                Ok(st)
            }
        },
        ItemKind::Other => Ok(st),
    }
}

/// The registry after the descriptors of `ms` are taken in, in order.
pub open spec fn regs_fold(s: Seq<Tok>, builtins: Seq<Seq<char>>, start: RegistryV, ms: Seq<Mark>) -> Result<
    RegistryV,
    ErrV,
>
    decreases ms.len(),
{
    if ms.len() == 0 {
        Ok(start)
    } else {
        match regs_fold(s, builtins, start, ms.drop_last()) {
            Err(e) => Err(e),
            Ok(st) => step(s, builtins, st, ms.last()),
        }
    }
}

/// The registry with only its label parts.
pub open spec fn seeded(parts: Seq<LabelPartV>) -> RegistryV {
    RegistryV {
        info: None,
        categories: seq![],
        settings: seq![],
        blocks: seq![],
        label_parts: parts,
        menu_items: seq![],
        setup: None,
        fn_names: seq![],
        warnings: seq![],
    }
}

/// The registry of the module `s`: label parts first, then everything
/// else in order of declaration; the module must declare its extension
/// info.
pub open spec fn registry_of(s: Seq<Tok>, builtins: Seq<Seq<char>>) -> Result<RegistryV, ErrV> {
    let ms = marks_of(s);
    match parts_fold(s, ms) {
        Err(e) => Err(e),
        Ok(parts) => match regs_fold(s, builtins, seeded(parts), ms) {
            Err(e) => Err(e),
            Ok(st) => if st.info is None {
                Err(ErrV::MissingInfo)
            } else {
                Ok(st)
            },
        },
    }
}


pub open spec fn parts_view(ps: Seq<LabelPart>) -> Seq<LabelPartV> {
    ps.map_values(|c: LabelPart| c@)
}

proof fn lemma_parts_err(s: Seq<Tok>, ms: Seq<Mark>, i: int, e: ErrV)
    requires
        0 <= i <= ms.len(),
        parts_fold(s, ms.take(i)) == Err::<Seq<LabelPartV>, ErrV>(e),
    ensures
        parts_fold(s, ms) == Err::<Seq<LabelPartV>, ErrV>(e),
    decreases ms.len() - i,
{
    if i < ms.len() {
        assert(ms.take(i + 1).drop_last() =~= ms.take(i));
        lemma_parts_err(s, ms, i + 1, e);
    } else {
        assert(ms.take(i) =~= ms);
    }
}

proof fn lemma_regs_err(s: Seq<Tok>, b: Seq<Seq<char>>, st: RegistryV, ms: Seq<Mark>, i: int, e: ErrV)
    requires
        0 <= i <= ms.len(),
        regs_fold(s, b, st, ms.take(i)) == Err::<RegistryV, ErrV>(e),
    ensures
        regs_fold(s, b, st, ms) == Err::<RegistryV, ErrV>(e),
    decreases ms.len() - i,
{
    if i < ms.len() {
        assert(ms.take(i + 1).drop_last() =~= ms.take(i));
        lemma_regs_err(s, b, st, ms, i + 1, e);
    } else {
        assert(ms.take(i) =~= ms);
    }
}

fn attr_is(s: &Vec<Tok>, at: usize, w: &str) -> (r: bool)
    ensures
        r == attr_named(s@, at as int, w@),
{
    if at < s.len() {
        match &s[at] {
            Tok::Group(d, inner) => {
                if *d == Delim::Bracket && inner.len() >= 1 {
                    match &inner[0] {
                        Tok::Ident(x) => same_text(x.as_str(), w),
                        _ => false,
                    }
                } else {
                    false
                }
            },
            _ => false,
        }
    } else {
        false
    }
}

fn args_at(s: &Vec<Tok>, at: usize) -> (r: Option<&Vec<Tok>>)
    ensures
        match r {
            Some(a) => attr_args(s@, at as int) == a@,
            None => attr_args(s@, at as int) == Seq::<Tok>::empty(),
        },
{
    if at < s.len() {
        if let Tok::Group(_, inner) = &s[at] {
            if inner.len() == 2 {
                if let Tok::Group(d, a) = &inner[1] {
                    if *d == Delim::Paren {
                        return Some(a);
                    }
                }
            }
        }
    }
    None
}

fn const_val(s: &Vec<Tok>, item: ItemKind) -> (r: Option<crate::literal::Value>)
    ensures
        match r {
            Some(v) => const_value(s@, item) == Some(v@),
            None => const_value(s@, item) is None,
        },
{
    match item {
        ItemKind::Const { lo, hi } => parse_value(s, lo, hi),
        _ => None,
    }
}

/// Collects the label parts of a module, in order of declaration.
fn collect_parts(s: &Vec<Tok>, ms: &Vec<Mark>) -> (r: Result<Vec<LabelPart>, BuildError>)
    ensures
        match r {
            Ok(ps) => parts_fold(s@, ms@) == Ok::<Seq<LabelPartV>, ErrV>(parts_view(ps@)),
            Err(e) => parts_fold(s@, ms@) == Err::<Seq<LabelPartV>, ErrV>(e@),
        },
{
    let mut ps: Vec<LabelPart> = Vec::new();
    let mut i: usize = 0;
    assert(ms@.take(0) =~= Seq::<Mark>::empty());
    assert(parts_view(ps@) =~= Seq::<LabelPartV>::empty());
    while i < ms.len()
        invariant
            i <= ms.len(),
            parts_fold(s@, ms@.take(i as int)) == Ok::<Seq<LabelPartV>, ErrV>(parts_view(ps@)),
        decreases ms.len() - i,
    {
        let m = ms[i];
        assert(ms@.take(i + 1).drop_last() =~= ms@.take(i as int));
        assert(ms@.take(i + 1).last() == m);
        let is_const = match m.item {
            ItemKind::Const { .. } => true,
            _ => false,
        };
        if is_const && attr_is(s, m.attr, "netsblox_extension_label_part") {
            let r = match const_val(s, m.item) {
                Some(v) => parse_label_part(&v),
                None => Err(malformed(Descriptor::LabelPart, "", String::from_str(""))),
            };
            match r {
                Ok(p) => {
                    let ghost pv = p@;
                    let ghost old_ps = ps@;
                    ps.push(p);
                    assert(parts_view(ps@) =~= parts_view(old_ps).push(pv));
                },
                Err(e) => {
                    proof {
                        lemma_parts_err(s@, ms@, i + 1, e@);
                    }
                    return Err(e);
                },
            }
        }
        i = i + 1;
    }
    assert(ms@.take(i as int) =~= ms@);
    Ok(ps)
}

fn is_known(t: &String, builtins: &Vec<String>, parts: &Vec<LabelPart>) -> (r: bool)
    ensures
        r == known(texts(builtins@), parts_view(parts@), t@),
{
    let mut i: usize = 0;
    while i < builtins.len()
        invariant
            i <= builtins.len(),
            forall|j: int| 0 <= j < i ==> builtins@[j]@ != t@,
        decreases builtins.len() - i,
    {
        if same_text(builtins[i].as_str(), t.as_str()) {
            assert(texts(builtins@)[i as int] == t@);
            return true;
        }
        i = i + 1;
    }
    let mut k: usize = 0;
    while k < parts.len()
        invariant
            k <= parts.len(),
            forall|j: int| 0 <= j < k ==> parts@[j].spec@ != t@,
        decreases parts.len() - k,
    {
        if same_text(parts[k].spec.as_str(), t.as_str()) {
            assert(parts_view(parts@)[k as int].spec == t@);
            return true;
        }
        k = k + 1;
    }
    assert(!texts(builtins@).contains(t@));
    false
}

fn find_unknown(ts: &Vec<String>, builtins: &Vec<String>, parts: &Vec<LabelPart>) -> (r: Option<String>)
    ensures
        match r {
            Some(t) => first_unknown(texts(ts@), texts(builtins@), parts_view(parts@)) == Some(t@),
            None => first_unknown(texts(ts@), texts(builtins@), parts_view(parts@)) is None,
        },
{
    let ghost b = texts(builtins@);
    let ghost p = parts_view(parts@);
    let mut i: usize = 0;
    assert(texts(ts@).skip(0) =~= texts(ts@));
    while i < ts.len()
        invariant
            i <= ts.len(),
            b == texts(builtins@),
            p == parts_view(parts@),
            first_unknown(texts(ts@), b, p) == first_unknown(texts(ts@).skip(i as int), b, p),
        decreases ts.len() - i,
    {
        assert(texts(ts@).skip(i as int)[0] == ts@[i as int]@);
        if !is_known(&ts[i], builtins, parts) {
            return Some(ts[i].clone());
        }
        assert(texts(ts@).skip(i as int).drop_first() =~= texts(ts@).skip(i + 1));
        i = i + 1;
    }
    None
}

fn apply_mark(s: &Vec<Tok>, builtins: &Vec<String>, reg: &mut Registry, m: Mark) -> (r: Result<(), BuildError>)
    ensures
        match r {
            Ok(_) => step(s@, texts(builtins@), old(reg)@, m) == Ok::<RegistryV, ErrV>(final(reg)@),
            Err(e) => step(s@, texts(builtins@), old(reg)@, m) == Err::<RegistryV, ErrV>(e@),
        },
{
    let ghost st = reg@;
    match m.item {
        ItemKind::Const { .. } => {
            if attr_is(s, m.attr, "netsblox_extension_info") {
                let r = match const_val(s, m.item) {
                    Some(v) => match parse_info(&v) {
                        Ok(i) => Ok((i, v)),
                        Err(e) => Err(e),
                    },
                    None => Err(malformed(Descriptor::ExtensionInfo, "", String::from_str(""))),
                };
                match r {
                    Ok((i, v)) => {
                        reg.info = Some(i);
                        push_struct_warnings(&mut reg.warnings, Descriptor::ExtensionInfo, &v);
                        assert(reg@ == RegistryV { info: reg@.info, warnings: reg@.warnings, ..st });
                        Ok(())
                    },
                    Err(e) => Err(e),
                }
            } else if attr_is(s, m.attr, "netsblox_extension_category") {
                let r = match const_val(s, m.item) {
                    Some(v) => match parse_category(&v) {
                        Ok(c) => Ok((c, v)),
                        Err(e) => Err(e),
                    },
                    None => Err(malformed(Descriptor::Category, "", String::from_str(""))),
                };
                match r {
                    Ok((c, v)) => {
                        let ghost cv = c@;
                        reg.categories.push(c);
                        push_struct_warnings(&mut reg.warnings, Descriptor::Category, &v);
                        assert(reg@.categories =~= st.categories.push(cv));
                        Ok(())
                    },
                    Err(e) => Err(e),
                }
            } else if attr_is(s, m.attr, "netsblox_extension_setting") {
                let r = match const_val(s, m.item) {
                    Some(v) => match parse_setting(&v) {
                        Ok(c) => Ok((c, v)),
                        Err(e) => Err(e),
                    },
                    None => Err(malformed(Descriptor::Setting, "", String::from_str(""))),
                };
                match r {
                    Ok((c, v)) => {
                        let ghost cv = c@;
                        reg.settings.push(c);
                        push_struct_warnings(&mut reg.warnings, Descriptor::Setting, &v);
                        assert(reg@.settings =~= st.settings.push(cv));
                        Ok(())
                    },
                    Err(e) => Err(e),
                }
            } else if attr_is(s, m.attr, "netsblox_extension_label_part") {
                match const_val(s, m.item) {
                    Some(v) => push_part_warnings(&mut reg.warnings, &v),
                    None => {},
                }
                Ok(())
            } else {
                Ok(())
            }
        },
        ItemKind::Fn { name, out_lo, out_hi } => {
            if !(name < s.len() && out_lo <= out_hi && out_hi <= s.len()) {
                return Ok(());
            }
            let f = match &s[name] {
                Tok::Ident(x) => x.clone(),
                _ => return Ok(()),
            };
            let empty: Vec<Tok> = Vec::new();
            let args = match args_at(s, m.attr) {
                Some(a) => a,
                None => &empty,
            };
            if attr_is(s, m.attr, "netsblox_extension_block") {
                let shape = return_shape(s, out_lo, out_hi);
                let b = match parse_block(args, &f, shape) {
                    Ok(b) => b,
                    Err(e) => return Err(e),
                };
                if b.name.unicode_len() == 0 {
                    push_block_warnings(&mut reg.warnings, args);
                    let ghost mid = reg@.warnings;
                    reg.warnings.push(Warning::EmptyBlockName { fn_name: f });
                    assert(reg@.warnings =~= mid.push(WarningV::EmptyBlockName(s@[name as int]->Ident_0@)));
                    return Ok(());
                }
                let ts = match placeholders(b.spec.as_str()) {
                    Ok(ts) => ts,
                    Err(e) => return Err(e),
                };
                match find_unknown(&ts, builtins, &reg.label_parts) {
                    Some(t) => Err(BuildError::UnknownSlotToken { block: b.name.clone(), token: t }),
                    None => {
                        let ghost bv = b@;
                        push_block_warnings(&mut reg.warnings, args);
                        add_sorted(&mut reg.fn_names, b.impl_fn.as_str());
                        reg.blocks.push(b);
                        assert(reg@.blocks =~= st.blocks.push(bv));
                        Ok(())
                    },
                }
            } else if attr_is(s, m.attr, "netsblox_extension_menu_item") {
                match parse_menu_label(args) {
                    Ok(l) => {
                        add_sorted(&mut reg.fn_names, f.as_str());
                        let ghost lv = (l@, f@);
                        reg.menu_items.push(MenuItem { label: l, fn_name: f });
                        assert(reg@.menu_items =~= st.menu_items.push(lv));
                        Ok(())
                    },
                    Err(e) => Err(e),
                }
            } else if attr_is(s, m.attr, "netsblox_extension_setup") {
                match &reg.setup {
                    Some(first) => Err(
                        BuildError::DuplicateSetupDeclaration { first: first.clone(), second: f },
                    ),
                    None => {
                        add_sorted(&mut reg.fn_names, f.as_str());
                        reg.setup = Some(f);
                        Ok(())
                    },
                }
            } else {
                Ok(())
            }
        },
        ItemKind::Other => Ok(()),
    }
}


/// Collects the descriptors of a module, given as its top-level tokens,
/// into a registry: first every label part, so that a block may use a
/// label part declared anywhere; then everything else in order of
/// declaration, checking each block's placeholders as it comes. Fails on
/// the first malformed descriptor, unknown placeholder token or second
/// setup function, and where no extension info is declared.
pub fn collect(s: &Vec<Tok>, builtins: &Vec<String>) -> (r: Result<Registry, BuildError>)
    ensures
        match r {
            Ok(reg) => registry_of(s@, texts(builtins@)) == Ok::<RegistryV, ErrV>(reg@),
            Err(e) => registry_of(s@, texts(builtins@)) == Err::<RegistryV, ErrV>(e@),
        },
{
    let ms = scan_marks(s);
    let parts = match collect_parts(s, &ms) {
        Ok(p) => p,
        Err(e) => return Err(e),
    };
    let ghost pv = parts_view(parts@);
    let mut reg = Registry {
        info: None,
        categories: Vec::new(),
        settings: Vec::new(),
        blocks: Vec::new(),
        label_parts: parts,
        menu_items: Vec::new(),
        setup: None,
        fn_names: Vec::new(),
        warnings: Vec::new(),
    };
    let ghost start = reg@;
    let ghost b = texts(builtins@);
    assert(reg@.categories =~= seq![]);
    assert(reg@.settings =~= seq![]);
    assert(reg@.blocks =~= seq![]);
    assert(reg@.menu_items =~= seq![]);
    assert(reg@.fn_names =~= seq![]);
    assert(reg@.warnings =~= seq![]);
    assert(start == seeded(parts_view(parts@)));
    let mut i: usize = 0;
    assert(ms@.take(0) =~= Seq::<Mark>::empty());
    while i < ms.len()
        invariant
            i <= ms.len(),
            b == texts(builtins@),
            start == seeded(pv),
            ms@ == marks_of(s@),
            parts_fold(s@, ms@) == Ok::<Seq<LabelPartV>, ErrV>(pv),
            regs_fold(s@, b, start, ms@.take(i as int)) == Ok::<RegistryV, ErrV>(reg@),
        decreases ms.len() - i,
    {
        assert(ms@.take(i + 1).drop_last() =~= ms@.take(i as int));
        assert(ms@.take(i + 1).last() == ms@[i as int]);
        match apply_mark(s, builtins, &mut reg, ms[i]) {
            Ok(_) => {},
            Err(e) => {
                proof {
                    lemma_regs_err(s@, b, start, ms@, i + 1, e@);
                }
                return Err(e);
            },
        }
        i = i + 1;
    }
    assert(ms@.take(i as int) =~= ms@);
    if reg.info.is_none() {
        return Err(BuildError::MissingExtensionInfo);
    }
    Ok(reg)
}


/// Whether every placeholder token of block `b` names a known input slot.
pub open spec fn tokens_known(b: BlockV, builtins: Seq<Seq<char>>, parts: Seq<LabelPartV>) -> bool {
    match placeholders_of(b.spec) {
        Some(ts) => forall|j: int| 0 <= j < ts.len() ==> known(builtins, parts, #[trigger] ts[j]),
        None => false,
    }
}

proof fn lemma_first_unknown(ts: Seq<Seq<char>>, b: Seq<Seq<char>>, p: Seq<LabelPartV>)
    ensures
        first_unknown(ts, b, p) is None ==> forall|j: int| 0 <= j < ts.len() ==> known(b, p, #[trigger] ts[j]),
        first_unknown(ts, b, p) matches Some(t) ==> !known(b, p, t),
    decreases ts.len(),
{
    if ts.len() > 0 && known(b, p, ts[0]) {
        lemma_first_unknown(ts.drop_first(), b, p);
        if first_unknown(ts, b, p) is None {
            assert forall|j: int| 0 <= j < ts.len() implies known(b, p, #[trigger] ts[j]) by {
                if j > 0 {
                    assert(ts[j] == ts.drop_first()[j - 1]);
                }
            }
        }
    }
}

proof fn lemma_fold_tokens(s: Seq<Tok>, b: Seq<Seq<char>>, start: RegistryV, ms: Seq<Mark>)
    requires
        forall|i: int| 0 <= i < start.blocks.len() ==> tokens_known(#[trigger] start.blocks[i], b, start.label_parts),
    ensures
        regs_fold(s, b, start, ms) matches Ok(st) ==> st.label_parts == start.label_parts && forall|i: int|
            0 <= i < st.blocks.len() ==> tokens_known(#[trigger] st.blocks[i], b, st.label_parts),
        regs_fold(s, b, start, ms) matches Err(ErrV::UnknownSlot(_, t)) ==> !known(b, start.label_parts, t),
    decreases ms.len(),
{
    if ms.len() > 0 {
        lemma_fold_tokens(s, b, start, ms.drop_last());
        match regs_fold(s, b, start, ms.drop_last()) {
            Ok(st) => {
                let m = ms.last();
                if let ItemKind::Fn { name, out_lo, out_hi } = m.item {
                    let f = s[name as int]->Ident_0@;
                    if name < s.len() && s[name as int] is Ident && out_lo <= out_hi <= s.len()
                        && attr_named(s, m.attr as int, "netsblox_extension_block"@) {
                        let shape = shape_of(s.subrange(out_lo as int, out_hi as int));
                        if let Ok(bv) = block_of(attr_args(s, m.attr as int), f, shape) {
                            if let Some(ts) = placeholders_of(bv.spec) {
                                lemma_first_unknown(ts, b, st.label_parts);
                            }
                        }
                    }
                }
            },
            Err(_) => {},
        }
    }
}

/// Every placeholder token of every block of a successful build names a
/// built-in input slot or a declared label part; a build that fails on an
/// unknown token names a token that is neither.
pub proof fn lemma_block_tokens_known(s: Seq<Tok>, builtins: Seq<Seq<char>>)
    ensures
        registry_of(s, builtins) matches Ok(r) ==> forall|i: int|
            0 <= i < r.blocks.len() ==> tokens_known(#[trigger] r.blocks[i], builtins, r.label_parts),
        registry_of(s, builtins) matches Err(ErrV::UnknownSlot(_, t)) ==> (parts_fold(
            s,
            marks_of(s),
        ) matches Ok(parts) ==> !known(builtins, parts, t)),
{
    if let Ok(parts) = parts_fold(s, marks_of(s)) {
        lemma_fold_tokens(s, builtins, seeded(parts), marks_of(s));
    }
}

/// Whether mark `m` marks a function as the setup function.
pub open spec fn is_setup_mark(s: Seq<Tok>, m: Mark) -> bool {
    match m.item {
        ItemKind::Fn { name, out_lo, out_hi } => name < s.len() && s[name as int] is Ident && out_lo
            <= out_hi <= s.len() && attr_named(s, m.attr as int, "netsblox_extension_setup"@),
        _ => false,
    }
}

/// How many of `ms` mark a setup function.
pub open spec fn setup_count(s: Seq<Tok>, ms: Seq<Mark>) -> nat
    decreases ms.len(),
{
    if ms.len() == 0 {
        0
    } else {
        setup_count(s, ms.drop_last()) + if is_setup_mark(s, ms.last()) {
            1nat
        } else {
            0nat
        }
    }
}

proof fn lemma_step_setup(s: Seq<Tok>, b: Seq<Seq<char>>, st: RegistryV, m: Mark)
    ensures
        step(s, b, st, m) matches Ok(st2) ==> (if is_setup_mark(s, m) {
            st.setup is None && st2.setup is Some
        } else {
            st2.setup == st.setup
        }),
{
    reveal_strlit("netsblox_extension_block");
    reveal_strlit("netsblox_extension_menu_item");
    reveal_strlit("netsblox_extension_setup");
    assert("netsblox_extension_block"@[19] != "netsblox_extension_setup"@[19]);
    assert("netsblox_extension_menu_item"@[19] != "netsblox_extension_setup"@[19]);
    match m.item {
        ItemKind::Fn { name, out_lo, out_hi } => {},
        _ => {},
    }
}

proof fn lemma_fold_setup(s: Seq<Tok>, b: Seq<Seq<char>>, start: RegistryV, ms: Seq<Mark>)
    requires
        start.setup is None,
    ensures
        regs_fold(s, b, start, ms) matches Ok(st) ==> setup_count(s, ms) <= 1 && (st.setup is Some
            <==> setup_count(s, ms) == 1),
    decreases ms.len(),
{
    if ms.len() > 0 {
        lemma_fold_setup(s, b, start, ms.drop_last());
        if let Ok(st) = regs_fold(s, b, start, ms.drop_last()) {
            lemma_step_setup(s, b, st, ms.last());
        }
    }
}

/// A successful build marks at most one setup function, and its registry
/// holds one exactly where the module marks one.
pub proof fn lemma_single_setup(s: Seq<Tok>, builtins: Seq<Seq<char>>)
    ensures
        registry_of(s, builtins) matches Ok(r) ==> setup_count(s, marks_of(s)) <= 1 && (r.setup is Some
            <==> setup_count(s, marks_of(s)) == 1),
{
    if let Ok(parts) = parts_fold(s, marks_of(s)) {
        lemma_fold_setup(s, builtins, seeded(parts), marks_of(s));
    }
}

/// Where the build has taken in a setup function `first` and comes to a
/// second one, it fails with `DuplicateSetupDeclaration` naming both.
pub proof fn lemma_second_setup(s: Seq<Tok>, builtins: Seq<Seq<char>>, i: int, first: Seq<char>)
    requires
        0 <= i < marks_of(s).len(),
        is_setup_mark(s, marks_of(s)[i]),
        parts_fold(s, marks_of(s)) is Ok,
        regs_fold(s, builtins, seeded(parts_fold(s, marks_of(s))->Ok_0), marks_of(s).take(i)) matches Ok(
            st,
        ) && st.setup == Some(first),
    ensures
        registry_of(s, builtins) == Err::<RegistryV, ErrV>(
            ErrV::DuplicateSetup(first, s[marks_of(s)[i].item->name as int]->Ident_0@),
        ),
{
    reveal_strlit("netsblox_extension_block");
    reveal_strlit("netsblox_extension_menu_item");
    reveal_strlit("netsblox_extension_setup");
    assert("netsblox_extension_block"@[19] != "netsblox_extension_setup"@[19]);
    assert("netsblox_extension_menu_item"@[19] != "netsblox_extension_setup"@[19]);
    let ms = marks_of(s);
    let start = seeded(parts_fold(s, ms)->Ok_0);
    assert(ms.take(i + 1).drop_last() =~= ms.take(i));
    assert(ms.take(i + 1).last() == ms[i]);
    lemma_regs_err(s, builtins, start, ms, i + 1, ErrV::DuplicateSetup(first, s[ms[i].item->name as int]->Ident_0@));
}


/// The block that mark `m` declares, where it marks a function as a block.
pub open spec fn block_at(s: Seq<Tok>, m: Mark) -> Option<BlockV> {
    match m.item {
        ItemKind::Fn { name, out_lo, out_hi } => if name < s.len() && s[name as int] is Ident
            && out_lo <= out_hi <= s.len() && attr_named(
            s,
            m.attr as int,
            "netsblox_extension_block"@,
        ) {
            match block_of(
                attr_args(s, m.attr as int),
                s[name as int]->Ident_0@,
                shape_of(s.subrange(out_lo as int, out_hi as int)),
            ) {
                Ok(b) => Some(b),
                Err(_) => None,
            }
        } else {
            None
        },
        _ => None,
    }
}

/// Whether mark `m` declares a block named `n` whose spec uses the token
/// `t`, which names no known input slot.
pub open spec fn uses_unknown(
    s: Seq<Tok>,
    m: Mark,
    builtins: Seq<Seq<char>>,
    parts: Seq<LabelPartV>,
    n: Seq<char>,
    t: Seq<char>,
) -> bool {
    match block_at(s, m) {
        Some(bv) => bv.name == n && match placeholders_of(bv.spec) {
            Some(ts) => ts.contains(t) && !known(builtins, parts, t),
            None => false,
        },
        None => false,
    }
}

pub open spec fn first_unknown_at(
    s: Seq<Tok>,
    m: Mark,
    builtins: Seq<Seq<char>>,
    parts: Seq<LabelPartV>,
    n: Seq<char>,
    t: Seq<char>,
) -> bool {
    match block_at(s, m) {
        Some(bv) => bv.name == n && match placeholders_of(bv.spec) {
            Some(ts) => first_unknown(ts, builtins, parts) == Some(t),
            None => false,
        },
        None => false,
    }
}

proof fn lemma_step_errors(s: Seq<Tok>, b: Seq<Seq<char>>, st: RegistryV, m: Mark)
    ensures
        step(s, b, st, m) matches Err(ErrV::UnknownSlot(n, t)) ==> first_unknown_at(
            s,
            m,
            b,
            st.label_parts,
            n,
            t,
        ),
        step(s, b, st, m) matches Err(ErrV::DuplicateSetup(_, _)) ==> is_setup_mark(s, m)
            && st.setup is Some,
{
    reveal_strlit("netsblox_extension_block");
    reveal_strlit("netsblox_extension_menu_item");
    reveal_strlit("netsblox_extension_setup");
    assert("netsblox_extension_block"@[19] != "netsblox_extension_setup"@[19]);
    assert("netsblox_extension_menu_item"@[19] != "netsblox_extension_setup"@[19]);
    match m.item {
        ItemKind::Fn { name, out_lo, out_hi } => {},
        _ => {},
    }
}

proof fn lemma_fold_errors(s: Seq<Tok>, b: Seq<Seq<char>>, start: RegistryV, ms: Seq<Mark>)
    requires
        start.setup is None,
    ensures
        regs_fold(s, b, start, ms) matches Err(ErrV::UnknownSlot(n, t)) ==> exists|i: int|
            0 <= i < ms.len() && #[trigger] uses_unknown(s, ms[i], b, start.label_parts, n, t),
        regs_fold(s, b, start, ms) matches Err(ErrV::DuplicateSetup(_, _)) ==> setup_count(s, ms)
            >= 2,
    decreases ms.len(),
{
    if ms.len() > 0 {
        let pre = ms.drop_last();
        lemma_fold_errors(s, b, start, pre);
        lemma_fold_setup(s, b, start, pre);
        lemma_fold_tokens_parts(s, b, start, pre);
        match regs_fold(s, b, start, pre) {
            Ok(st) => {
                lemma_step_errors(s, b, st, ms.last());
                if let Err(ErrV::UnknownSlot(n, t)) = step(s, b, st, ms.last()) {
                    let bv = block_at(s, ms.last())->Some_0;
                    let ts = placeholders_of(bv.spec)->Some_0;
                    lemma_first_unknown_in(ts, b, st.label_parts);
                    assert(ms[ms.len() - 1] == ms.last());
                    assert(uses_unknown(s, ms[ms.len() - 1], b, start.label_parts, n, t));
                }
            },
            Err(e) => {
                if let ErrV::UnknownSlot(n, t) = e {
                    let i = choose|i: int|
                        0 <= i < pre.len() && #[trigger] uses_unknown(s, pre[i], b, start.label_parts, n, t);
                    assert(ms[i] == pre[i]);
                    assert(uses_unknown(s, ms[i], b, start.label_parts, n, t));
                }
            },
        }
    }
}

proof fn lemma_first_unknown_in(ts: Seq<Seq<char>>, b: Seq<Seq<char>>, p: Seq<LabelPartV>)
    ensures
        first_unknown(ts, b, p) matches Some(t) ==> ts.contains(t) && !known(b, p, t),
    decreases ts.len(),
{
    if ts.len() > 0 {
        lemma_first_unknown_in(ts.drop_first(), b, p);
        if known(b, p, ts[0]) {
            if let Some(t) = first_unknown(ts, b, p) {
                let k = choose|k: int| 0 <= k < ts.drop_first().len() && ts.drop_first()[k] == t;
                assert(ts[k + 1] == t);
            }
        } else {
            assert(ts[0] == ts[0]);
        }
    }
}

proof fn lemma_fold_tokens_parts(s: Seq<Tok>, b: Seq<Seq<char>>, start: RegistryV, ms: Seq<Mark>)
    ensures
        regs_fold(s, b, start, ms) matches Ok(st) ==> st.label_parts == start.label_parts,
    decreases ms.len(),
{
    if ms.len() > 0 {
        lemma_fold_tokens_parts(s, b, start, ms.drop_last());
    }
}

/// A build that fails on an unknown placeholder token names a block of the
/// module, and a token that the block's spec uses and that is neither
/// built in nor a declared label part. So where every token of every block
/// is known, the build does not fail on one.
pub proof fn lemma_unknown_token_named(s: Seq<Tok>, builtins: Seq<Seq<char>>)
    ensures
        registry_of(s, builtins) matches Err(ErrV::UnknownSlot(n, t)) ==> (parts_fold(
            s,
            marks_of(s),
        ) matches Ok(parts) ==> exists|i: int|
            0 <= i < marks_of(s).len() && #[trigger] uses_unknown(s, marks_of(s)[i], builtins, parts, n, t)),
{
    if let Ok(parts) = parts_fold(s, marks_of(s)) {
        lemma_fold_errors(s, builtins, seeded(parts), marks_of(s));
    }
}

/// A build fails on a second setup function only where the module marks
/// at least two: with at most one, it never does.
pub proof fn lemma_duplicate_setup_needs_two(s: Seq<Tok>, builtins: Seq<Seq<char>>)
    ensures
        registry_of(s, builtins) matches Err(ErrV::DuplicateSetup(_, _)) ==> setup_count(
            s,
            marks_of(s),
        ) >= 2,
{
    if let Ok(parts) = parts_fold(s, marks_of(s)) {
        lemma_fold_errors(s, builtins, seeded(parts), marks_of(s));
    } else {
        lemma_parts_no_setup_error(s, marks_of(s));
    }
}

proof fn lemma_parts_no_setup_error(s: Seq<Tok>, ms: Seq<Mark>)
    ensures
        !(parts_fold(s, ms) matches Err(ErrV::DuplicateSetup(_, _))),
    decreases ms.len(),
{
    if ms.len() > 0 {
        lemma_parts_no_setup_error(s, ms.drop_last());
        if let Ok(ps) = parts_fold(s, ms.drop_last()) {
            if let Some(v) = const_value(s, ms.last().item) {
                crate::descriptor::lemma_label_part_errors(v);
            }
        }
    }
}

} // verus!
