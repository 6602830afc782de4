//! Rendering a registry into the script that registers the extension.
use vstd::prelude::*;
use crate::error::{BuildError, ErrV};
use crate::menu::{debug_quoted, format_menu, menu_tree_text, quote};
use crate::model::{
    BlockType, BlockV, CategoryV, CustomBlock, CustomCategory, ExtensionSetting, LabelPart,
    LabelPartV, MenuItem, SettingV, TargetObject, host_name_of,
};
use crate::registry::{Registry, RegistryV, placeholders, placeholders_of};
use crate::subst::{replace_all, replaced};
use crate::text::{add_sorted, insert_sorted, same_text, text_lt as text_lt_spec, texts};

verus! {

broadcast use vstd::std_specs::vec::group_vec_axioms, vstd::seq::group_seq_axioms;

/// serde_json's error, carried through opaquely.
#[verifier::external_type_specification]
#[verifier::external_body]
pub struct ExJsonError(serde_json::Error);

/// The JSON string literal that serde_json writes for `s`.
pub uninterp spec fn json_string_of(s: Seq<char>) -> Option<Seq<char>>;

/// The lower-case hexadecimal digit of `d`, for `d < 16`.
pub open spec fn hex_digit(d: u32) -> char {
    if d == 0 {
        '0'
    } else if d == 1 {
        '1'
    } else if d == 2 {
        '2'
    } else if d == 3 {
        '3'
    } else if d == 4 {
        '4'
    } else if d == 5 {
        '5'
    } else if d == 6 {
        '6'
    } else if d == 7 {
        '7'
    } else if d == 8 {
        '8'
    } else if d == 9 {
        '9'
    } else if d == 10 {
        'a'
    } else if d == 11 {
        'b'
    } else if d == 12 {
        'c'
    } else if d == 13 {
        'd'
    } else if d == 14 {
        'e'
    } else {
        'f'
    }
}

/// One character as a JSON string writes it: `"` and `\` escaped, control
/// characters as `\b`, `\t`, `\n`, `\f`, `\r` or `\u00xx`.
pub open spec fn json_char(c: char) -> Seq<char> {
    let u = c as u32;
    if c == '"' {
        seq!['\\', '"']
    } else if c == '\\' {
        seq!['\\', '\\']
    } else if u == 0x08 {
        seq!['\\', 'b']
    } else if u == 0x09 {
        seq!['\\', 't']
    } else if u == 0x0A {
        seq!['\\', 'n']
    } else if u == 0x0C {
        seq!['\\', 'f']
    } else if u == 0x0D {
        seq!['\\', 'r']
    } else if u < 0x20 {
        seq!['\\', 'u', '0', '0', hex_digit(u / 16), hex_digit(u % 16)]
    } else {
        seq![c]
    }
}

/// The characters of `s` as a JSON string writes them, without the quotes.
pub open spec fn json_escaped_text(s: Seq<char>) -> Seq<char>
    decreases s.len(),
{
    if s.len() == 0 {
        seq![]
    } else {
        json_escaped_text(s.drop_last()) + json_char(s.last())
    }
}

/// Relies on `serde_json::to_string` of a `str` (ser.rs `format_escaped_str`
/// with the compact formatter): the string in double quotes, each character
/// escaped as its `ESCAPE` table gives; or the error that it reports.
#[verifier::external_body]
fn json_string(s: &str) -> (r: Result<String, serde_json::Error>)
    ensures
        match r {
            Ok(j) => json_string_of(s@) == Some(j@) && j@ == seq!['"'] + json_escaped_text(s@) + seq!['"'],
            Err(_) => json_string_of(s@) is None,
        },
{
    serde_json::to_string(s)
}

/// A category name as it stands inside quotes in the script: its JSON
/// string literal without the enclosing quotes.
pub open spec fn json_inner(s: Seq<char>) -> Option<Seq<char>> {
    match json_string_of(s) {
        Some(j) => if j.len() >= 2 && j[0] == '"' && j.last() == '"' {
            Some(j.subrange(1, j.len() - 1))
        } else {
            None
        },
        None => None,
    }
}

/// Escapes a category name as a JSON string does, without the quotes.
pub fn json_escaped(s: &str) -> (r: Result<String, BuildError>)
    ensures
        match r {
            Ok(x) => json_inner(s@) == Some(x@) && x@ == json_escaped_text(s@),
            Err(e) => json_inner(s@) is None && e@ == ErrV::Json,
        },
{
    let j = match json_string(s) {
        Ok(j) => j,
        Err(_) => return Err(BuildError::Json),
    };
    let n = j.unicode_len();
    assert(j@.subrange(1, j@.len() - 1) =~= json_escaped_text(s@));
    if n >= 2 && j.as_str().get_char(0) == '"' && j.as_str().get_char(n - 1) == '"' {
        Ok(String::from_str(j.as_str().substring_char(1, n - 1)))
    } else {
        Err(BuildError::Json)
    }
}

pub open spec fn bool_text(b: bool) -> Seq<char> {
    if b {
        "true"@
    } else {
        "false"@
    }
}

fn bool_str(b: bool) -> (r: &'static str)
    ensures
        r@ == bool_text(b),
{
    if b {
        "true"
    } else {
        "false"
    }
}

pub open spec fn digit_text(d: nat) -> Seq<char> {
    if d == 0 {
        "0"@
    } else if d == 1 {
        "1"@
    } else if d == 2 {
        "2"@
    } else if d == 3 {
        "3"@
    } else if d == 4 {
        "4"@
    } else if d == 5 {
        "5"@
    } else if d == 6 {
        "6"@
    } else if d == 7 {
        "7"@
    } else if d == 8 {
        "8"@
    } else {
        "9"@
    }
}

/// The decimal digits of `n`.
pub open spec fn decimal(n: nat) -> Seq<char>
    decreases n,
{
    if n >= 10 {
        decimal(n / 10) + digit_text(n % 10)
    } else {
        digit_text(n)
    }
}

fn digit_str(d: usize) -> (r: &'static str)
    requires
        d < 10,
    ensures
        r@ == digit_text(d as nat),
{
    if d == 0 {
        "0"
    } else if d == 1 {
        "1"
    } else if d == 2 {
        "2"
    } else if d == 3 {
        "3"
    } else if d == 4 {
        "4"
    } else if d == 5 {
        "5"
    } else if d == 6 {
        "6"
    } else if d == 7 {
        "7"
    } else if d == 8 {
        "8"
    } else {
        "9"
    }
}

fn write_decimal(out: &mut String, n: usize)
    ensures
        final(out)@ == old(out)@ + decimal(n as nat),
    decreases n,
{
    if n >= 10 {
        write_decimal(out, n / 10);
    }
    out.append(digit_str(n % 10));
}

/// The bound parameters `v0, v1, ..` of a block with `n` placeholders.
pub open spec fn params_text(n: nat) -> Seq<char>
    decreases n,
{
    if n == 0 {
        seq![]
    } else if n == 1 {
        "v0"@
    } else {
        params_text((n - 1) as nat) + ", v"@ + decimal((n - 1) as nat)
    }
}

fn write_params(out: &mut String, n: usize)
    ensures
        final(out)@ == old(out)@ + params_text(n as nat),
    decreases n,
{
    if n == 0 {
        assert(old(out)@ + params_text(0) =~= old(out)@);
    } else if n == 1 {
        out.append("v0");
    } else {
        let ghost start = out@;
        write_params(out, n - 1);
        out.append(", v");
        write_decimal(out, n - 1);
        assert(out@ =~= start + params_text(n as nat));
    }
}

// ---- menu registrations ----

pub open spec fn menu_line(item: (Seq<char>, Seq<char>), ns: Seq<char>) -> Seq<char> {
    "\t\t\t\t'"@ + item.0 + "': window."@ + ns + "_fns."@ + item.1 + ",\n"@
}

pub open spec fn menu_lines(items: Seq<(Seq<char>, Seq<char>)>, ns: Seq<char>) -> Seq<char>
    decreases items.len(),
{
    if items.len() == 0 {
        seq![]
    } else {
        menu_lines(items.drop_last(), ns) + menu_line(items.last(), ns)
    }
}

fn render_menu_items(items: &Vec<MenuItem>, ns: &str) -> (r: String)
    ensures
        r@ == menu_lines(items@.map_values(|c: MenuItem| (c.label@, c.fn_name@)), ns@),
{
    let ghost v = items@.map_values(|c: MenuItem| (c.label@, c.fn_name@));
    let mut out = String::new();
    let mut i: usize = 0;
    assert(v.take(0) =~= seq![]);
    while i < items.len()
        invariant
            i <= items.len(),
            v == items@.map_values(|c: MenuItem| (c.label@, c.fn_name@)),
            out@ == menu_lines(v.take(i as int), ns@),
        decreases items.len() - i,
    {
        let ghost before = out@;
        let it = &items[i];
        out.append("\t\t\t\t'");
        out.append(it.label.as_str());
        out.append("': window.");
        out.append(ns);
        out.append("_fns.");
        out.append(it.fn_name.as_str());
        out.append(",\n");
        assert(v.take(i + 1).drop_last() =~= v.take(i as int));
        assert(out@ =~= before + menu_line(v[i as int], ns@));
        i = i + 1;
    }
    assert(v.take(i as int) =~= v);
    out
}

// ---- settings ----

pub open spec fn setting_line(s: SettingV) -> Seq<char> {
    "\t\t\t\tExtension.ExtensionSetting.createFromLocalStorage('"@ + s.name + "', '"@ + s.id + "', "@
        + bool_text(s.default_value) + ", '"@ + s.on_hint + "', '"@ + s.off_hint + "', "@
        + bool_text(s.hidden) + "),\n"@
}

pub open spec fn setting_lines(ss: Seq<SettingV>) -> Seq<char>
    decreases ss.len(),
{
    if ss.len() == 0 {
        seq![]
    } else {
        setting_lines(ss.drop_last()) + setting_line(ss.last())
    }
}

fn write_setting(out: &mut String, s: &ExtensionSetting)
    ensures
        final(out)@ == old(out)@ + setting_line(s@),
{
    let ghost before = out@;
    out.append("\t\t\t\tExtension.ExtensionSetting.createFromLocalStorage('");
    out.append(s.name.as_str());
    out.append("', '");
    out.append(s.id.as_str());
    out.append("', ");
    out.append(bool_str(s.default_value));
    out.append(", '");
    out.append(s.on_hint.as_str());
    out.append("', '");
    out.append(s.off_hint.as_str());
    out.append("', ");
    out.append(bool_str(s.hidden));
    out.append("),\n");
    assert(out@ =~= before + setting_line(s@));
}

fn render_settings(ss: &Vec<ExtensionSetting>) -> (r: String)
    ensures
        r@ == setting_lines(ss@.map_values(|c: ExtensionSetting| c@)),
{
    let ghost v = ss@.map_values(|c: ExtensionSetting| c@);
    let mut out = String::new();
    let mut i: usize = 0;
    assert(v.take(0) =~= seq![]);
    while i < ss.len()
        invariant
            i <= ss.len(),
            v == ss@.map_values(|c: ExtensionSetting| c@),
            out@ == setting_lines(v.take(i as int)),
        decreases ss.len() - i,
    {
        assert(v[i as int] == ss@[i as int]@);
        assert(v.take(i + 1).drop_last() =~= v.take(i as int));
        write_setting(&mut out, &ss[i]);

        i = i + 1;
    }
    assert(v.take(i as int) =~= v);
    out
}

// ---- category colors ----

pub open spec fn category_line(c: CategoryV) -> Seq<char> {
    "\t\t\t\tnew Extension.Category('"@ + c.name + "', new Color("@ + c.color.0 + ", "@ + c.color.1
        + ", "@ + c.color.2 + ")),\n"@
}

pub open spec fn category_lines(cs: Seq<CategoryV>) -> Seq<char>
    decreases cs.len(),
{
    if cs.len() == 0 {
        seq![]
    } else {
        category_lines(cs.drop_last()) + category_line(cs.last())
    }
}

fn render_categories(cs: &Vec<CustomCategory>) -> (r: String)
    ensures
        r@ == category_lines(cs@.map_values(|c: CustomCategory| c@)),
{
    let ghost v = cs@.map_values(|c: CustomCategory| c@);
    let mut out = String::new();
    let mut i: usize = 0;
    assert(v.take(0) =~= seq![]);
    while i < cs.len()
        invariant
            i <= cs.len(),
            v == cs@.map_values(|c: CustomCategory| c@),
            out@ == category_lines(v.take(i as int)),
        decreases cs.len() - i,
    {
        let ghost before = out@;
        let c = &cs[i];
        out.append("\t\t\t\tnew Extension.Category('");
        out.append(c.name.as_str());
        out.append("', new Color(");
        out.append(c.color.0.as_str());
        out.append(", ");
        out.append(c.color.1.as_str());
        out.append(", ");
        out.append(c.color.2.as_str());
        out.append(")),\n");
        assert(v.take(i + 1).drop_last() =~= v.take(i as int));
        assert(out@ =~= before + category_line(v[i as int]));
        i = i + 1;
    }
    assert(v.take(i as int) =~= v);
    out
}


// ---- palette ----

/// Whether a block with target `t` is offered on the sprite surface
/// (`sprite`) or on the stage surface (`!sprite`).
pub open spec fn on_surface(t: TargetObject, sprite: bool) -> bool {
    if sprite {
        t != TargetObject::StageMorph
    } else {
        t != TargetObject::SpriteMorph
    }
}

/// The escaped category of each block, in order.
pub open spec fn cat_keys(bs: Seq<BlockV>) -> Option<Seq<Seq<char>>>
    decreases bs.len(),
{
    if bs.len() == 0 {
        Some(seq![])
    } else {
        match (cat_keys(bs.drop_last()), json_inner(bs.last().category)) {
            (Some(k), Some(c)) => Some(k.push(c)),
            _ => None,
        }
    }
}

/// The distinct keys, sorted.
pub open spec fn sorted_keys(keys: Seq<Seq<char>>) -> Seq<Seq<char>>
    decreases keys.len(),
{
    if keys.len() == 0 {
        seq![]
    } else {
        insert_sorted(sorted_keys(keys.drop_last()), keys.last())
    }
}

pub open spec fn palette_entry(name: Seq<char>) -> Seq<char> {
    "\t\t\t\t\t\tnew Extension.Palette.Block('"@ + name + "'),\n"@
}

/// Whether the `i`-th block is listed in category `k` on the given surface.
pub open spec fn listed(bs: Seq<BlockV>, keys: Seq<Seq<char>>, k: Seq<char>, sprite: bool, i: int) -> bool {
    keys[i] == k && on_surface(bs[i].target, sprite)
}

/// The entries of the first `n` blocks listed in category `k` on a surface.
pub open spec fn palette_entries(bs: Seq<BlockV>, keys: Seq<Seq<char>>, k: Seq<char>, sprite: bool, n: nat) -> Seq<char>
    decreases n,
{
    if n == 0 {
        seq![]
    } else {
        palette_entries(bs, keys, k, sprite, (n - 1) as nat) + if listed(bs, keys, k, sprite, n - 1) {
            palette_entry(bs[n - 1].name)
        } else {
            seq![]
        }
    }
}

pub open spec fn surface_name(sprite: bool) -> Seq<char> {
    if sprite {
        "\t\t\t\t\tSpriteMorph\n"@
    } else {
        "\t\t\t\t\tStageMorph\n"@
    }
}

/// One palette partition: the blocks of category `k` on one surface.
pub open spec fn partition_text(bs: Seq<BlockV>, keys: Seq<Seq<char>>, k: Seq<char>, sprite: bool) -> Seq<char> {
    "\t\t\t\tnew Extension.PaletteCategory(\n"@ + "\t\t\t\t\t'"@ + k + "',\n"@ + "\t\t\t\t\t[\n"@
        + palette_entries(bs, keys, k, sprite, bs.len()) + "\t\t\t\t\t],\n"@ + surface_name(sprite)
        + "\t\t\t\t),\n"@
}

/// The partitions of the categories `sk`, sprite surface first.
pub open spec fn palette_text(bs: Seq<BlockV>, keys: Seq<Seq<char>>, sk: Seq<Seq<char>>) -> Seq<char>
    decreases sk.len(),
{
    if sk.len() == 0 {
        seq![]
    } else {
        palette_text(bs, keys, sk.drop_last()) + partition_text(bs, keys, sk.last(), true)
            + partition_text(bs, keys, sk.last(), false)
    }
}

pub open spec fn blocks_view(bs: Seq<CustomBlock>) -> Seq<BlockV> {
    bs.map_values(|c: CustomBlock| c@)
}

fn category_keys(blocks: &Vec<CustomBlock>) -> (r: Result<Vec<String>, BuildError>)
    ensures
        match r {
            Ok(k) => cat_keys(blocks_view(blocks@)) == Some(texts(k@)),
            Err(e) => cat_keys(blocks_view(blocks@)) is None && e@ == ErrV::Json,
        },
{
    let ghost v = blocks_view(blocks@);
    let mut keys: Vec<String> = Vec::new();
    let mut i: usize = 0;
    assert(v.take(0) =~= seq![]);
    assert(texts(keys@) =~= seq![]);
    while i < blocks.len()
        invariant
            i <= blocks.len(),
            v == blocks_view(blocks@),
            cat_keys(v.take(i as int)) == Some(texts(keys@)),
        decreases blocks.len() - i,
    {
        assert(v.take(i + 1).drop_last() =~= v.take(i as int));
        match json_escaped(blocks[i].category.as_str()) {
            Ok(c) => {
                let ghost before = keys@;
                keys.push(c);
                assert(texts(keys@) =~= texts(before).push(keys@.last()@));
            },
            Err(e) => {
                proof {
                    lemma_cat_keys_none(v, i + 1);
                }
                return Err(e);
            },
        }
        i = i + 1;
    }
    assert(v.take(i as int) =~= v);
    Ok(keys)
}

proof fn lemma_cat_keys_none(v: Seq<BlockV>, i: int)
    requires
        0 <= i <= v.len(),
        cat_keys(v.take(i)) is None,
    ensures
        cat_keys(v) is None,
    decreases v.len() - i,
{
    if i < v.len() {
        assert(v.take(i + 1).drop_last() =~= v.take(i));
        lemma_cat_keys_none(v, i + 1);
    } else {
        assert(v.take(i) =~= v);
    }
}

fn sort_keys(keys: &Vec<String>) -> (r: Vec<String>)
    ensures
        texts(r@) == sorted_keys(texts(keys@)),
{
    let ghost v = texts(keys@);
    let mut out: Vec<String> = Vec::new();
    let mut i: usize = 0;
    assert(v.take(0) =~= seq![]);
    assert(texts(out@) =~= seq![]);
    while i < keys.len()
        invariant
            i <= keys.len(),
            v == texts(keys@),
            texts(out@) == sorted_keys(v.take(i as int)),
        decreases keys.len() - i,
    {
        assert(v.take(i + 1).drop_last() =~= v.take(i as int));
        add_sorted(&mut out, keys[i].as_str());
        i = i + 1;
    }
    assert(v.take(i as int) =~= v);
    out
}

fn on_surface_exec(t: TargetObject, sprite: bool) -> (r: bool)
    ensures
        r == on_surface(t, sprite),
{
    if sprite {
        t != TargetObject::StageMorph
    } else {
        t != TargetObject::SpriteMorph
    }
}

fn write_partition(out: &mut String, blocks: &Vec<CustomBlock>, keys: &Vec<String>, k: &str, sprite: bool)
    requires
        keys@.len() == blocks@.len(),
    ensures
        final(out)@ == old(out)@ + partition_text(blocks_view(blocks@), texts(keys@), k@, sprite),
{
    let ghost v = blocks_view(blocks@);
    let ghost kv = texts(keys@);
    let ghost start = out@;
    out.append("\t\t\t\tnew Extension.PaletteCategory(\n");
    out.append("\t\t\t\t\t'");
    out.append(k);
    out.append("',\n");
    out.append("\t\t\t\t\t[\n");
    let ghost head = out@;
    let mut i: usize = 0;
    while i < blocks.len()
        invariant
            i <= blocks.len(),
            keys@.len() == blocks@.len(),
            v == blocks_view(blocks@),
            kv == texts(keys@),
            out@ == head + palette_entries(v, kv, k@, sprite, i as nat),
        decreases blocks.len() - i,
    {
        let ghost before = out@;
        if same_text(keys[i].as_str(), k) && on_surface_exec(blocks[i].target, sprite) {
            out.append("\t\t\t\t\t\tnew Extension.Palette.Block('");
            out.append(blocks[i].name.as_str());
            out.append("'),\n");
            assert(out@ =~= before + palette_entry(v[i as int].name));
        } else {
            assert(out@ =~= before + Seq::<char>::empty());
        }
        assert(palette_entries(v, kv, k@, sprite, (i + 1) as nat) == palette_entries(v, kv, k@, sprite, i as nat)
            + if listed(v, kv, k@, sprite, i as int) { palette_entry(v[i as int].name) } else { seq![] });
        i = i + 1;
    }
    out.append("\t\t\t\t\t],\n");
    if sprite {
        out.append("\t\t\t\t\tSpriteMorph\n");
    } else {
        out.append("\t\t\t\t\tStageMorph\n");
    }
    out.append("\t\t\t\t),\n");
    assert(out@ =~= start + partition_text(v, kv, k@, sprite));
}

fn render_palette(blocks: &Vec<CustomBlock>, keys: &Vec<String>, sorted: &Vec<String>) -> (r: String)
    requires
        keys@.len() == blocks@.len(),
    ensures
        r@ == palette_text(blocks_view(blocks@), texts(keys@), texts(sorted@)),
{
    let ghost v = blocks_view(blocks@);
    let ghost kv = texts(keys@);
    let ghost sv = texts(sorted@);
    let mut out = String::new();
    let mut i: usize = 0;
    assert(sv.take(0) =~= seq![]);
    while i < sorted.len()
        invariant
            i <= sorted.len(),
            keys@.len() == blocks@.len(),
            v == blocks_view(blocks@),
            kv == texts(keys@),
            sv == texts(sorted@),
            out@ == palette_text(v, kv, sv.take(i as int)),
        decreases sorted.len() - i,
    {
        assert(sv.take(i + 1).drop_last() =~= sv.take(i as int));
        let ghost before = out@;
        write_partition(&mut out, blocks, keys, sorted[i].as_str(), true);
        write_partition(&mut out, blocks, keys, sorted[i].as_str(), false);
        i = i + 1;
    }
    assert(sv.take(i as int) =~= sv);
    out
}


// ---- block registrations ----

pub open spec fn proc_text(pass_proc: bool) -> Seq<char> {
    if pass_proc {
        "this, "@
    } else {
        ""@
    }
}

pub open spec fn terminal_text(t: BlockType) -> Seq<char> {
    if t == BlockType::Terminator {
        ".terminal()"@
    } else {
        ""@
    }
}

pub open spec fn block_head(b: BlockV, key: Seq<char>) -> Seq<char> {
    "\t\t\t\tnew Extension.Block(\n"@ + "\t\t\t\t\t'"@ + b.name + "',\n"@ + "\t\t\t\t\t'"@ + host_name_of(
        b.block_type,
    ) + "',\n"@ + "\t\t\t\t\t'"@ + key + "',\n"@
}

pub open spec fn block_spec_line(b: BlockV) -> Seq<char> {
    "\t\t\t\t\t'"@ + b.spec + "',\n"@ + "\t\t\t\t\t[],\n"@
}

pub open spec fn block_fn_open(n: nat, ns: Seq<char>) -> Seq<char> {
    "\t\t\t\t\tfunction ("@ + params_text(n) + ") { return window."@ + ns + "_fns."@
}

pub open spec fn block_fn_call(b: BlockV, n: nat) -> Seq<char> {
    b.impl_fn + "("@ + proc_text(b.pass_proc) + params_text(n) + "); }\n"@
}

pub open spec fn block_tail(b: BlockV) -> Seq<char> {
    "\t\t\t\t)"@ + terminal_text(b.block_type) + ".for(SpriteMorph, StageMorph),\n"@
}

/// The registration of block `b`, of escaped category `key`, whose spec has
/// `n` placeholders: its name, shape, category and spec, no default
/// values, and a function of `n` parameters that forwards them (after the
/// calling process, where `pass_proc` is set) to its implementation;
/// marked terminal for a terminator.
pub open spec fn block_entry(b: BlockV, key: Seq<char>, n: nat, ns: Seq<char>) -> Seq<char> {
    block_head(b, key) + block_spec_line(b) + block_fn_open(n, ns) + block_fn_call(b, n) + block_tail(b)
}

/// The registrations of the first `n` blocks.
pub open spec fn blocks_text(bs: Seq<BlockV>, keys: Seq<Seq<char>>, ns: Seq<char>, n: nat) -> Option<Seq<char>>
    decreases n,
{
    if n == 0 {
        Some(seq![])
    } else {
        match (blocks_text(bs, keys, ns, (n - 1) as nat), placeholders_of(bs[n - 1].spec)) {
            (Some(t), Some(ts)) => Some(t + block_entry(bs[n - 1], keys[n - 1], ts.len(), ns)),
            _ => None,
        }
    }
}

fn write_block_head(out: &mut String, b: &CustomBlock, key: &str)
    ensures
        final(out)@ == old(out)@ + block_head(b@, key@),
{
    let ghost before = out@;
    out.append("\t\t\t\tnew Extension.Block(\n");
    out.append("\t\t\t\t\t'");
    out.append(b.name.as_str());
    out.append("',\n");
    out.append("\t\t\t\t\t'");
    out.append(b.block_type.host_name());
    out.append("',\n");
    out.append("\t\t\t\t\t'");
    out.append(key);
    out.append("',\n");
    assert(out@ =~= before + block_head(b@, key@));
}

fn write_block_fn(out: &mut String, b: &CustomBlock, n: usize, ns: &str)
    ensures
        final(out)@ == old(out)@ + block_fn_open(n as nat, ns@) + block_fn_call(b@, n as nat),
{
    let ghost before = out@;
    out.append("\t\t\t\t\tfunction (");
    write_params(out, n);
    out.append(") { return window.");
    out.append(ns);
    out.append("_fns.");
    assert(out@ =~= before + block_fn_open(n as nat, ns@));
    let ghost mid = out@;
    out.append(b.impl_fn.as_str());
    out.append("(");
    if b.pass_proc {
        out.append("this, ");
    } else {
        out.append("");
    }
    write_params(out, n);
    out.append("); }\n");
    assert(out@ =~= mid + block_fn_call(b@, n as nat));
}

fn write_block(out: &mut String, b: &CustomBlock, key: &str, n: usize, ns: &str)
    ensures
        final(out)@ == old(out)@ + block_entry(b@, key@, n as nat, ns@),
{
    let ghost before = out@;
    write_block_head(out, b, key);
    let ghost a1 = out@;
    out.append("\t\t\t\t\t'");
    out.append(b.spec.as_str());
    out.append("',\n");
    out.append("\t\t\t\t\t[],\n");
    assert(out@ =~= a1 + block_spec_line(b@));
    let ghost a2 = out@;
    write_block_fn(out, b, n, ns);
    let ghost a3 = out@;
    out.append("\t\t\t\t)");
    if b.block_type == BlockType::Terminator {
        out.append(".terminal()");
    } else {
        out.append("");
    }
    out.append(".for(SpriteMorph, StageMorph),\n");
    assert(out@ =~= a3 + block_tail(b@));
    assert(out@ =~= before + block_entry(b@, key@, n as nat, ns@));
}

fn render_blocks(blocks: &Vec<CustomBlock>, keys: &Vec<String>, ns: &str) -> (r: Result<String, BuildError>)
    requires
        keys@.len() == blocks@.len(),
    ensures
        match r {
            Ok(t) => blocks_text(blocks_view(blocks@), texts(keys@), ns@, blocks@.len()) == Some(t@),
            Err(e) => blocks_text(blocks_view(blocks@), texts(keys@), ns@, blocks@.len()) is None
                && e@ == ErrV::Pattern,
        },
{
    let ghost v = blocks_view(blocks@);
    let ghost kv = texts(keys@);
    let mut out = String::new();
    let mut i: usize = 0;
    while i < blocks.len()
        invariant
            i <= blocks.len(),
            keys@.len() == blocks@.len(),
            v == blocks_view(blocks@),
            kv == texts(keys@),
            blocks_text(v, kv, ns@, i as nat) == Some(out@),
        decreases blocks.len() - i,
    {
        let ts = match placeholders(blocks[i].spec.as_str()) {
            Ok(ts) => ts,
            Err(e) => {
                proof {
                    lemma_blocks_text_none(v, kv, ns@, (i + 1) as nat);
                }
                return Err(e);
            },
        };
        write_block(&mut out, &blocks[i], keys[i].as_str(), ts.len(), ns);
        i = i + 1;
    }
    Ok(out)
}

proof fn lemma_blocks_text_none(bs: Seq<BlockV>, keys: Seq<Seq<char>>, ns: Seq<char>, n: nat)
    requires
        n <= bs.len(),
        blocks_text(bs, keys, ns, n) is None,
    ensures
        blocks_text(bs, keys, ns, bs.len()) is None,
    decreases bs.len() - n,
{
    if n < bs.len() {
        lemma_blocks_text_none(bs, keys, ns, n + 1);
    }
}

// ---- label part factories ----

pub open spec fn text_js(t: Option<Seq<char>>) -> Seq<char> {
    match t {
        Some(x) => debug_quoted(x),
        None => "null"@,
    }
}

pub open spec fn menu_js(m: Option<Seq<crate::model::MenuV>>) -> Seq<char> {
    match m {
        Some(x) => menu_tree_text(x),
        None => "null"@,
    }
}

pub open spec fn part_head(p: LabelPartV) -> Seq<char> {
    "\t\t\t\tnew Extension.LabelPart(\n"@ + "\t\t\t\t\t'"@ + p.spec + "',\n"@ + "\t\t\t\t\t() => {\n"@
        + "\t\t\t\t\t\tconst part = new InputSlotMorph(\n"@
}

pub open spec fn part_text_arg(p: LabelPartV) -> Seq<char> {
    "\t\t\t\t\t\t\t"@ + text_js(p.text) + ", // text\n"@
}

pub open spec fn part_flag_args(p: LabelPartV) -> Seq<char> {
    "\t\t\t\t\t\t\t"@ + bool_text(p.numeric) + ", // numeric\n"@
}

pub open spec fn part_menu_arg(p: LabelPartV) -> Seq<char> {
    "\t\t\t\t\t\t\t"@ + menu_js(p.menu) + ", // options\n"@
}

pub open spec fn part_readonly_arg(p: LabelPartV) -> Seq<char> {
    "\t\t\t\t\t\t\t"@ + bool_text(p.readonly) + " // readonly\n"@
}

pub open spec fn part_args(p: LabelPartV) -> Seq<char> {
    part_text_arg(p) + part_flag_args(p) + part_menu_arg(p) + part_readonly_arg(p)
}

pub open spec fn part_tail() -> Seq<char> {
    "\t\t\t\t\t\t);\n"@ + "\t\t\t\t\t\treturn part;\n"@ + "\t\t\t\t\t}\n"@ + "\t\t\t\t),\n"@
}

/// The factory of one input slot: its token, and an input slot with its
/// placeholder text (quoted, or `null`), numeric flag, menu (as nested
/// text, or `null`) and read-only flag.
pub open spec fn label_part_entry(p: LabelPartV) -> Seq<char> {
    part_head(p) + part_args(p) + part_tail()
}

pub open spec fn label_part_lines(ps: Seq<LabelPartV>) -> Seq<char>
    decreases ps.len(),
{
    if ps.len() == 0 {
        seq![]
    } else {
        label_part_lines(ps.drop_last()) + label_part_entry(ps.last())
    }
}

fn write_text_arg(out: &mut String, p: &LabelPart)
    ensures
        final(out)@ == old(out)@ + part_text_arg(p@),
{
    let ghost a0 = out@;
    out.append("\t\t\t\t\t\t\t");
    match &p.text {
        Some(t) => out.append(quote(t.as_str()).as_str()),
        None => out.append("null"),
    }
    out.append(", // text\n");
    assert(out@ =~= a0 + part_text_arg(p@));
}

fn write_menu_arg(out: &mut String, p: &LabelPart)
    ensures
        final(out)@ == old(out)@ + part_menu_arg(p@),
{
    let ghost a0 = out@;
    out.append("\t\t\t\t\t\t\t");
    match &p.menu {
        Some(m) => out.append(format_menu(m).as_str()),
        None => out.append("null"),
    }
    out.append(", // options\n");
    assert(out@ =~= a0 + part_menu_arg(p@));
}

fn write_part_args(out: &mut String, p: &LabelPart)
    ensures
        final(out)@ == old(out)@ + part_args(p@),
{
    let ghost a0 = out@;
    write_text_arg(out, p);
    let ghost a1 = out@;
    out.append("\t\t\t\t\t\t\t");
    out.append(bool_str(p.numeric));
    out.append(", // numeric\n");
    assert(out@ =~= a1 + part_flag_args(p@));
    let ghost a2 = out@;
    write_menu_arg(out, p);
    let ghost a3 = out@;
    out.append("\t\t\t\t\t\t\t");
    out.append(bool_str(p.readonly));
    out.append(" // readonly\n");
    assert(out@ =~= a3 + part_readonly_arg(p@));
    assert(out@ =~= a0 + part_args(p@));
}

fn write_label_part(out: &mut String, p: &LabelPart)
    ensures
        final(out)@ == old(out)@ + label_part_entry(p@),
{
    let ghost before = out@;
    out.append("\t\t\t\tnew Extension.LabelPart(\n");
    out.append("\t\t\t\t\t'");
    out.append(p.spec.as_str());
    out.append("',\n");
    out.append("\t\t\t\t\t() => {\n");
    out.append("\t\t\t\t\t\tconst part = new InputSlotMorph(\n");
    assert(out@ =~= before + part_head(p@));
    let ghost a1 = out@;
    write_part_args(out, p);
    let ghost a2 = out@;
    out.append("\t\t\t\t\t\t);\n");
    out.append("\t\t\t\t\t\treturn part;\n");
    out.append("\t\t\t\t\t}\n");
    out.append("\t\t\t\t),\n");
    assert(out@ =~= a2 + part_tail());
    assert(out@ =~= before + label_part_entry(p@));
}

fn render_label_parts(ps: &Vec<LabelPart>) -> (r: String)
    ensures
        r@ == label_part_lines(ps@.map_values(|c: LabelPart| c@)),
{
    let ghost v = ps@.map_values(|c: LabelPart| c@);
    let mut out = String::new();
    let mut i: usize = 0;
    assert(v.take(0) =~= seq![]);
    while i < ps.len()
        invariant
            i <= ps.len(),
            v == ps@.map_values(|c: LabelPart| c@),
            out@ == label_part_lines(v.take(i as int)),
        decreases ps.len() - i,
    {
        assert(v[i as int] == ps@[i as int]@);
        assert(v.take(i + 1).drop_last() =~= v.take(i as int));
        write_label_part(&mut out, &ps[i]);
        i = i + 1;
    }
    assert(v.take(i as int) =~= v);
    out
}

// ---- imports ----

/// The names joined by `, `.
pub open spec fn imports_text(fs: Seq<Seq<char>>) -> Seq<char>
    decreases fs.len(),
{
    if fs.len() == 0 {
        seq![]
    } else if fs.len() == 1 {
        fs[0]
    } else {
        imports_text(fs.drop_last()) + ", "@ + fs.last()
    }
}

pub open spec fn window_line(f: Seq<char>, ns: Seq<char>) -> Seq<char> {
    "\t\twindow."@ + ns + "_fns."@ + f + " = "@ + f + ";"@
}

/// One binding per name, joined by line breaks.
pub open spec fn window_text(fs: Seq<Seq<char>>, ns: Seq<char>) -> Seq<char>
    decreases fs.len(),
{
    if fs.len() == 0 {
        seq![]
    } else if fs.len() == 1 {
        window_line(fs[0], ns)
    } else {
        window_text(fs.drop_last(), ns) + "\n"@ + window_line(fs.last(), ns)
    }
}

fn render_imports(fs: &Vec<String>) -> (r: String)
    ensures
        r@ == imports_text(texts(fs@)),
{
    let ghost v = texts(fs@);
    let mut out = String::new();
    let mut i: usize = 0;
    assert(v.take(0) =~= seq![]);
    while i < fs.len()
        invariant
            i <= fs.len(),
            v == texts(fs@),
            out@ == imports_text(v.take(i as int)),
        decreases fs.len() - i,
    {
        let ghost before = out@;
        assert(v.take(i + 1).drop_last() =~= v.take(i as int));
        if i > 0 {
            out.append(", ");
        }
        out.append(fs[i].as_str());
        if i == 0 {
            assert(v.take(1) =~= seq![v[0]]);
            assert(out@ =~= v[0]);
        } else {
            assert(out@ =~= before + ", "@ + v[i as int]);
        }
        i = i + 1;
    }
    assert(v.take(i as int) =~= v);
    out
}

fn render_window(fs: &Vec<String>, ns: &str) -> (r: String)
    ensures
        r@ == window_text(texts(fs@), ns@),
{
    let ghost v = texts(fs@);
    let mut out = String::new();
    let mut i: usize = 0;
    assert(v.take(0) =~= seq![]);
    while i < fs.len()
        invariant
            i <= fs.len(),
            v == texts(fs@),
            out@ == window_text(v.take(i as int), ns@),
        decreases fs.len() - i,
    {
        let ghost before = out@;
        assert(v.take(i + 1).drop_last() =~= v.take(i as int));
        if i > 0 {
            out.append("\n");
        }
        out.append("\t\twindow.");
        out.append(ns);
        out.append("_fns.");
        out.append(fs[i].as_str());
        out.append(" = ");
        out.append(fs[i].as_str());
        out.append(";");
        if i == 0 {
            assert(v.take(1) =~= seq![v[0]]);
            assert(out@ =~= window_line(v[0], ns@));
        } else {
            assert(out@ =~= before + "\n"@ + window_line(v[i as int], ns@));
        }
        i = i + 1;
    }
    assert(v.take(i as int) =~= v);
    out
}

/// The call of the setup function, where there is one.
pub open spec fn setup_text(setup: Option<Seq<char>>, ns: Seq<char>) -> Seq<char> {
    match setup {
        Some(f) => "\t\twindow."@ + ns + "_fns."@ + f + "();"@,
        None => ""@,
    }
}

fn render_setup(setup: &Option<String>, ns: &str) -> (r: String)
    ensures
        r@ == setup_text(
            match setup {
                Some(f) => Some(f@),
                None => None,
            },
            ns@,
        ),
{
    match setup {
        Some(f) => {
            let mut out = String::new();
            out.append("\t\twindow.");
            out.append(ns);
            out.append("_fns.");
            out.append(f.as_str());
            out.append("();");
            out
        },
        None => String::from_str(""),
    }
}


// ---- the script ----

/// The script for the registry `r`: the template with each of its named
/// points replaced, in this order, by the extension name, the name without
/// spaces, the menu registrations, the settings, the category colors, the
/// palette, the block registrations, the label part factories, the list of
/// functions to import, their bindings, the setup call and the package
/// name (with `-` written `_`).
pub open spec fn script_of(r: RegistryV, template: Seq<char>, package: Seq<char>) -> Result<Seq<char>, ErrV> {
    match r.info {
        None => Err(ErrV::MissingInfo),
        Some(name) => {
            let ns = replaced(name, " "@, ""@);
            match cat_keys(r.blocks) {
                None => Err(ErrV::Json),
                Some(keys) => match blocks_text(r.blocks, keys, ns, r.blocks.len()) {
                    None => Err(ErrV::Pattern),
                    Some(bt) => {
                        let c1 = replaced(template, "$EXTENSION_NAME"@, name);
                        let c2 = replaced(c1, "$NO_SPACE_EXTENSION_NAME"@, ns);
                        let c3 = replaced(c2, "$MENU"@, menu_lines(r.menu_items, ns));
                        let c4 = replaced(c3, "$SETTINGS"@, setting_lines(r.settings));
                        let c5 = replaced(c4, "$CATEGORIES"@, category_lines(r.categories));
                        let c6 = replaced(
                            c5,
                            "$PALETTE"@,
                            palette_text(r.blocks, keys, sorted_keys(keys)),
                        );
                        let c7 = replaced(c6, "$BLOCKS"@, bt);
                        let c8 = replaced(c7, "$LABELPARTS"@, label_part_lines(r.label_parts));
                        let c9 = replaced(c8, "$IMPORTS_LIST"@, imports_text(r.fn_names));
                        let c10 = replaced(c9, "$WINDOW_IMPORTS"@, window_text(r.fn_names, ns));
                        let c11 = replaced(c10, "$SETUP"@, setup_text(r.setup, ns));
                        Ok(replaced(c11, "$PACKAGE_NAME"@, replaced(package, "-"@, "_"@)))
                    },
                },
            }
        },
    }
}

/// Renders the script that registers the extension of `reg`, from the
/// template text and the name of the package that holds the
/// implementation functions.
pub fn render_script(reg: &Registry, template: &str, package: &str) -> (r: Result<String, BuildError>)
    ensures
        match r {
            Ok(t) => script_of(reg@, template@, package@) == Ok::<Seq<char>, ErrV>(t@),
            Err(e) => script_of(reg@, template@, package@) == Err::<Seq<char>, ErrV>(e@),
        },
{
    let name = match &reg.info {
        Some(i) => i.name.as_str(),
        None => return Err(BuildError::MissingExtensionInfo),
    };
    let ns = replace_all(name, " ", "");
    let keys = match category_keys(&reg.blocks) {
        Ok(k) => k,
        Err(e) => return Err(e),
    };
    proof {
        lemma_cat_keys_len(blocks_view(reg.blocks@));
    }
    assert(blocks_view(reg.blocks@) == reg@.blocks);
    let blocks = match render_blocks(&reg.blocks, &keys, ns.as_str()) {
        Ok(b) => b,
        Err(e) => return Err(e),
    };
    let sorted = sort_keys(&keys);
    let c = replace_all(template, "$EXTENSION_NAME", name);
    let c = replace_all(c.as_str(), "$NO_SPACE_EXTENSION_NAME", ns.as_str());
    let c = replace_all(c.as_str(), "$MENU", render_menu_items(&reg.menu_items, ns.as_str()).as_str());
    let c = replace_all(c.as_str(), "$SETTINGS", render_settings(&reg.settings).as_str());
    let c = replace_all(c.as_str(), "$CATEGORIES", render_categories(&reg.categories).as_str());
    let c = replace_all(c.as_str(), "$PALETTE", render_palette(&reg.blocks, &keys, &sorted).as_str());
    let c = replace_all(c.as_str(), "$BLOCKS", blocks.as_str());
    let c = replace_all(c.as_str(), "$LABELPARTS", render_label_parts(&reg.label_parts).as_str());
    let c = replace_all(c.as_str(), "$IMPORTS_LIST", render_imports(&reg.fn_names).as_str());
    let c = replace_all(c.as_str(), "$WINDOW_IMPORTS", render_window(&reg.fn_names, ns.as_str()).as_str());
    let c = replace_all(c.as_str(), "$SETUP", render_setup(&reg.setup, ns.as_str()).as_str());
    let pkg = replace_all(package, "-", "_");
    let c = replace_all(c.as_str(), "$PACKAGE_NAME", pkg.as_str());
    Ok(c)
}

proof fn lemma_cat_keys_len(bs: Seq<BlockV>)
    ensures
        cat_keys(bs) matches Some(k) ==> k.len() == bs.len(),
    decreases bs.len(),
{
    if bs.len() > 0 {
        lemma_cat_keys_len(bs.drop_last());
    }
}


proof fn lemma_insert_sorted_contains(s: Seq<Seq<char>>, x: Seq<char>, y: Seq<char>)
    ensures
        insert_sorted(s, x).contains(y) <==> (s.contains(y) || y == x),
    decreases s.len(),
{
    if s.len() == 0 {
        assert(insert_sorted(s, x) =~= seq![x]);
        assert(insert_sorted(s, x)[0] == x);
    } else if s[0] == x {
        assert(s[0] == x);
    } else if text_lt_spec(x, s[0]) {
        assert(insert_sorted(s, x) =~= seq![x] + s);
        if s.contains(y) {
            let k = choose|k: int| 0 <= k < s.len() && s[k] == y;
            assert(insert_sorted(s, x)[k + 1] == y);
        }
        if insert_sorted(s, x).contains(y) {
            let k = choose|k: int| 0 <= k < insert_sorted(s, x).len() && insert_sorted(s, x)[k] == y;
            if k > 0 {
                assert(s[k - 1] == y);
            }
        }
        assert(insert_sorted(s, x)[0] == x);
    } else {
        lemma_insert_sorted_contains(s.drop_first(), x, y);
        let r = insert_sorted(s, x);
        assert(r =~= seq![s[0]] + insert_sorted(s.drop_first(), x));
        if s.contains(y) {
            let k = choose|k: int| 0 <= k < s.len() && s[k] == y;
            if k > 0 {
                assert(s.drop_first()[k - 1] == y);
            } else {
                assert(r[0] == y);
            }
        }
        if insert_sorted(s.drop_first(), x).contains(y) {
            let k = choose|k: int| 0 <= k < insert_sorted(s.drop_first(), x).len() && insert_sorted(s.drop_first(), x)[k] == y;
            assert(r[k + 1] == y);
        }
        if r.contains(y) {
            let k = choose|k: int| 0 <= k < r.len() && r[k] == y;
            if k > 0 {
                assert(insert_sorted(s.drop_first(), x)[k - 1] == y);
            }
            if s.drop_first().contains(y) {
                let j = choose|j: int| 0 <= j < s.drop_first().len() && s.drop_first()[j] == y;
                assert(s[j + 1] == y);
            }
        }
    }
}

proof fn lemma_sorted_keys_contains(keys: Seq<Seq<char>>, i: int)
    requires
        0 <= i < keys.len(),
    ensures
        sorted_keys(keys).contains(keys[i]),
    decreases keys.len(),
{
    lemma_insert_sorted_contains(sorted_keys(keys.drop_last()), keys.last(), keys[i]);
    if i < keys.len() - 1 {
        lemma_sorted_keys_contains(keys.drop_last(), i);
    }
}

/// Grouping by category and surface is exhaustive and surface-correct: the
/// category of every block is one of the palette's categories, and under
/// it the block is listed on both surfaces where its target is `Both`, and
/// on exactly the one surface that its target names otherwise.
pub proof fn lemma_palette_grouping(bs: Seq<BlockV>, keys: Seq<Seq<char>>, i: int)
    requires
        cat_keys(bs) == Some(keys),
        0 <= i < bs.len(),
    ensures
        sorted_keys(keys).contains(keys[i]),
        bs[i].target == TargetObject::Both ==> listed(bs, keys, keys[i], true, i) && listed(
            bs,
            keys,
            keys[i],
            false,
            i,
        ),
        bs[i].target == TargetObject::SpriteMorph ==> listed(bs, keys, keys[i], true, i) && !listed(
            bs,
            keys,
            keys[i],
            false,
            i,
        ),
        bs[i].target == TargetObject::StageMorph ==> !listed(bs, keys, keys[i], true, i) && listed(
            bs,
            keys,
            keys[i],
            false,
            i,
        ),
{
    lemma_cat_keys_len(bs);
    lemma_sorted_keys_contains(keys, i);
}


/// Whether `x` occurs in `y` as a contiguous piece.
pub open spec fn appears(x: Seq<char>, y: Seq<char>) -> bool {
    exists|a: Seq<char>, b: Seq<char>| #[trigger] (a + x + b) == y
}

proof fn lemma_appears_prefix(x: Seq<char>, y: Seq<char>, z: Seq<char>)
    requires
        appears(x, y),
    ensures
        appears(x, y + z),
{
    let (a, b) = choose|a: Seq<char>, b: Seq<char>| #[trigger] (a + x + b) == y;
    assert(a + x + (b + z) =~= y + z);
}

proof fn lemma_appears_suffix(x: Seq<char>, y: Seq<char>, z: Seq<char>)
    requires
        appears(x, y),
    ensures
        appears(x, z + y),
{
    let (a, b) = choose|a: Seq<char>, b: Seq<char>| #[trigger] (a + x + b) == y;
    assert((z + a) + x + b =~= z + y);
}

proof fn lemma_entry_appears(bs: Seq<BlockV>, keys: Seq<Seq<char>>, k: Seq<char>, sprite: bool, i: int, n: nat)
    requires
        0 <= i < n <= bs.len(),
        listed(bs, keys, k, sprite, i),
    ensures
        appears(palette_entry(bs[i].name), palette_entries(bs, keys, k, sprite, n)),
    decreases n,
{
    let prev = palette_entries(bs, keys, k, sprite, (n - 1) as nat);
    if i == n - 1 {
        assert(prev + palette_entry(bs[i].name) + Seq::<char>::empty() =~= palette_entries(
            bs,
            keys,
            k,
            sprite,
            n,
        ));
    } else {
        lemma_entry_appears(bs, keys, k, sprite, i, (n - 1) as nat);
        lemma_appears_prefix(
            palette_entry(bs[i].name),
            prev,
            if listed(bs, keys, k, sprite, n - 1) {
                palette_entry(bs[n - 1].name)
            } else {
                seq![]
            },
        );
    }
}

proof fn lemma_partition_appears(bs: Seq<BlockV>, keys: Seq<Seq<char>>, sk: Seq<Seq<char>>, j: int, sprite: bool)
    requires
        0 <= j < sk.len(),
    ensures
        appears(partition_text(bs, keys, sk[j], sprite), palette_text(bs, keys, sk)),
    decreases sk.len(),
{
    let prev = palette_text(bs, keys, sk.drop_last());
    let pa = partition_text(bs, keys, sk.last(), true);
    let pb = partition_text(bs, keys, sk.last(), false);
    if j == sk.len() - 1 {
        if sprite {
            assert(prev + pa + pb =~= palette_text(bs, keys, sk));
        } else {
            assert((prev + pa) + pb + Seq::<char>::empty() =~= palette_text(bs, keys, sk));
        }
    } else {
        lemma_partition_appears(bs, keys, sk.drop_last(), j, sprite);
        assert(sk.drop_last()[j] == sk[j]);
        lemma_appears_prefix(partition_text(bs, keys, sk[j], sprite), prev, pa + pb);
        assert(prev + (pa + pb) =~= palette_text(bs, keys, sk));
    }
}

/// In the palette text, the partition of each block's category on each
/// surface that its target names (both for `Both`) is written, and lists
/// the block.
pub proof fn lemma_palette_lists_block(bs: Seq<BlockV>, keys: Seq<Seq<char>>, i: int, sprite: bool)
    requires
        cat_keys(bs) == Some(keys),
        0 <= i < bs.len(),
        on_surface(bs[i].target, sprite),
    ensures
        appears(partition_text(bs, keys, keys[i], sprite), palette_text(bs, keys, sorted_keys(keys))),
        appears(palette_entry(bs[i].name), partition_text(bs, keys, keys[i], sprite)),
{
    lemma_cat_keys_len(bs);
    lemma_sorted_keys_contains(keys, i);
    let sk = sorted_keys(keys);
    let j = choose|j: int| 0 <= j < sk.len() && sk[j] == keys[i];
    lemma_partition_appears(bs, keys, sk, j, sprite);
    lemma_entry_appears(bs, keys, keys[i], sprite, i, bs.len());
    let head = "\t\t\t\tnew Extension.PaletteCategory(\n"@ + "\t\t\t\t\t'"@ + keys[i] + "',\n"@
        + "\t\t\t\t\t[\n"@;
    let e = palette_entries(bs, keys, keys[i], sprite, bs.len());
    let tail = "\t\t\t\t\t],\n"@ + surface_name(sprite) + "\t\t\t\t),\n"@;
    lemma_appears_suffix(palette_entry(bs[i].name), e, head);
    lemma_appears_prefix(palette_entry(bs[i].name), head + e, tail);
    assert(head + e + tail =~= partition_text(bs, keys, keys[i], sprite));
}

} // verus!
