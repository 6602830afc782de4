use netsblox_extension_util::{build, BuildError, Descriptor, Registry, Warning};
use netsblox_extension_util::registry::collect;
use netsblox_extension_util::tokens::tokenize;
use netsblox_extension_util::model::{BlockType, TargetObject};

const TEMPLATE: &str = "NAME=$EXTENSION_NAME|NS=$NO_SPACE_EXTENSION_NAME|MENU=$MENU|SET=$SETTINGS|CAT=$CATEGORIES|PAL=$PALETTE|BLK=$BLOCKS|LP=$LABELPARTS|IMP=$IMPORTS_LIST|WIN=$WINDOW_IMPORTS|SETUP=$SETUP|PKG=$PACKAGE_NAME";

fn builtins() -> Vec<String> {
    vec!["s".to_string(), "n".to_string(), "b".to_string()]
}

fn registry(src: &str) -> Result<Registry, BuildError> {
    let toks = tokenize(src).expect("source lexes");
    collect(&toks, &builtins())
}

fn script(src: &str) -> Result<String, BuildError> {
    build(src, &builtins(), TEMPLATE, "my-ext")
}

const DEMO: &str = r#"
use netsblox_extension_macro::*;

#[netsblox_extension_info]
const INFO: ExtensionInfo = ExtensionInfo { name: "Demo" };

#[wasm_bindgen]
#[netsblox_extension_block(name = "logHi", category = "control", spec = "Log Hi")]
pub fn log_hi() {
    console::log_1(&"Hi".into());
}
"#;

#[test]
fn scenario_command_without_parameters() {
    let reg = registry(DEMO).unwrap();
    assert_eq!(reg.blocks.len(), 1);
    assert_eq!(reg.blocks[0].name, "logHi");
    assert_eq!(reg.blocks[0].block_type, BlockType::Command);
    assert_eq!(reg.blocks[0].impl_fn, "log_hi");
    assert_eq!(reg.blocks[0].target, TargetObject::Both);
    assert!(!reg.blocks[0].pass_proc);
    assert_eq!(reg.blocks[0].defaults, "[]");
    let out = script(DEMO).unwrap();
    let expected_block = "\t\t\t\tnew Extension.Block(\n\t\t\t\t\t'logHi',\n\t\t\t\t\t'command',\n\t\t\t\t\t'control',\n\t\t\t\t\t'Log Hi',\n\t\t\t\t\t[],\n\t\t\t\t\tfunction () { return window.Demo_fns.log_hi(); }\n\t\t\t\t).for(SpriteMorph, StageMorph),\n";
    assert!(out.contains(&format!("BLK={expected_block}|")));
    assert!(out.starts_with("NAME=Demo|NS=Demo|MENU=|SET=|CAT=|"));
    assert!(out.ends_with("|IMP=log_hi|WIN=\t\twindow.Demo_fns.log_hi = log_hi;|SETUP=|PKG=my_ext"));
}

#[test]
fn scenario_two_positional_parameters() {
    let src = r#"
#[netsblox_extension_info]
const INFO: ExtensionInfo = ExtensionInfo { name: "Two Words" };

#[netsblox_extension_label_part]
const TEXT: LabelPart = LabelPart { spec: "text", text: None, numeric: false, menu: None, readonly: false };

#[netsblox_extension_block(name = "repeatString", category = "operators", spec = "Repeat %text for %times times")]
pub fn repeat_text(text: &str, times: f64) -> String { text.repeat(times as usize) }

#[netsblox_extension_label_part]
const TIMES: LabelPart = LabelPart { spec: "times", text: Some("3"), numeric: true, menu: None, readonly: false };
"#;
    let out = script(src).unwrap();
    assert!(out.contains("NS=TwoWords|"));
    assert!(out.contains("\t\t\t\t\t'reporter',\n"));
    assert!(out.contains("function (v0, v1) { return window.TwoWords_fns.repeat_text(v0, v1); }\n"));
    let lp_times = "\t\t\t\tnew Extension.LabelPart(\n\t\t\t\t\t'times',\n\t\t\t\t\t() => {\n\t\t\t\t\t\tconst part = new InputSlotMorph(\n\t\t\t\t\t\t\t\"3\", // text\n\t\t\t\t\t\t\ttrue, // numeric\n\t\t\t\t\t\t\tnull, // options\n\t\t\t\t\t\t\tfalse // readonly\n\t\t\t\t\t\t);\n\t\t\t\t\t\treturn part;\n\t\t\t\t\t}\n\t\t\t\t),\n";
    assert!(out.contains(lp_times));
    let lp_text_pos = out.find("'text',\n\t\t\t\t\t() =>").unwrap();
    let lp_times_pos = out.find("'times',\n\t\t\t\t\t() =>").unwrap();
    assert!(lp_text_pos < lp_times_pos);
}

#[test]
fn scenario_unknown_slot_token() {
    let src = r#"
#[netsblox_extension_info]
const INFO: ExtensionInfo = ExtensionInfo { name: "Demo" };

#[netsblox_extension_block(name = "mysteryBlock", category = "control", spec = "do %mystery")]
pub fn mystery(x: f64) {}
"#;
    match script(src) {
        Err(BuildError::UnknownSlotToken { block, token }) => {
            assert_eq!(block, "mysteryBlock");
            assert_eq!(token, "mystery");
        }
        other => panic!("unexpected result: {other:?}"),
    }
}

#[test]
fn builtin_and_variadic_tokens_are_known() {
    let src = r#"
#[netsblox_extension_info]
const INFO: ExtensionInfo = ExtensionInfo { name: "Demo" };

#[netsblox_extension_block(name = "addAll", category = "operators", spec = "add numbers %mult%n and %s")]
pub fn add_all(vals: Vec<JsValue>, s: &str) -> f64 { 0.0 }
"#;
    let out = script(src).unwrap();
    assert!(out.contains("function (v0, v1) { return window.Demo_fns.add_all(v0, v1); }"));
}

#[test]
fn second_setup_is_refused() {
    let src = r#"
#[netsblox_extension_info]
const INFO: ExtensionInfo = ExtensionInfo { name: "Demo" };

#[netsblox_extension_setup]
fn first_setup() {}

#[netsblox_extension_setup]
fn second_setup() {}
"#;
    match script(src) {
        Err(BuildError::DuplicateSetupDeclaration { first, second }) => {
            assert_eq!(first, "first_setup");
            assert_eq!(second, "second_setup");
        }
        other => panic!("unexpected result: {other:?}"),
    }
}

#[test]
fn single_setup_is_called_and_imported() {
    let src = r#"
#[netsblox_extension_info]
const INFO: ExtensionInfo = ExtensionInfo { name: "Demo" };

#[netsblox_extension_setup]
pub fn init() {}

#[netsblox_extension_menu_item("Print Name")]
pub fn print_name() {}
"#;
    let out = script(src).unwrap();
    assert!(out.contains("|SETUP=\t\twindow.Demo_fns.init();|"));
    assert!(out.contains("|IMP=init, print_name|"));
    assert!(out.contains("|WIN=\t\twindow.Demo_fns.init = init;\n\t\twindow.Demo_fns.print_name = print_name;|"));
    assert!(out.contains("|MENU=\t\t\t\t'Print Name': window.Demo_fns.print_name,\n|"));
}

#[test]
fn missing_extension_info_is_fatal() {
    let src = r#"
#[netsblox_extension_block(name = "x", category = "control", spec = "x")]
pub fn x() {}
"#;
    assert!(matches!(script(src), Err(BuildError::MissingExtensionInfo)));
}

#[test]
fn source_that_does_not_lex_is_refused() {
    assert!(matches!(script("fn broken( {"), Err(BuildError::Lex)));
}

#[test]
fn block_types_follow_the_result_shape() {
    let src = r#"
#[netsblox_extension_info]
const INFO: ExtensionInfo = ExtensionInfo { name: "Demo" };

#[netsblox_extension_block(name = "a", category = "c", spec = "a")]
pub fn a() -> () {}
#[netsblox_extension_block(name = "b", category = "c", spec = "b")]
pub fn b() -> bool { true }
#[netsblox_extension_block(name = "c", category = "c", spec = "c")]
pub fn c() -> Result<(), f64> { Ok(()) }
#[netsblox_extension_block(name = "d", category = "c", spec = "d")]
pub fn d() -> Result<bool, f64> { Ok(true) }
#[netsblox_extension_block(name = "e", category = "c", spec = "e")]
pub fn e() -> Result<f64, f64> { Ok(1.0) }
#[netsblox_extension_block(name = "f", category = "c", spec = "f")]
pub fn f() -> f64 { 1.0 }
#[netsblox_extension_block(name = "g", category = "c", spec = "g", type_override = netsblox_extension_util::BlockType::Hat)]
pub fn g() {}
#[netsblox_extension_block(name = "h", category = "c", spec = "h", block_type = BlockType::Terminator, pass_proc = true)]
pub fn h() -> bool { panic!() }
"#;
    let reg = registry(src).unwrap();
    let types: Vec<BlockType> = reg.blocks.iter().map(|b| b.block_type).collect();
    assert_eq!(
        types,
        vec![
            BlockType::Command,
            BlockType::Predicate,
            BlockType::Command,
            BlockType::Predicate,
            BlockType::Reporter,
            BlockType::Reporter,
            BlockType::Hat,
            BlockType::Terminator,
        ]
    );
    let out = script(src).unwrap();
    assert!(out.contains("\t\t\t\t\t'hat',\n"));
    assert!(out.contains("function () { return window.Demo_fns.h(this, ); }\n\t\t\t\t).terminal().for(SpriteMorph, StageMorph),\n"));
}

#[test]
fn palette_groups_by_category_and_surface() {
    let src = r#"
#[netsblox_extension_info]
const INFO: ExtensionInfo = ExtensionInfo { name: "Demo" };

#[netsblox_extension_block(name = "both", category = "zeta", spec = "both")]
pub fn both() {}
#[netsblox_extension_block(name = "sprite", category = "alpha", spec = "sprite", target = TargetObject::SpriteMorph)]
pub fn sprite() {}
#[netsblox_extension_block(name = "stage", category = "alpha", spec = "stage", target = netsblox_extension_util::TargetObject::StageMorph)]
pub fn stage() {}
"#;
    let out = script(src).unwrap();
    let pal = "PAL=\
\t\t\t\tnew Extension.PaletteCategory(\n\t\t\t\t\t'alpha',\n\t\t\t\t\t[\n\t\t\t\t\t\tnew Extension.Palette.Block('sprite'),\n\t\t\t\t\t],\n\t\t\t\t\tSpriteMorph\n\t\t\t\t),\n\
\t\t\t\tnew Extension.PaletteCategory(\n\t\t\t\t\t'alpha',\n\t\t\t\t\t[\n\t\t\t\t\t\tnew Extension.Palette.Block('stage'),\n\t\t\t\t\t],\n\t\t\t\t\tStageMorph\n\t\t\t\t),\n\
\t\t\t\tnew Extension.PaletteCategory(\n\t\t\t\t\t'zeta',\n\t\t\t\t\t[\n\t\t\t\t\t\tnew Extension.Palette.Block('both'),\n\t\t\t\t\t],\n\t\t\t\t\tSpriteMorph\n\t\t\t\t),\n\
\t\t\t\tnew Extension.PaletteCategory(\n\t\t\t\t\t'zeta',\n\t\t\t\t\t[\n\t\t\t\t\t\tnew Extension.Palette.Block('both'),\n\t\t\t\t\t],\n\t\t\t\t\tStageMorph\n\t\t\t\t),\n|";
    assert!(out.contains(pal));
}

#[test]
fn building_twice_gives_the_same_bytes() {
    let first = script(DEMO).unwrap();
    let second = script(DEMO).unwrap();
    assert_eq!(first, second);
}

#[test]
fn empty_block_name_is_dropped_with_a_warning() {
    let src = r#"
#[netsblox_extension_info]
const INFO: ExtensionInfo = ExtensionInfo { name: "Demo" };

#[netsblox_extension_block(name = "", category = "c", spec = "%nothing here")]
pub fn nameless() {}
"#;
    let reg = registry(src).unwrap();
    assert!(reg.blocks.is_empty());
    assert_eq!(reg.warnings.len(), 1);
    match &reg.warnings[0] {
        Warning::EmptyBlockName { fn_name } => assert_eq!(fn_name, "nameless"),
        other => panic!("unexpected warning: {other:?}"),
    }
}

#[test]
fn unknown_fields_are_ignored() {
    let src = r#"
#[netsblox_extension_info]
const INFO: ExtensionInfo = ExtensionInfo { name: "Demo", version: "2" };

#[netsblox_extension_block(name = "x", category = "c", spec = "x", pad_top = true)]
pub fn x() {}
"#;
    let reg = registry(src).unwrap();
    assert_eq!(reg.blocks.len(), 1);
    assert_eq!(reg.warnings.len(), 2);
    match &reg.warnings[0] {
        Warning::UnknownField { descriptor, field } => {
            assert_eq!(*descriptor, Descriptor::ExtensionInfo);
            assert_eq!(field, "version");
        }
        other => panic!("unexpected warning: {other:?}"),
    }
    match &reg.warnings[1] {
        Warning::UnknownField { descriptor, field } => {
            assert_eq!(*descriptor, Descriptor::Block);
            assert_eq!(field, "pad_top");
        }
        other => panic!("unexpected warning: {other:?}"),
    }
    assert_eq!(reg.info.unwrap().name, "Demo");
}

#[test]
fn malformed_color_is_fatal() {
    let src = r#"
#[netsblox_extension_info]
const INFO: ExtensionInfo = ExtensionInfo { name: "Demo" };

#[netsblox_extension_category]
const CAT: CustomCategory = CustomCategory { name: "Hello", color: (100, 149.0, 237.0) };
"#;
    match script(src) {
        Err(BuildError::MalformedLiteral { descriptor, field, expr }) => {
            assert_eq!(descriptor, Descriptor::Category);
            assert_eq!(field, "color");
            assert_eq!(expr, "(100, 149.0, 237.0)");
        }
        other => panic!("unexpected result: {other:?}"),
    }
}

#[test]
fn missing_required_field_is_fatal() {
    let src = r#"
#[netsblox_extension_info]
const INFO: ExtensionInfo = ExtensionInfo { name: "Demo" };

#[netsblox_extension_label_part]
const LP: LabelPart = LabelPart { text: None, numeric: true, menu: None, readonly: false };
"#;
    match script(src) {
        Err(BuildError::MissingRequiredField { descriptor, field }) => {
            assert_eq!(descriptor, Descriptor::LabelPart);
            assert_eq!(field, "spec");
        }
        other => panic!("unexpected result: {other:?}"),
    }
}

#[test]
fn builtin_list_reads_one_word_per_line() {
    let words = netsblox_extension_util::text::word_list("s\n  n \r\n\n\tb\n\u{3000}last\u{a0}");
    assert_eq!(words, vec!["s", "n", "b", "last"]);
    assert!(netsblox_extension_util::text::word_list("").is_empty());
}

#[test]
fn categories_and_settings_are_registered() {
    let src = r#"
#[netsblox_extension_category]
const HELLO_WORLD_CATEGORY: CustomCategory = CustomCategory {
    name: "Hello World",
    color: (100.0, 149.5, 2_37.0f64),
};

#[netsblox_extension_info]
const INFO: ExtensionInfo = ExtensionInfo {
    name: "Example Extension"
};

#[netsblox_extension_setting]
const CAPS_SETTING: ExtensionSetting = ExtensionSetting {
    name: "All Caps output from Menu Item",
    id: "exampleextensionallcaps",
    default_value: false,
    on_hint: "Capitalize output",
    off_hint: "Do not capitalize output",
    hidden: false,
};
"#;
    let reg = registry(src).unwrap();
    assert_eq!(reg.categories[0].color, ("100.0".to_string(), "149.5".to_string(), "237.0".to_string()));
    let out = script(src).unwrap();
    assert!(out.contains("|CAT=\t\t\t\tnew Extension.Category('Hello World', new Color(100.0, 149.5, 237.0)),\n|"));
    assert!(out.contains("|SET=\t\t\t\tExtension.ExtensionSetting.createFromLocalStorage('All Caps output from Menu Item', 'exampleextensionallcaps', false, 'Capitalize output', 'Do not capitalize output', false),\n|"));
    assert!(out.contains("NS=ExampleExtension|"));
}

#[test]
fn category_names_are_json_escaped_in_blocks() {
    let src = r#"
#[netsblox_extension_info]
const INFO: ExtensionInfo = ExtensionInfo { name: "Demo" };

#[netsblox_extension_block(name = "q", category = "say \"hi\"", spec = "q")]
pub fn q() {}
"#;
    let out = script(src).unwrap();
    assert!(out.contains("\t\t\t\t\t'say \\\"hi\\\"',\n"));
}

#[test]
fn many_placeholders_number_their_parameters() {
    let src = r#"
#[netsblox_extension_info]
const INFO: ExtensionInfo = ExtensionInfo { name: "Demo" };

#[netsblox_extension_block(name = "many", category = "c", spec = "%n %n %n %n %n %n %n %n %n %n %n %n")]
pub fn many() -> f64 { 0.0 }
"#;
    let out = script(src).unwrap();
    assert!(out.contains("function (v0, v1, v2, v3, v4, v5, v6, v7, v8, v9, v10, v11) { return window.Demo_fns.many(v0, v1, v2, v3, v4, v5, v6, v7, v8, v9, v10, v11); }"));
}

#[test]
fn items_around_descriptors_are_skipped() {
    let src = r#"
#![allow(dead_code)]

use std::{collections::HashMap, fmt};

/// The extension's metadata.
#[netsblox_extension_info]
pub(crate) const INFO: ExtensionInfo = ExtensionInfo { name: "Skip Test" };

struct Helper { map: HashMap<String, u8> }

impl Helper {
    #[netsblox_extension_block(name = "insideImpl", category = "c", spec = "never")]
    fn method(&self) {}
}

macro_rules! twice { ($e:expr) => { $e; $e } }

static COUNT: u8 = 3;

const fn helper_const() -> u8 { 1 }

/// Adds one.
#[wasm_bindgen]
#[netsblox_extension_block(name = "addOne", category = "operators", spec = "add one to %n")]
pub async fn add_one<T: Into<f64>>(x: T) -> Result<bool, String> where T: Copy { Ok(true) }

#[netsblox_extension_block(name = "last", category = "operators", spec = "last")]
pub unsafe extern "C" fn last() -> u8 { 0 }
"#;
    let reg = registry(src).unwrap();
    let names: Vec<&str> = reg.blocks.iter().map(|b| b.name.as_str()).collect();
    assert_eq!(names, vec!["addOne", "last"]);
    assert_eq!(reg.blocks[0].block_type, BlockType::Predicate);
    assert_eq!(reg.blocks[0].impl_fn, "add_one");
    assert_eq!(reg.blocks[1].block_type, BlockType::Reporter);
    assert_eq!(reg.info.unwrap().name, "Skip Test");
    assert_eq!(reg.fn_names, vec!["add_one", "last"]);
}

#[test]
fn malformed_menu_node_names_its_text() {
    let src = r#"
#[netsblox_extension_info]
const INFO: ExtensionInfo = ExtensionInfo { name: "Demo" };

#[netsblox_extension_label_part]
const LP: LabelPart = LabelPart {
    spec: "picky",
    text: None,
    numeric: false,
    menu: Some(&[Other::Entry { label: "a", value: "b" }]),
    readonly: true,
};
"#;
    match script(src) {
        Err(BuildError::MalformedLiteral { descriptor, field, expr }) => {
            assert_eq!(descriptor, Descriptor::Menu);
            assert_eq!(field, "");
            assert_eq!(expr, "Other::Entry { label: \"a\", value: \"b\" }");
        }
        other => panic!("unexpected result: {other:?}"),
    }
}

#[test]
fn unknown_menu_field_warns() {
    let src = r#"
#[netsblox_extension_info]
const INFO: ExtensionInfo = ExtensionInfo { name: "Demo" };

#[netsblox_extension_label_part]
const LP: LabelPart = LabelPart {
    spec: "picky",
    text: None,
    numeric: false,
    menu: Some(&[
        Menu::Entry { label: "a", value: "b", icon: "x" },
        Menu::Submenu { label: "s", content: &[Menu::Entry { label: "c", value: "d", colour: "red" }] },
    ]),
    readonly: true,
};
"#;
    let reg = registry(src).unwrap();
    let fields: Vec<(Descriptor, String)> = reg
        .warnings
        .iter()
        .map(|w| match w {
            Warning::UnknownField { descriptor, field } => (*descriptor, field.clone()),
            other => panic!("unexpected warning: {other:?}"),
        })
        .collect();
    assert_eq!(fields, vec![(Descriptor::Menu, "icon".to_string()), (Descriptor::Menu, "colour".to_string())]);
    assert!(script(src).unwrap().contains(r#"{"a": "b","s": {"c": "d",},}"#));
}

#[test]
fn generic_parameters_do_not_hide_the_result_type() {
    let src = r#"
#[netsblox_extension_info]
const INFO: ExtensionInfo = ExtensionInfo { name: "Demo" };

#[netsblox_extension_block(name = "gen", category = "c", spec = "gen")]
pub fn gen<T: Fn(u8) -> u8, U: Into<Vec<Vec<u8>>>>(t: T, u: U) -> bool { true }
"#;
    let reg = registry(src).unwrap();
    assert_eq!(reg.blocks[0].block_type, BlockType::Predicate);
}

#[test]
fn malformed_block_argument_names_its_text() {
    let src = r#"
#[netsblox_extension_info]
const INFO: ExtensionInfo = ExtensionInfo { name: "Demo" };

#[netsblox_extension_block(name = "x", category = "c", spec = "x", target = Place::Nowhere)]
pub fn x() {}
"#;
    match script(src) {
        Err(BuildError::MalformedLiteral { descriptor, field, expr }) => {
            assert_eq!(descriptor, Descriptor::Block);
            assert_eq!(field, "target");
            assert_eq!(expr, "Place::Nowhere");
        }
        other => panic!("unexpected result: {other:?}"),
    }
}
