//! The typed model of an extension.
use vstd::prelude::*;

verus! {

/// The extension's metadata.
#[derive(Debug)]
pub struct ExtensionInfo {
    pub name: String,
}

/// Which palette surfaces a block is offered on.
#[derive(PartialEq, Eq, Structural, Clone, Copy, Debug)]
pub enum TargetObject {
    SpriteMorph,
    StageMorph,
    Both,
}

/// The shape of a block.
#[derive(PartialEq, Eq, Structural, Clone, Copy, Debug)]
pub enum BlockType {
    Command,
    Terminator,
    Reporter,
    Predicate,
    Hat,
}

/// The result shape of a block's implementation function.
#[derive(PartialEq, Eq, Structural, Clone, Copy, Debug)]
pub enum ReturnShape {
    /// No result, or the empty tuple.
    Unit,
    /// `bool`.
    Bool,
    /// `Result<(), _>`.
    FallibleUnit,
    /// `Result<bool, _>`.
    FallibleBool,
    /// Anything else.
    Other,
}

pub open spec fn inferred_type(shape: ReturnShape) -> BlockType {
    match shape {
        ReturnShape::Unit => BlockType::Command,
        ReturnShape::Bool => BlockType::Predicate,
        ReturnShape::FallibleUnit => BlockType::Command,
        ReturnShape::FallibleBool => BlockType::Predicate,
        ReturnShape::Other => BlockType::Reporter,
    }
}

pub open spec fn host_name_of(t: BlockType) -> Seq<char> {
    match t {
        BlockType::Command => "command"@,
        BlockType::Terminator => "command"@,
        BlockType::Reporter => "reporter"@,
        BlockType::Predicate => "predicate"@,
        BlockType::Hat => "hat"@,
    }
}

impl BlockType {
    /// The block type that a result shape implies where none is given.
    pub fn infer(shape: ReturnShape) -> (r: BlockType)
        ensures
            r == inferred_type(shape),
    {
        match shape {
            ReturnShape::Unit => BlockType::Command,
            ReturnShape::Bool => BlockType::Predicate,
            ReturnShape::FallibleUnit => BlockType::Command,
            ReturnShape::FallibleBool => BlockType::Predicate,
            ReturnShape::Other => BlockType::Reporter,
        }
    }

    /// The block type: the explicit one where given, else the inferred one.
    pub fn resolve(explicit: Option<BlockType>, shape: ReturnShape) -> (r: BlockType)
        ensures
            r == match explicit {
                Some(t) => t,
                None => inferred_type(shape),
            },
    {
        match explicit {
            Some(t) => t,
            None => BlockType::infer(shape),
        }
    }

    /// The name of the block shape in the host: a terminator is a command.
    pub fn host_name(&self) -> (r: &'static str)
        ensures
            r@ == host_name_of(*self),
    {
        match self {
            BlockType::Command => "command",
            BlockType::Terminator => "command",
            BlockType::Reporter => "reporter",
            BlockType::Predicate => "predicate",
            BlockType::Hat => "hat",
        }
    }
}

/// A block: one operation that the extension adds to the palette.
#[derive(Debug)]
pub struct CustomBlock {
    pub name: String,
    pub block_type: BlockType,
    pub category: String,
    pub spec: String,
    pub defaults: String,
    pub impl_fn: String,
    pub target: TargetObject,
    pub pass_proc: bool,
}

/// A node of an input slot's menu.
#[derive(Debug)]
pub enum Menu {
    Entry { label: String, value: String },
    Submenu { label: String, content: Vec<Menu> },
}

/// The mathematical form of a [`Menu`].
pub enum MenuV {
    Entry(Seq<char>, Seq<char>),
    Submenu(Seq<char>, Seq<MenuV>),
}

impl Menu {
    pub open spec fn view(self) -> MenuV
        decreases self,
    {
        match self {
            Menu::Entry { label, value } => MenuV::Entry(label@, value@),
            Menu::Submenu { label, content } => MenuV::Submenu(label@, menus_view(content@)),
        }
    }
}

pub open spec fn menus_view(s: Seq<Menu>) -> Seq<MenuV>
    decreases s,
{
    if s.len() == 0 {
        seq![]
    } else {
        menus_view(s.drop_last()).push(s.last().view())
    }
}

pub proof fn lemma_menus_view(s: Seq<Menu>)
    ensures
        menus_view(s).len() == s.len(),
        forall|i: int| 0 <= i < s.len() ==> #[trigger] menus_view(s)[i] == s[i].view(),
    decreases s.len(),
{
    if s.len() > 0 {
        lemma_menus_view(s.drop_last());
    }
}

/// The input slot that a `%token` of a block's spec stands for.
#[derive(Debug)]
pub struct LabelPart {
    pub spec: String,
    pub text: Option<String>,
    pub numeric: bool,
    pub menu: Option<Vec<Menu>>,
    pub readonly: bool,
}

/// A palette category with its color. Each color component holds the
/// base-10 digits of the number as written.
#[derive(Debug)]
pub struct CustomCategory {
    pub name: String,
    pub color: (String, String, String),
}

/// A persisted on/off preference of the extension.
#[derive(Debug)]
pub struct ExtensionSetting {
    pub name: String,
    pub id: String,
    pub default_value: bool,
    pub on_hint: String,
    pub off_hint: String,
    pub hidden: bool,
}

/// An entry of the extension's menu, bound to a function.
#[derive(Debug)]
pub struct MenuItem {
    pub label: String,
    pub fn_name: String,
}


/// The mathematical form of a [`CustomBlock`].
pub struct BlockV {
    pub name: Seq<char>,
    pub block_type: BlockType,
    pub category: Seq<char>,
    pub spec: Seq<char>,
    pub defaults: Seq<char>,
    pub impl_fn: Seq<char>,
    pub target: TargetObject,
    pub pass_proc: bool,
}

impl CustomBlock {
    pub open spec fn view(&self) -> BlockV {
        BlockV {
            name: self.name@,
            block_type: self.block_type,
            category: self.category@,
            spec: self.spec@,
            defaults: self.defaults@,
            impl_fn: self.impl_fn@,
            target: self.target,
            pass_proc: self.pass_proc,
        }
    }
}

/// The mathematical form of a [`LabelPart`].
pub struct LabelPartV {
    pub spec: Seq<char>,
    pub text: Option<Seq<char>>,
    pub numeric: bool,
    pub menu: Option<Seq<MenuV>>,
    pub readonly: bool,
}

impl LabelPart {
    pub open spec fn view(&self) -> LabelPartV {
        LabelPartV {
            spec: self.spec@,
            text: match self.text {
                Some(t) => Some(t@),
                None => None,
            },
            numeric: self.numeric,
            menu: match self.menu {
                Some(m) => Some(menus_view(m@)),
                None => None,
            },
            readonly: self.readonly,
        }
    }
}

/// The mathematical form of a [`CustomCategory`].
pub struct CategoryV {
    pub name: Seq<char>,
    pub color: (Seq<char>, Seq<char>, Seq<char>),
}

impl CustomCategory {
    pub open spec fn view(&self) -> CategoryV {
        CategoryV { name: self.name@, color: (self.color.0@, self.color.1@, self.color.2@) }
    }
}

/// The mathematical form of an [`ExtensionSetting`].
pub struct SettingV {
    pub name: Seq<char>,
    pub id: Seq<char>,
    pub default_value: bool,
    pub on_hint: Seq<char>,
    pub off_hint: Seq<char>,
    pub hidden: bool,
}

impl ExtensionSetting {
    pub open spec fn view(&self) -> SettingV {
        SettingV {
            name: self.name@,
            id: self.id@,
            default_value: self.default_value,
            on_hint: self.on_hint@,
            off_hint: self.off_hint@,
            hidden: self.hidden,
        }
    }
}

} // verus!
