//! Descriptor compiler for NetsBlox extensions.
//!
//! Reads a Rust module that carries annotated declarations (extension info,
//! categories, settings, blocks, label parts, menu items and a setup
//! function), rebuilds a typed model of the extension, checks it, and renders
//! the script that registers the extension with NetsBlox.
pub mod descriptor;
pub mod emit;
pub mod error;
pub mod literal;
pub mod menu;
pub mod model;
pub mod pipeline;
pub mod registry;
pub mod scan;
pub mod subst;
pub mod text;
pub mod tokens;

pub use error::{BuildError, Descriptor};
pub use menu::format_menu;
pub use model::{
    BlockType, CustomBlock, CustomCategory, ExtensionInfo, ExtensionSetting, LabelPart, Menu,
    MenuItem, ReturnShape, TargetObject,
};
pub use pipeline::{build, build_tokens};
pub use registry::{Registry, Warning, collect, placeholders};
pub use tokens::{Delim, Tok, tokenize};
