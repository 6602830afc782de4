//! What can stop a build.
use vstd::prelude::*;

verus! {

/// The kind of declaration that a descriptor error concerns.
#[derive(PartialEq, Eq, Structural, Clone, Copy, Debug)]
pub enum Descriptor {
    ExtensionInfo,
    Category,
    Setting,
    Block,
    LabelPart,
    Menu,
    MenuItem,
}

/// A fatal condition: the build stops and writes nothing.
#[derive(Debug)]
pub enum BuildError {
    /// The source text does not lex as Rust.
    Lex,
    /// A value of a descriptor field does not have the expected shape; an
    /// empty field name stands for the descriptor as a whole. `expr` is the
    /// offending expression as text.
    MalformedLiteral { descriptor: Descriptor, field: String, expr: String },
    /// A required descriptor field is absent.
    MissingRequiredField { descriptor: Descriptor, field: String },
    /// A block's spec uses a `%token` that no label part declares.
    UnknownSlotToken { block: String, token: String },
    /// Two functions are marked as the setup function.
    DuplicateSetupDeclaration { first: String, second: String },
    /// No extension info is declared.
    MissingExtensionInfo,
    /// The placeholder pattern did not compile.
    Pattern,
    /// A name could not be written as a JSON string.
    Json,
}

/// The mathematical form of a [`BuildError`].
pub enum ErrV {
    Lex,
    Malformed(Descriptor, Seq<char>, Seq<char>),
    Missing(Descriptor, Seq<char>),
    UnknownSlot(Seq<char>, Seq<char>),
    DuplicateSetup(Seq<char>, Seq<char>),
    MissingInfo,
    Pattern,
    Json,
}

impl BuildError {
    pub open spec fn view(&self) -> ErrV {
        match self {
            BuildError::Lex => ErrV::Lex,
            BuildError::MalformedLiteral { descriptor, field, expr } => ErrV::Malformed(
                *descriptor,
                field@,
                expr@,
            ),
            BuildError::MissingRequiredField { descriptor, field } => ErrV::Missing(*descriptor, field@),
            BuildError::UnknownSlotToken { block, token } => ErrV::UnknownSlot(block@, token@),
            BuildError::DuplicateSetupDeclaration { first, second } => ErrV::DuplicateSetup(
                first@,
                second@,
            ),
            BuildError::MissingExtensionInfo => ErrV::MissingInfo,
            BuildError::Pattern => ErrV::Pattern,
            BuildError::Json => ErrV::Json,
        }
    }
}

pub(crate) fn malformed(descriptor: Descriptor, field: &str, expr: String) -> (e: BuildError)
    ensures
        e@ == ErrV::Malformed(descriptor, field@, expr@),
{
    BuildError::MalformedLiteral { descriptor, field: String::from_str(field), expr }
}

pub(crate) fn missing(descriptor: Descriptor, field: &str) -> (e: BuildError)
    ensures
        e@ == ErrV::Missing(descriptor, field@),
{
    BuildError::MissingRequiredField { descriptor, field: String::from_str(field) }
}

} // verus!
