//! The parsed legacy schema source, as the ingestion reads it: the types block,
//! one entry per declaration, each with its name and its declaration value.

use vstd::prelude::*;

verus! {

/// A reference in the legacy grammar: a plain type name, or one of the generic
/// application forms (`Bytes.N`, `Vector.T`, `Map.(K V)`, the general form).
#[derive(Debug, Clone, PartialEq, Eq)]
pub enum SourceReference {
    /// A bare type name, such as `String` or `Topic`.
    Plain(String),
    /// An application to a value, such as `Bytes.32`.
    ValueApplication,
    /// An application to one type, such as `Vector.Topic`.
    SingleTypeApplication,
    /// An application to several types, such as `Map.(Topic Entry)`.
    MultiTypeApplication,
    /// The general application form.
    Application,
}

/// What a struct field carries after its name.
#[derive(Debug, Clone, PartialEq, Eq)]
pub enum SourceFieldValue {
    /// An elided field: the field's name is also its type name.
    Derived,
    /// An explicit field with its reference.
    Reference(SourceReference),
    /// An inline nested declaration.
    Declaration,
}

/// One struct field.
#[derive(Debug, Clone, PartialEq, Eq)]
pub struct SourceField {
    pub name: String,
    pub value: SourceFieldValue,
}

/// The brace body of a struct declaration.
#[derive(Debug, Clone, PartialEq, Eq)]
pub struct SourceStructBody {
    pub fields: Vec<SourceField>,
}

/// The value of one legacy type declaration.
#[derive(Debug, Clone, PartialEq, Eq)]
pub enum SourceDeclarationValue {
    /// A newtype over a reference.
    Reference(SourceReference),
    /// A brace body of fields.
    Struct(SourceStructBody),
    /// An enum declaration.
    Enum,
    /// A pipe-text (documentation) declaration.
    Text,
}

/// One entry of the types block: a declared name and its value.
#[derive(Debug, Clone, PartialEq, Eq)]
pub struct SourceTypeEntry {
    pub name: String,
    pub value: SourceDeclarationValue,
}

/// A parsed legacy source: its types block, in schema order.
#[derive(Debug, Clone, PartialEq, Eq)]
pub struct SchemaSource {
    pub types: Vec<SourceTypeEntry>,
}

} // verus!
