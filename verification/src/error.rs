//! The typed error boundary of the ingestion.

use vstd::prelude::*;

verus! {

/// A failure to ingest a legacy declaration into the Core model.
#[derive(Debug, Clone, PartialEq, Eq)]
pub enum BridgeError {
    /// The legacy parser rejected the source text; carries the parser's message.
    LegacyParse(String),
    /// A scalar leaf that the Core has no reference for (the legacy `Path`).
    UnsupportedScalar(String),
    /// A generic application in the named declaration.
    UnsupportedApplication(String),
    /// An enum declaration.
    UnsupportedEnum(String),
    /// A pipe-text declaration.
    UnsupportedText(String),
    /// An inline nested field declaration in the named struct.
    UnsupportedInlineField(String),
    /// A name-table resolution failure; carries the table's message.
    NameTable(String),
}

/// The mathematical value of a [`BridgeError`].
pub enum BridgeErrorView {
    LegacyParse(Seq<char>),
    UnsupportedScalar(Seq<char>),
    UnsupportedApplication(Seq<char>),
    UnsupportedEnum(Seq<char>),
    UnsupportedText(Seq<char>),
    UnsupportedInlineField(Seq<char>),
    NameTable(Seq<char>),
}

impl View for BridgeError {
    type V = BridgeErrorView;

    open spec fn view(&self) -> BridgeErrorView {
        match self {
            BridgeError::LegacyParse(m) => BridgeErrorView::LegacyParse(m@),
            BridgeError::UnsupportedScalar(m) => BridgeErrorView::UnsupportedScalar(m@),
            BridgeError::UnsupportedApplication(m) => BridgeErrorView::UnsupportedApplication(m@),
            BridgeError::UnsupportedEnum(m) => BridgeErrorView::UnsupportedEnum(m@),
            BridgeError::UnsupportedText(m) => BridgeErrorView::UnsupportedText(m@),
            BridgeError::UnsupportedInlineField(m) => BridgeErrorView::UnsupportedInlineField(m@),
            BridgeError::NameTable(m) => BridgeErrorView::NameTable(m@),
        }
    }
}

/// The reasons that mark the edge of the migrated subset: everything but a parse
/// failure or a name-table failure.
pub open spec fn is_subset_boundary(error: BridgeErrorView) -> bool {
    match error {
        BridgeErrorView::LegacyParse(_) | BridgeErrorView::NameTable(_) => false,
        _ => true,
    }
}

} // verus!
