//! The Core model a migration produces. Declarations name their types and fields
//! by spelling; the spellings are the keys the name table interns.

use vstd::prelude::*;

verus! {

/// A Core reference: one of the four scalar leaves, or a plain reference to a
/// declared type by its spelling.
#[derive(Debug, Clone, PartialEq, Eq)]
pub enum CoreReference {
    String,
    Integer,
    Boolean,
    Bytes,
    Plain(String),
}

pub enum CoreReferenceView {
    String,
    Integer,
    Boolean,
    Bytes,
    Plain(Seq<char>),
}

impl View for CoreReference {
    type V = CoreReferenceView;

    open spec fn view(&self) -> CoreReferenceView {
        match self {
            CoreReference::String => CoreReferenceView::String,
            CoreReference::Integer => CoreReferenceView::Integer,
            CoreReference::Boolean => CoreReferenceView::Boolean,
            CoreReference::Bytes => CoreReferenceView::Bytes,
            CoreReference::Plain(s) => CoreReferenceView::Plain(s@),
        }
    }
}

impl CoreReference {
    /// A copy with the same value.
    pub fn duplicate(&self) -> (res: CoreReference)
        ensures
            res@ == self@,
    {
        match self {
            CoreReference::String => CoreReference::String,
            CoreReference::Integer => CoreReference::Integer,
            CoreReference::Boolean => CoreReference::Boolean,
            CoreReference::Bytes => CoreReference::Bytes,
            CoreReference::Plain(s) => CoreReference::Plain(s.clone()),
        }
    }
}

/// The stored name of a Core field: an explicit spelling, or the name that the
/// field's reference derives (an elided field, which the Core re-elides).
#[derive(Debug, Clone, PartialEq, Eq)]
pub enum FieldName {
    Explicit(String),
    Derived,
}

pub enum FieldNameView {
    Explicit(Seq<char>),
    Derived,
}

impl View for FieldName {
    type V = FieldNameView;

    open spec fn view(&self) -> FieldNameView {
        match self {
            FieldName::Explicit(s) => FieldNameView::Explicit(s@),
            FieldName::Derived => FieldNameView::Derived,
        }
    }
}

/// One field of a Core struct.
#[derive(Debug, Clone, PartialEq, Eq)]
pub struct CoreField {
    pub name: FieldName,
    pub reference: CoreReference,
}

pub struct CoreFieldView {
    pub name: FieldNameView,
    pub reference: CoreReferenceView,
}

impl View for CoreField {
    type V = CoreFieldView;

    open spec fn view(&self) -> CoreFieldView {
        CoreFieldView { name: self.name@, reference: self.reference@ }
    }
}

/// The views of a sequence of fields.
pub open spec fn fields_view(fields: Seq<CoreField>) -> Seq<CoreFieldView> {
    fields.map_values(|f: CoreField| f@)
}

/// A newtype declaration: a name wrapping one reference.
#[derive(Debug, Clone, PartialEq, Eq)]
pub struct CoreNewtype {
    pub name: String,
    pub wrapped: CoreReference,
}

/// A named struct declaration.
#[derive(Debug, Clone, PartialEq, Eq)]
pub struct CoreStruct {
    pub name: String,
    pub fields: Vec<CoreField>,
}

/// The type a Core declaration declares.
#[derive(Debug, Clone, PartialEq, Eq)]
pub enum CoreType {
    Newtype(CoreNewtype),
    Struct(CoreStruct),
}

pub enum CoreTypeView {
    Newtype { name: Seq<char>, wrapped: CoreReferenceView },
    Struct { name: Seq<char>, fields: Seq<CoreFieldView> },
}

impl CoreTypeView {
    /// The declared type's name.
    pub open spec fn name(self) -> Seq<char> {
        match self {
            CoreTypeView::Newtype { name, .. } => name,
            CoreTypeView::Struct { name, .. } => name,
        }
    }
}

impl View for CoreType {
    type V = CoreTypeView;

    open spec fn view(&self) -> CoreTypeView {
        match self {
            CoreType::Newtype(n) => CoreTypeView::Newtype { name: n.name@, wrapped: n.wrapped@ },
            CoreType::Struct(s) => CoreTypeView::Struct { name: s.name@, fields: fields_view(s.fields@) },
        }
    }
}

/// The visibility of a declaration. The legacy surface carries none, so every
/// migrated declaration is public API intent.
#[derive(Debug, Clone, Copy, PartialEq, Eq)]
pub enum Visibility {
    Public,
}

/// One Core declaration.
#[derive(Debug, Clone, PartialEq, Eq)]
pub struct CoreDeclaration {
    pub visibility: Visibility,
    pub value: CoreType,
}

pub struct CoreDeclarationView {
    pub visibility: Visibility,
    pub value: CoreTypeView,
}

impl View for CoreDeclaration {
    type V = CoreDeclarationView;

    open spec fn view(&self) -> CoreDeclarationView {
        CoreDeclarationView { visibility: self.visibility, value: self.value@ }
    }
}

impl CoreDeclaration {
    /// The declared type's name.
    pub fn name(&self) -> (res: &String)
        ensures
            res@ == self@.value.name(),
    {
        match &self.value {
            CoreType::Newtype(n) => &n.name,
            CoreType::Struct(s) => &s.name,
        }
    }
}

/// The views of a sequence of declarations.
pub open spec fn declarations_view(declarations: Seq<CoreDeclaration>) -> Seq<CoreDeclarationView> {
    declarations.map_values(|d: CoreDeclaration| d@)
}

/// A Core schema: its declarations, in schema order.
#[derive(Debug, Clone, PartialEq, Eq)]
pub struct CoreSchema {
    pub declarations: Vec<CoreDeclaration>,
}

impl View for CoreSchema {
    type V = Seq<CoreDeclarationView>;

    open spec fn view(&self) -> Seq<CoreDeclarationView> {
        declarations_view(self.declarations@)
    }
}

/// One request to the name table, in the order the ingestion makes them: a legacy
/// spelling, or the field name that a reference derives.
#[derive(Debug, Clone, PartialEq, Eq)]
pub enum InternedName {
    Spelling(String),
    DerivedFieldName(CoreReference),
}

pub enum InternedNameView {
    Spelling(Seq<char>),
    DerivedFieldName(CoreReferenceView),
}

impl View for InternedName {
    type V = InternedNameView;

    open spec fn view(&self) -> InternedNameView {
        match self {
            InternedName::Spelling(s) => InternedNameView::Spelling(s@),
            InternedName::DerivedFieldName(r) => InternedNameView::DerivedFieldName(r@),
        }
    }
}

/// The views of a sequence of name-table requests.
pub open spec fn interned_view(names: Seq<InternedName>) -> Seq<InternedNameView> {
    names.map_values(|n: InternedName| n@)
}

impl CoreReference {
    /// Whether two references are the same reference.
    pub fn same_as(&self, other: &CoreReference) -> (res: bool)
        ensures
            res == (self@ == other@),
    {
        match (self, other) {
            (CoreReference::String, CoreReference::String) => true,
            (CoreReference::Integer, CoreReference::Integer) => true,
            (CoreReference::Boolean, CoreReference::Boolean) => true,
            (CoreReference::Bytes, CoreReference::Bytes) => true,
            (CoreReference::Plain(a), CoreReference::Plain(b)) => *a == *b,
            _ => false,
        }
    }
}

/// A reference whose derived field name the name table refuses to give, with the
/// table's message. An elided field over such a reference cannot be stored, so
/// its declaration is excluded with that message.
#[derive(Debug, Clone, PartialEq, Eq)]
pub struct RefusedDerivation {
    pub reference: CoreReference,
    pub message: String,
}

pub struct RefusedDerivationView {
    pub reference: CoreReferenceView,
    pub message: Seq<char>,
}

impl View for RefusedDerivation {
    type V = RefusedDerivationView;

    open spec fn view(&self) -> RefusedDerivationView {
        RefusedDerivationView { reference: self.reference@, message: self.message@ }
    }
}

/// The views of a sequence of refused derivations.
pub open spec fn refused_view(refused: Seq<RefusedDerivation>) -> Seq<RefusedDerivationView> {
    refused.map_values(|r: RefusedDerivation| r@)
}

/// The message of the first refusal of `reference`, if the table refuses it.
pub open spec fn refusal(refused: Seq<RefusedDerivationView>, reference: CoreReferenceView) -> Option<Seq<char>>
    decreases refused.len(),
{
    if refused.len() == 0 {
        None
    } else if refused[0].reference == reference {
        Some(refused[0].message)
    } else {
        refusal(refused.drop_first(), reference)
    }
}

/// The message of the first refusal of `reference` in `refused`, if any.
pub fn find_refusal(refused: &Vec<RefusedDerivation>, reference: &CoreReference) -> (res: Option<String>)
    ensures
        match res {
            Some(m) => refusal(refused_view(refused@), reference@) == Some(m@),
            None => refusal(refused_view(refused@), reference@) is None,
        },
{
    let mut i: usize = 0;
    proof {
        assert(refused_view(refused@).skip(0) =~= refused_view(refused@));
    }
    while i < refused.len()
        invariant
            i <= refused@.len(),
            refusal(refused_view(refused@), reference@) == refusal(refused_view(refused@).skip(i as int), reference@),
        decreases refused@.len() - i,
    {
        let ghost rest = refused_view(refused@).skip(i as int);
        proof {
            assert(rest[0] == refused@[i as int]@);
            assert(rest.drop_first() =~= refused_view(refused@).skip(i + 1));
        }
        if refused[i].reference.same_as(reference) {
            return Some(refused[i].message.clone());
        }
        i = i + 1;
    }
    None
}

} // verus!
