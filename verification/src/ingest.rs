//! The ingestion: a translation of a parsed legacy source, object to object, into
//! the Core model, with every name requested from the name table in order.
//!
//! The migrated subset: a newtype over a scalar or plain reference, and a struct
//! whose fields are scalar or plain references (elided or explicit). Everything
//! beyond it (generic applications, enums, pipe-text, inline field declarations,
//! the legacy `Path` scalar) is a named exclusion, never a silent drop.

use vstd::prelude::*;

use crate::core_model::{
    declarations_view, fields_view, interned_view, CoreDeclaration, CoreDeclarationView,
    CoreField, CoreFieldView, CoreNewtype, CoreReference, CoreReferenceView, CoreSchema,
    CoreStruct, CoreType, CoreTypeView, FieldName, FieldNameView, InternedName,
    InternedNameView, RefusedDerivation, RefusedDerivationView, Visibility, find_refusal,
    refusal, refused_view,
};
use crate::error::{BridgeError, BridgeErrorView};
use crate::source::{
    SchemaSource, SourceDeclarationValue, SourceField, SourceFieldValue, SourceReference,
    SourceTypeEntry,
};

verus! {

// ---------------------------------------------------------------------------
// The model of the translation, one legacy construct at a time.
// ---------------------------------------------------------------------------

/// How a plain legacy type name is classified: a scalar keyword becomes its leaf,
/// `Path` is excluded, and any other name is a plain reference to it.
pub open spec fn plain_reference(spelling: Seq<char>) -> Result<CoreReferenceView, BridgeErrorView> {
    if spelling == "String"@ {
        Ok(CoreReferenceView::String)
    } else if spelling == "Integer"@ {
        Ok(CoreReferenceView::Integer)
    } else if spelling == "Boolean"@ {
        Ok(CoreReferenceView::Boolean)
    } else if spelling == "Bytes"@ {
        Ok(CoreReferenceView::Bytes)
    } else if spelling == "Path"@ {
        Err(BridgeErrorView::UnsupportedScalar("Path"@))
    } else {
        Ok(CoreReferenceView::Plain(spelling))
    }
}

/// The names requested while classifying a plain type name.
pub open spec fn plain_interns(spelling: Seq<char>) -> Seq<InternedNameView> {
    match plain_reference(spelling) {
        Ok(CoreReferenceView::Plain(s)) => seq![InternedNameView::Spelling(s)],
        _ => seq![],
    }
}

/// A legacy reference in the declaration named `context`: only a plain one migrates.
pub open spec fn reference_outcome(reference: SourceReference, context: Seq<char>) -> Result<CoreReferenceView, BridgeErrorView> {
    match reference {
        SourceReference::Plain(name) => plain_reference(name@),
        _ => Err(BridgeErrorView::UnsupportedApplication(context)),
    }
}

pub open spec fn reference_interns(reference: SourceReference) -> Seq<InternedNameView> {
    match reference {
        SourceReference::Plain(name) => plain_interns(name@),
        _ => seq![],
    }
}

/// The reference a field of the declaration `owner` carries, ignoring its name.
pub open spec fn field_reference_outcome(field: SourceField, owner: Seq<char>) -> Result<CoreReferenceView, BridgeErrorView> {
    match field.value {
        SourceFieldValue::Derived => plain_reference(field.name@),
        SourceFieldValue::Reference(reference) => reference_outcome(reference, owner),
        SourceFieldValue::Declaration => Err(BridgeErrorView::UnsupportedInlineField(owner)),
    }
}

pub open spec fn field_reference_interns(field: SourceField) -> Seq<InternedNameView> {
    match field.value {
        SourceFieldValue::Derived => plain_interns(field.name@),
        SourceFieldValue::Reference(reference) => reference_interns(reference),
        SourceFieldValue::Declaration => seq![],
    }
}

/// One struct field: an explicit field keeps its own name, an elided one defers
/// its name to what its reference derives, and fails where the name table
/// refuses that derivation.
pub open spec fn field_outcome(field: SourceField, owner: Seq<char>, refused: Seq<RefusedDerivationView>) -> Result<CoreFieldView, BridgeErrorView> {
    match field_reference_outcome(field, owner) {
        Ok(reference) => match field.value {
            SourceFieldValue::Reference(_) => Ok(CoreFieldView { name: FieldNameView::Explicit(field.name@), reference }),
            _ => match refusal(refused, reference) {
                Some(message) => Err(BridgeErrorView::NameTable(message)),
                None => Ok(CoreFieldView { name: FieldNameView::Derived, reference }),
            },
        },
        Err(e) => Err(e),
    }
}

pub open spec fn field_interns(field: SourceField, owner: Seq<char>, refused: Seq<RefusedDerivationView>) -> Seq<InternedNameView> {
    field_reference_interns(field) + match field_reference_outcome(field, owner) {
        Ok(reference) => match field.value {
            SourceFieldValue::Reference(_) => seq![InternedNameView::Spelling(field.name@)],
            _ => if refusal(refused, reference) is None {
                seq![InternedNameView::DerivedFieldName(reference)]
            } else {
                seq![]
            },
        },
        Err(_) => seq![],
    }
}

/// The fields of a struct body, in order; the first failing field fails them all.
pub open spec fn fields_outcome(fields: Seq<SourceField>, owner: Seq<char>, refused: Seq<RefusedDerivationView>) -> Result<Seq<CoreFieldView>, BridgeErrorView>
    decreases fields.len(),
{
    if fields.len() == 0 {
        Ok(seq![])
    } else {
        match fields_outcome(fields.drop_last(), owner, refused) {
            Err(e) => Err(e),
            Ok(prefix) => match field_outcome(fields.last(), owner, refused) {
                Ok(f) => Ok(prefix.push(f)),
                Err(e) => Err(e),
            },
        }
    }
}

/// The names requested by the fields up to and including the first failing one.
pub open spec fn fields_interns(fields: Seq<SourceField>, owner: Seq<char>, refused: Seq<RefusedDerivationView>) -> Seq<InternedNameView>
    decreases fields.len(),
{
    if fields.len() == 0 {
        seq![]
    } else {
        match fields_outcome(fields.drop_last(), owner, refused) {
            Err(_) => fields_interns(fields.drop_last(), owner, refused),
            Ok(_) => fields_interns(fields.drop_last(), owner, refused) + field_interns(fields.last(), owner, refused),
        }
    }
}

/// The type one legacy entry declares. A one-field brace body is a newtype over
/// that field's reference; any other brace body is a named struct.
pub open spec fn entry_type(entry: SourceTypeEntry, refused: Seq<RefusedDerivationView>) -> Result<CoreTypeView, BridgeErrorView> {
    let name = entry.name@;
    match entry.value {
        SourceDeclarationValue::Reference(reference) => match reference_outcome(reference, name) {
            Ok(wrapped) => Ok(CoreTypeView::Newtype { name, wrapped }),
            Err(e) => Err(e),
        },
        SourceDeclarationValue::Struct(body) => if body.fields@.len() == 1 {
            match field_reference_outcome(body.fields@[0], name) {
                Ok(wrapped) => Ok(CoreTypeView::Newtype { name, wrapped }),
                Err(e) => Err(e),
            }
        } else {
            match fields_outcome(body.fields@, name, refused) {
                Ok(fields) => Ok(CoreTypeView::Struct { name, fields }),
                Err(e) => Err(e),
            }
        },
        SourceDeclarationValue::Enum => Err(BridgeErrorView::UnsupportedEnum(name)),
        SourceDeclarationValue::Text => Err(BridgeErrorView::UnsupportedText(name)),
    }
}

/// One legacy entry as a public Core declaration, or the reason it is excluded.
pub open spec fn entry_outcome(entry: SourceTypeEntry, refused: Seq<RefusedDerivationView>) -> Result<CoreDeclarationView, BridgeErrorView> {
    match entry_type(entry, refused) {
        Ok(value) => Ok(CoreDeclarationView { visibility: Visibility::Public, value }),
        Err(e) => Err(e),
    }
}

/// The names requested while migrating one entry, whether it migrates or not.
pub open spec fn entry_interns(entry: SourceTypeEntry, refused: Seq<RefusedDerivationView>) -> Seq<InternedNameView> {
    let name = entry.name@;
    let own = seq![InternedNameView::Spelling(name)];
    match entry.value {
        SourceDeclarationValue::Reference(reference) =>
            reference_interns(reference) + if reference_outcome(reference, name) is Ok { own } else { seq![] },
        SourceDeclarationValue::Struct(body) => if body.fields@.len() == 1 {
            field_reference_interns(body.fields@[0])
                + if field_reference_outcome(body.fields@[0], name) is Ok { own } else { seq![] }
        } else {
            fields_interns(body.fields@, name, refused) + if fields_outcome(body.fields@, name, refused) is Ok { own } else { seq![] }
        },
        _ => seq![],
    }
}

/// One excluded declaration: its name and its reason.
pub struct ExclusionView {
    pub name: Seq<char>,
    pub reason: BridgeErrorView,
}

/// The declarations of a types block that migrate, in schema order.
pub open spec fn migrated_declarations(entries: Seq<SourceTypeEntry>, refused: Seq<RefusedDerivationView>) -> Seq<CoreDeclarationView>
    decreases entries.len(),
{
    if entries.len() == 0 {
        seq![]
    } else {
        let prefix = migrated_declarations(entries.drop_last(), refused);
        match entry_outcome(entries.last(), refused) {
            Ok(d) => prefix.push(d),
            Err(_) => prefix,
        }
    }
}

/// The declarations of a types block that do not migrate, with their reasons, in
/// schema order.
pub open spec fn excluded_declarations(entries: Seq<SourceTypeEntry>, refused: Seq<RefusedDerivationView>) -> Seq<ExclusionView>
    decreases entries.len(),
{
    if entries.len() == 0 {
        seq![]
    } else {
        let prefix = excluded_declarations(entries.drop_last(), refused);
        match entry_outcome(entries.last(), refused) {
            Ok(_) => prefix,
            Err(e) => prefix.push(ExclusionView { name: entries.last().name@, reason: e }),
        }
    }
}

/// The names requested while migrating a types block, in order.
pub open spec fn source_interns(entries: Seq<SourceTypeEntry>, refused: Seq<RefusedDerivationView>) -> Seq<InternedNameView>
    decreases entries.len(),
{
    if entries.len() == 0 {
        seq![]
    } else {
        source_interns(entries.drop_last(), refused) + entry_interns(entries.last(), refused)
    }
}

} // verus!

verus! {

// ---------------------------------------------------------------------------
// The executable ingestion.
// ---------------------------------------------------------------------------

/// One legacy declaration the subset could not carry, with the reason it was
/// excluded.
#[derive(Debug, Clone, PartialEq, Eq)]
pub struct Exclusion {
    /// The legacy declaration's type name.
    pub name: String,
    /// Why it could not migrate.
    pub reason: BridgeError,
}

impl View for Exclusion {
    type V = ExclusionView;

    open spec fn view(&self) -> ExclusionView {
        ExclusionView { name: self.name@, reason: self.reason@ }
    }
}

pub open spec fn exclusions_view(excluded: Seq<Exclusion>) -> Seq<ExclusionView> {
    excluded.map_values(|e: Exclusion| e@)
}

/// The result of migrating a legacy source: the migrated declarations, the names
/// requested from the name table in order (including names of types that a
/// migrated or excluded declaration refers to), and the named exclusions.
#[derive(Debug, Clone, PartialEq, Eq)]
pub struct Migration {
    /// The migrated declarations.
    pub schema: CoreSchema,
    /// The name-table requests, in the order they were made.
    pub names: Vec<InternedName>,
    /// The out-of-subset declarations, each with its reason.
    pub excluded: Vec<Exclusion>,
}

pub struct MigrationView {
    pub schema: Seq<CoreDeclarationView>,
    pub names: Seq<InternedNameView>,
    pub excluded: Seq<ExclusionView>,
}

impl View for Migration {
    type V = MigrationView;

    open spec fn view(&self) -> MigrationView {
        MigrationView {
            schema: self.schema@,
            names: interned_view(self.names@),
            excluded: exclusions_view(self.excluded@),
        }
    }
}

/// Ingests a legacy source into the Core model, accumulating the name-table
/// requests as it goes.
pub struct LegacySchemaIngest {
    names: Vec<InternedName>,
}

impl View for LegacySchemaIngest {
    type V = Seq<InternedNameView>;

    closed spec fn view(&self) -> Seq<InternedNameView> {
        interned_view(self.names@)
    }
}

impl LegacySchemaIngest {
    /// Request a legacy spelling from the name table.
    fn intern(&mut self, spelling: &String) -> (res: String)
        ensures
            res@ == spelling@,
            final(self)@ == old(self)@.push(InternedNameView::Spelling(spelling@)),
    {
        let ghost before = self.names@;
        self.names.push(InternedName::Spelling(spelling.clone()));
        proof {
            assert(interned_view(self.names@) =~= interned_view(before).push(InternedNameView::Spelling(spelling@)));
        }
        spelling.clone()
    }

    /// Request the field name that `reference` derives.
    fn intern_derived(&mut self, reference: &CoreReference)
        ensures
            final(self)@ == old(self)@.push(InternedNameView::DerivedFieldName(reference@)),
    {
        let ghost before = self.names@;
        self.names.push(InternedName::DerivedFieldName(reference.duplicate()));
        proof {
            assert(interned_view(self.names@) =~= interned_view(before).push(InternedNameView::DerivedFieldName(reference@)));
        }
    }

    /// Classify a plain legacy type name.
    fn migrate_plain(&mut self, spelling: &String) -> (res: Result<CoreReference, BridgeError>)
        ensures
            match res {
                Ok(r) => plain_reference(spelling@) == Ok::<CoreReferenceView, BridgeErrorView>(r@),
                Err(e) => plain_reference(spelling@) == Err::<CoreReferenceView, BridgeErrorView>(e@),
            },
            final(self)@ == old(self)@ + plain_interns(spelling@),
    {
        if *spelling == String::from_str("String") {
            assert(old(self)@ + plain_interns(spelling@) =~= old(self)@);
            Ok(CoreReference::String)
        } else if *spelling == String::from_str("Integer") {
            assert(old(self)@ + plain_interns(spelling@) =~= old(self)@);
            Ok(CoreReference::Integer)
        } else if *spelling == String::from_str("Boolean") {
            assert(old(self)@ + plain_interns(spelling@) =~= old(self)@);
            Ok(CoreReference::Boolean)
        } else if *spelling == String::from_str("Bytes") {
            assert(old(self)@ + plain_interns(spelling@) =~= old(self)@);
            Ok(CoreReference::Bytes)
        } else if *spelling == String::from_str("Path") {
            assert(old(self)@ + plain_interns(spelling@) =~= old(self)@);
            Err(BridgeError::UnsupportedScalar(String::from_str("Path")))
        } else {
            let interned = self.intern(spelling);
            assert(old(self)@ + plain_interns(spelling@) =~= old(self)@.push(InternedNameView::Spelling(spelling@)));
            Ok(CoreReference::Plain(interned))
        }
    }

    /// Migrate a legacy reference met in the declaration named `context`.
    fn migrate_reference(&mut self, reference: &SourceReference, context: &String) -> (res: Result<CoreReference, BridgeError>)
        ensures
            match res {
                Ok(r) => reference_outcome(*reference, context@) == Ok::<CoreReferenceView, BridgeErrorView>(r@),
                Err(e) => reference_outcome(*reference, context@) == Err::<CoreReferenceView, BridgeErrorView>(e@),
            },
            final(self)@ == old(self)@ + reference_interns(*reference),
    {
        match reference {
            SourceReference::Plain(name) => self.migrate_plain(name),
            _ => {
                assert(old(self)@ + reference_interns(*reference) =~= old(self)@);
                Err(BridgeError::UnsupportedApplication(context.clone()))
            },
        }
    }

    /// The reference a field of the declaration `owner` carries, ignoring its name.
    fn field_reference(&mut self, field: &SourceField, owner: &String) -> (res: Result<CoreReference, BridgeError>)
        ensures
            match res {
                Ok(r) => field_reference_outcome(*field, owner@) == Ok::<CoreReferenceView, BridgeErrorView>(r@),
                Err(e) => field_reference_outcome(*field, owner@) == Err::<CoreReferenceView, BridgeErrorView>(e@),
            },
            final(self)@ == old(self)@ + field_reference_interns(*field),
    {
        match &field.value {
            SourceFieldValue::Derived => self.migrate_plain(&field.name),
            SourceFieldValue::Reference(reference) => self.migrate_reference(reference, owner),
            SourceFieldValue::Declaration => {
                assert(old(self)@ + field_reference_interns(*field) =~= old(self)@);
                Err(BridgeError::UnsupportedInlineField(owner.clone()))
            },
        }
    }

    /// Migrate one struct field of the declaration `owner`.
    fn migrate_field(&mut self, field: &SourceField, owner: &String, refused: &Vec<RefusedDerivation>) -> (res: Result<CoreField, BridgeError>)
        ensures
            match res {
                Ok(f) => field_outcome(*field, owner@, refused_view(refused@)) == Ok::<CoreFieldView, BridgeErrorView>(f@),
                Err(e) => field_outcome(*field, owner@, refused_view(refused@)) == Err::<CoreFieldView, BridgeErrorView>(e@),
            },
            final(self)@ == old(self)@ + field_interns(*field, owner@, refused_view(refused@)),
    {
        let reference = match self.field_reference(field, owner) {
            Ok(reference) => reference,
            Err(e) => {
                assert(field_interns(*field, owner@, refused_view(refused@)) =~= field_reference_interns(*field));
                return Err(e);
            },
        };
        let name = match &field.value {
            SourceFieldValue::Reference(_) => FieldName::Explicit(self.intern(&field.name)),
            _ => match find_refusal(refused, &reference) {
                Some(message) => {
                    assert(self@ =~= old(self)@ + field_interns(*field, owner@, refused_view(refused@)));
                    return Err(BridgeError::NameTable(message));
                },
                None => {
                    self.intern_derived(&reference);
                    FieldName::Derived
                },
            },
        };
        assert(self@ =~= old(self)@ + field_interns(*field, owner@, refused_view(refused@)));
        Ok(CoreField { name, reference })
    }

    /// Migrate a struct body's fields, stopping at the first that fails.
    fn migrate_fields(&mut self, fields: &Vec<SourceField>, owner: &String, refused: &Vec<RefusedDerivation>) -> (res: Result<Vec<CoreField>, BridgeError>)
        ensures
            match res {
                Ok(v) => fields_outcome(fields@, owner@, refused_view(refused@)) == Ok::<Seq<CoreFieldView>, BridgeErrorView>(fields_view(v@)),
                Err(e) => fields_outcome(fields@, owner@, refused_view(refused@)) == Err::<Seq<CoreFieldView>, BridgeErrorView>(e@),
            },
            final(self)@ == old(self)@ + fields_interns(fields@, owner@, refused_view(refused@)),
    {
        let mut migrated: Vec<CoreField> = Vec::new();
        let mut i: usize = 0;
        proof {
            assert(fields@.take(0) =~= Seq::<SourceField>::empty());
            assert(fields_view(migrated@) =~= Seq::<CoreFieldView>::empty());
            assert(old(self)@ + fields_interns(fields@.take(0), owner@, refused_view(refused@)) =~= old(self)@);
        }
        while i < fields.len()
            invariant
                i <= fields@.len(),
                fields_outcome(fields@.take(i as int), owner@, refused_view(refused@)) == Ok::<Seq<CoreFieldView>, BridgeErrorView>(fields_view(migrated@)),
                self@ == old(self)@ + fields_interns(fields@.take(i as int), owner@, refused_view(refused@)),
            decreases fields@.len() - i,
        {
            let ghost prefix = fields@.take(i as int);
            let ghost next = fields@.take(i + 1);
            proof {
                assert(next.drop_last() =~= prefix);
                assert(next.last() == fields@[i as int]);
            }
            match self.migrate_field(&fields[i], owner, refused) {
                Ok(field) => {
                    let ghost old_migrated = migrated@;
                    migrated.push(field);
                    proof {
                        assert(fields_view(migrated@) =~= fields_view(old_migrated).push(field@));
                        assert(self@ =~= old(self)@ + fields_interns(next, owner@, refused_view(refused@)));
                    }
                },
                Err(e) => {
                    proof {
                        assert(self@ =~= old(self)@ + fields_interns(next, owner@, refused_view(refused@)));
                        lemma_fields_failure_stops(fields@, owner@, refused_view(refused@), i + 1);
                    }
                    return Err(e);
                },
            }
            i = i + 1;
        }
        proof {
            assert(fields@.take(i as int) =~= fields@);
        }
        Ok(migrated)
    }

    /// Migrate one legacy type declaration into a public Core declaration.
    fn migrate_entry(&mut self, entry: &SourceTypeEntry, refused: &Vec<RefusedDerivation>) -> (res: Result<CoreDeclaration, BridgeError>)
        ensures
            match res {
                Ok(d) => entry_outcome(*entry, refused_view(refused@)) == Ok::<CoreDeclarationView, BridgeErrorView>(d@),
                Err(e) => entry_outcome(*entry, refused_view(refused@)) == Err::<CoreDeclarationView, BridgeErrorView>(e@),
            },
            final(self)@ == old(self)@ + entry_interns(*entry, refused_view(refused@)),
    {
        let name = &entry.name;
        let value = match &entry.value {
            SourceDeclarationValue::Reference(reference) => {
                let wrapped = match self.migrate_reference(reference, name) {
                    Ok(wrapped) => wrapped,
                    Err(e) => {
                        assert(self@ =~= old(self)@ + entry_interns(*entry, refused_view(refused@)));
                        return Err(e);
                    },
                };
                let interned = self.intern(name);
                assert(self@ =~= old(self)@ + entry_interns(*entry, refused_view(refused@)));
                CoreType::Newtype(CoreNewtype { name: interned, wrapped })
            },
            SourceDeclarationValue::Struct(body) => {
                if body.fields.len() == 1 {
                    let wrapped = match self.field_reference(&body.fields[0], name) {
                        Ok(wrapped) => wrapped,
                        Err(e) => {
                            assert(self@ =~= old(self)@ + entry_interns(*entry, refused_view(refused@)));
                            return Err(e);
                        },
                    };
                    let interned = self.intern(name);
                    assert(self@ =~= old(self)@ + entry_interns(*entry, refused_view(refused@)));
                    CoreType::Newtype(CoreNewtype { name: interned, wrapped })
                } else {
                    let fields = match self.migrate_fields(&body.fields, name, refused) {
                        Ok(fields) => fields,
                        Err(e) => {
                            assert(self@ =~= old(self)@ + entry_interns(*entry, refused_view(refused@)));
                            return Err(e);
                        },
                    };
                    let interned = self.intern(name);
                    assert(self@ =~= old(self)@ + entry_interns(*entry, refused_view(refused@)));
                    CoreType::Struct(CoreStruct { name: interned, fields })
                }
            },
            SourceDeclarationValue::Enum => {
                assert(self@ =~= old(self)@ + entry_interns(*entry, refused_view(refused@)));
                return Err(BridgeError::UnsupportedEnum(name.clone()));
            },
            SourceDeclarationValue::Text => {
                assert(self@ =~= old(self)@ + entry_interns(*entry, refused_view(refused@)));
                return Err(BridgeError::UnsupportedText(name.clone()));
            },
        };
        Ok(CoreDeclaration { visibility: Visibility::Public, value })
    }
}

impl LegacySchemaIngest {
    /// A fresh ingest that has requested no name yet.
    pub fn new() -> (res: LegacySchemaIngest)
        ensures
            res@ == Seq::<InternedNameView>::empty(),
    {
        let res = LegacySchemaIngest { names: Vec::new() };
        assert(res@ =~= Seq::<InternedNameView>::empty());
        res
    }

    /// Migrate the types block of a parsed legacy source, where the name table
    /// gives every derived field name. Every entry either migrates into the schema
    /// or is excluded with its reason, in schema order; the names it requests
    /// follow the names this ingest already requested.
    pub fn migrate_source(self, source: &SchemaSource) -> (res: Migration)
        ensures
            res@ == (MigrationView {
                schema: migrated_declarations(source.types@, Seq::empty()),
                names: self@ + source_interns(source.types@, Seq::empty()),
                excluded: excluded_declarations(source.types@, Seq::empty()),
            }),
    {
        let refused: Vec<RefusedDerivation> = Vec::new();
        assert(refused_view(refused@) =~= Seq::<RefusedDerivationView>::empty());
        self.migrate_source_refusing(source, &refused)
    }

    /// Migrate the types block of a parsed legacy source, where the name table
    /// refuses the derived field names of the references in `refused`: a
    /// declaration with an elided field over such a reference is excluded with the
    /// table's message. Every entry either migrates into the schema or is excluded
    /// with its reason, in schema order; the names it requests follow the names
    /// this ingest already requested.
    pub fn migrate_source_refusing(self, source: &SchemaSource, refused: &Vec<RefusedDerivation>) -> (res: Migration)
        ensures
            res@ == (MigrationView {
                schema: migrated_declarations(source.types@, refused_view(refused@)),
                names: self@ + source_interns(source.types@, refused_view(refused@)),
                excluded: excluded_declarations(source.types@, refused_view(refused@)),
            }),
    {
        let mut ingest = self;
        let mut declarations: Vec<CoreDeclaration> = Vec::new();
        let mut excluded: Vec<Exclusion> = Vec::new();
        let entries = &source.types;
        let mut i: usize = 0;
        proof {
            assert(entries@.take(0) =~= Seq::<SourceTypeEntry>::empty());
            assert(declarations_view(declarations@) =~= Seq::<CoreDeclarationView>::empty());
            assert(exclusions_view(excluded@) =~= Seq::<ExclusionView>::empty());
            assert(self@ + source_interns(entries@.take(0), refused_view(refused@)) =~= self@);
        }
        while i < entries.len()
            invariant
                i <= entries@.len(),
                declarations_view(declarations@) == migrated_declarations(entries@.take(i as int), refused_view(refused@)),
                exclusions_view(excluded@) == excluded_declarations(entries@.take(i as int), refused_view(refused@)),
                ingest@ == self@ + source_interns(entries@.take(i as int), refused_view(refused@)),
            decreases entries@.len() - i,
        {
            let ghost prefix = entries@.take(i as int);
            let ghost next = entries@.take(i + 1);
            proof {
                assert(next.drop_last() =~= prefix);
                assert(next.last() == entries@[i as int]);
            }
            let entry = &entries[i];
            match ingest.migrate_entry(entry, refused) {
                Ok(declaration) => {
                    let ghost old_declarations = declarations@;
                    declarations.push(declaration);
                    proof {
                        assert(declarations_view(declarations@) =~= declarations_view(old_declarations).push(declaration@));
                    }
                },
                Err(reason) => {
                    let ghost old_excluded = excluded@;
                    let exclusion = Exclusion { name: entry.name.clone(), reason };
                    excluded.push(exclusion);
                    proof {
                        assert(exclusions_view(excluded@) =~= exclusions_view(old_excluded).push(exclusion@));
                    }
                },
            }
            proof {
                assert(ingest@ =~= self@ + source_interns(next, refused_view(refused@)));
            }
            i = i + 1;
        }
        proof {
            assert(entries@.take(i as int) =~= entries@);
        }
        Migration {
            schema: CoreSchema { declarations },
            names: ingest.names,
            excluded,
        }
    }

    /// Migrate the outcome of parsing a legacy source text with a fresh ingest. A
    /// parse failure (the parser's message) is fatal; per-declaration failures are
    /// collected as named exclusions.
    pub fn migrate_parsed(parsed: Result<SchemaSource, String>) -> (res: Result<Migration, BridgeError>)
        ensures
            match parsed {
                Ok(source) => res matches Ok(m) && m@ == (MigrationView {
                    schema: migrated_declarations(source.types@, Seq::empty()),
                    names: source_interns(source.types@, Seq::empty()),
                    excluded: excluded_declarations(source.types@, Seq::empty()),
                }),
                Err(message) => res matches Err(e) && e@ == BridgeErrorView::LegacyParse(message@),
            },
    {
        match parsed {
            Ok(source) => {
                let ingest = LegacySchemaIngest::new();
                let migration = ingest.migrate_source(&source);
                assert(Seq::<InternedNameView>::empty() + source_interns(source.types@, Seq::empty()) =~= source_interns(source.types@, Seq::empty()));
                Ok(migration)
            },
            Err(message) => Err(BridgeError::LegacyParse(message)),
        }
    }
}

impl Default for LegacySchemaIngest {
    fn default() -> (res: LegacySchemaIngest)
        ensures
            res@ == Seq::<InternedNameView>::empty(),
    {
        LegacySchemaIngest::new()
    }
}

impl Migration {
    /// The names of the declarations that migrated, in schema order.
    pub fn migrated_names(&self) -> (res: Vec<String>)
        ensures
            res@.map_values(|s: String| s@) == self.schema@.map_values(|d: CoreDeclarationView| d.value.name()),
    {
        let declarations = &self.schema.declarations;
        let mut names: Vec<String> = Vec::new();
        let mut i: usize = 0;
        while i < declarations.len()
            invariant
                i <= declarations@.len(),
                names@.len() == i,
                forall|j: int| 0 <= j < i ==> #[trigger] names@[j]@ == declarations@[j]@.value.name(),
            decreases declarations@.len() - i,
        {
            let name = declarations[i].name().clone();
            names.push(name);
            i = i + 1;
        }
        proof {
            assert(names@.map_values(|s: String| s@) =~= self.schema@.map_values(|d: CoreDeclarationView| d.value.name()));
        }
        names
    }
}

/// Once a field fails, the fields after it neither change the outcome nor request
/// any name.
proof fn lemma_fields_failure_stops(fields: Seq<SourceField>, owner: Seq<char>, refused: Seq<RefusedDerivationView>, k: int)
    requires
        0 <= k <= fields.len(),
        fields_outcome(fields.take(k), owner, refused) is Err,
    ensures
        fields_outcome(fields, owner, refused) == fields_outcome(fields.take(k), owner, refused),
        fields_interns(fields, owner, refused) == fields_interns(fields.take(k), owner, refused),
    decreases fields.len(),
{
    if k == fields.len() {
        assert(fields.take(k) =~= fields);
    } else {
        assert(fields.drop_last().take(k) =~= fields.take(k));
        lemma_fields_failure_stops(fields.drop_last(), owner, refused, k);
    }
}

} // verus!
