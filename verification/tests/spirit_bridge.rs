use golden_bridge::core_model::{
    CoreDeclaration, CoreField, CoreNewtype, CoreReference, CoreStruct, CoreType, FieldName,
    InternedName, RefusedDerivation, Visibility,
};
use golden_bridge::error::BridgeError;
use golden_bridge::ingest::{Exclusion, LegacySchemaIngest, Migration};
use golden_bridge::source::{
    SchemaSource, SourceDeclarationValue, SourceField, SourceFieldValue, SourceReference,
    SourceStructBody, SourceTypeEntry,
};

fn s(text: &str) -> String {
    text.to_string()
}

fn plain(name: &str) -> SourceReference {
    SourceReference::Plain(s(name))
}

fn newtype_entry(name: &str, reference: SourceReference) -> SourceTypeEntry {
    SourceTypeEntry { name: s(name), value: SourceDeclarationValue::Reference(reference) }
}

fn struct_entry(name: &str, fields: Vec<SourceField>) -> SourceTypeEntry {
    SourceTypeEntry {
        name: s(name),
        value: SourceDeclarationValue::Struct(SourceStructBody { fields }),
    }
}

fn derived(name: &str) -> SourceField {
    SourceField { name: s(name), value: SourceFieldValue::Derived }
}

fn explicit(name: &str, reference: SourceReference) -> SourceField {
    SourceField { name: s(name), value: SourceFieldValue::Reference(reference) }
}

fn enum_entry(name: &str) -> SourceTypeEntry {
    SourceTypeEntry { name: s(name), value: SourceDeclarationValue::Enum }
}

fn migrate(types: Vec<SourceTypeEntry>) -> Migration {
    LegacySchemaIngest::new().migrate_source(&SchemaSource { types })
}

fn spelling(name: &str) -> InternedName {
    InternedName::Spelling(s(name))
}

fn public(value: CoreType) -> CoreDeclaration {
    CoreDeclaration { visibility: Visibility::Public, value }
}

fn newtype(name: &str, wrapped: CoreReference) -> CoreDeclaration {
    public(CoreType::Newtype(CoreNewtype { name: s(name), wrapped }))
}

fn kind_of(error: &BridgeError) -> &'static str {
    match error {
        BridgeError::UnsupportedApplication(_) => "application",
        BridgeError::UnsupportedEnum(_) => "enum",
        BridgeError::UnsupportedScalar(_) => "scalar",
        BridgeError::UnsupportedText(_) => "text",
        BridgeError::UnsupportedInlineField(_) => "inline-field",
        BridgeError::LegacyParse(_) | BridgeError::NameTable(_) => "other",
    }
}

/// The types block of the spirit-min schema: six declarations inside the subset,
/// two enums and two generic applications outside it.
fn spirit_min() -> SchemaSource {
    SchemaSource {
        types: vec![
            newtype_entry("Topic", plain("String")),
            newtype_entry("Description", plain("String")),
            struct_entry("Summary", vec![derived("Topic")]),
            enum_entry("Kind"),
            enum_entry("Magnitude"),
            newtype_entry("Topics", SourceReference::SingleTypeApplication),
            newtype_entry("RecordIdentifier", plain("Integer")),
            struct_entry("Entry", vec![derived("Topic"), derived("Description"), derived("Kind")]),
            newtype_entry("RecordSet", SourceReference::SingleTypeApplication),
            struct_entry("Query", vec![derived("Topic"), explicit("limit", plain("Integer"))]),
        ],
    }
}

#[test]
fn spirit_min_migrates_byte_exact_against_the_legacy_golden() {
    let migration = LegacySchemaIngest::migrate_parsed(Ok(spirit_min())).expect("migrate legacy source");

    assert_eq!(
        migration.migrated_names(),
        ["Topic", "Description", "Summary", "RecordIdentifier", "Entry", "Query"],
        "migrated declarations, in schema order",
    );

    let mut excluded: Vec<(&str, &str)> = migration
        .excluded
        .iter()
        .map(|exclusion| (exclusion.name.as_str(), kind_of(&exclusion.reason)))
        .collect();
    excluded.sort();
    assert_eq!(
        excluded,
        [
            ("Kind", "enum"),
            ("Magnitude", "enum"),
            ("RecordSet", "application"),
            ("Topics", "application"),
        ],
        "out-of-subset declarations, named with their typed reasons",
    );
}

#[test]
fn scalar_keywords_become_their_leaves() {
    let migration = migrate(vec![
        newtype_entry("A", plain("String")),
        newtype_entry("B", plain("Integer")),
        newtype_entry("C", plain("Boolean")),
        newtype_entry("D", plain("Bytes")),
    ]);
    assert_eq!(
        migration.schema.declarations,
        vec![
            newtype("A", CoreReference::String),
            newtype("B", CoreReference::Integer),
            newtype("C", CoreReference::Boolean),
            newtype("D", CoreReference::Bytes),
        ]
    );
    assert!(migration.excluded.is_empty());
    assert_eq!(migration.names, vec![spelling("A"), spelling("B"), spelling("C"), spelling("D")]);
}

#[test]
fn path_scalar_is_a_named_exclusion() {
    let migration = migrate(vec![newtype_entry("Location", plain("Path"))]);
    assert!(migration.schema.declarations.is_empty());
    assert_eq!(
        migration.excluded,
        vec![Exclusion { name: s("Location"), reason: BridgeError::UnsupportedScalar(s("Path")) }]
    );
    assert!(migration.names.is_empty());
}

#[test]
fn every_application_form_is_excluded() {
    let forms = vec![
        SourceReference::ValueApplication,
        SourceReference::SingleTypeApplication,
        SourceReference::MultiTypeApplication,
        SourceReference::Application,
    ];
    for form in forms {
        let migration = migrate(vec![newtype_entry("Digest", form)]);
        assert_eq!(
            migration.excluded,
            vec![Exclusion {
                name: s("Digest"),
                reason: BridgeError::UnsupportedApplication(s("Digest")),
            }]
        );
        assert!(migration.schema.declarations.is_empty());
    }
}

#[test]
fn application_in_a_field_names_the_struct() {
    let migration = migrate(vec![struct_entry(
        "Record",
        vec![explicit("topic", plain("Topic")), explicit("items", SourceReference::MultiTypeApplication)],
    )]);
    assert_eq!(
        migration.excluded,
        vec![Exclusion { name: s("Record"), reason: BridgeError::UnsupportedApplication(s("Record")) }]
    );
    // The field before the failing one requested its names; the struct's own name
    // was never requested.
    assert_eq!(migration.names, vec![spelling("Topic"), spelling("topic")]);
}

#[test]
fn enum_and_text_declarations_are_excluded() {
    let migration = migrate(vec![
        enum_entry("Colour"),
        SourceTypeEntry { name: s("Notes"), value: SourceDeclarationValue::Text },
    ]);
    assert_eq!(
        migration.excluded,
        vec![
            Exclusion { name: s("Colour"), reason: BridgeError::UnsupportedEnum(s("Colour")) },
            Exclusion { name: s("Notes"), reason: BridgeError::UnsupportedText(s("Notes")) },
        ]
    );
    assert!(migration.names.is_empty());
}

#[test]
fn inline_field_declaration_is_excluded() {
    let migration = migrate(vec![struct_entry(
        "Outer",
        vec![
            derived("Topic"),
            SourceField { name: s("inner"), value: SourceFieldValue::Declaration },
        ],
    )]);
    assert_eq!(
        migration.excluded,
        vec![Exclusion { name: s("Outer"), reason: BridgeError::UnsupportedInlineField(s("Outer")) }]
    );
}

#[test]
fn one_field_body_is_a_newtype() {
    let migration = migrate(vec![struct_entry("Summary", vec![explicit("text", plain("String"))])]);
    assert_eq!(migration.schema.declarations, vec![newtype("Summary", CoreReference::String)]);
    // The field's own name is not requested: only the newtype's name is.
    assert_eq!(migration.names, vec![spelling("Summary")]);
}

#[test]
fn one_derived_field_body_wraps_the_named_type() {
    let migration = migrate(vec![struct_entry("Wrapper", vec![derived("Topic")])]);
    assert_eq!(
        migration.schema.declarations,
        vec![newtype("Wrapper", CoreReference::Plain(s("Topic")))]
    );
    assert_eq!(migration.names, vec![spelling("Topic"), spelling("Wrapper")]);
}

#[test]
fn struct_fields_keep_or_derive_their_names() {
    let migration = migrate(vec![struct_entry(
        "Entry",
        vec![derived("Topic"), explicit("count", plain("Integer")), derived("Bytes")],
    )]);
    assert_eq!(
        migration.schema.declarations,
        vec![public(CoreType::Struct(CoreStruct {
            name: s("Entry"),
            fields: vec![
                CoreField { name: FieldName::Derived, reference: CoreReference::Plain(s("Topic")) },
                CoreField { name: FieldName::Explicit(s("count")), reference: CoreReference::Integer },
                CoreField { name: FieldName::Derived, reference: CoreReference::Bytes },
            ],
        }))]
    );
    assert_eq!(
        migration.names,
        vec![
            spelling("Topic"),
            InternedName::DerivedFieldName(CoreReference::Plain(s("Topic"))),
            spelling("count"),
            InternedName::DerivedFieldName(CoreReference::Bytes),
            spelling("Entry"),
        ]
    );
}

#[test]
fn empty_body_is_an_empty_struct() {
    let migration = migrate(vec![struct_entry("Unit", vec![])]);
    assert_eq!(
        migration.schema.declarations,
        vec![public(CoreType::Struct(CoreStruct { name: s("Unit"), fields: vec![] }))]
    );
    assert_eq!(migration.migrated_names(), vec![s("Unit")]);
}

#[test]
fn parse_failure_is_fatal() {
    let result = LegacySchemaIngest::migrate_parsed(Err(s("unexpected token")));
    assert_eq!(result, Err(BridgeError::LegacyParse(s("unexpected token"))));
}

#[test]
fn default_ingest_is_fresh() {
    let source = spirit_min();
    let by_default = LegacySchemaIngest::default().migrate_source(&source);
    let by_new = LegacySchemaIngest::new().migrate_source(&source);
    assert_eq!(by_default, by_new);
}

#[test]
fn partition_accounts_for_every_entry() {
    let source = spirit_min();
    let migration = LegacySchemaIngest::new().migrate_source(&source);
    assert_eq!(
        migration.schema.declarations.len() + migration.excluded.len(),
        source.types.len()
    );
    for exclusion in &migration.excluded {
        assert!(kind_of(&exclusion.reason) != "other");
    }
}

#[test]
fn migration_is_entrywise() {
    let source = spirit_min();
    let (first, second) = source.types.split_at(5);
    let whole = migrate(source.types.clone());
    let a = migrate(first.to_vec());
    let b = migrate(second.to_vec());
    let mut declarations = a.schema.declarations.clone();
    declarations.extend(b.schema.declarations.clone());
    let mut excluded = a.excluded.clone();
    excluded.extend(b.excluded.clone());
    let mut names = a.names.clone();
    names.extend(b.names.clone());
    assert_eq!(whole.schema.declarations, declarations);
    assert_eq!(whole.excluded, excluded);
    assert_eq!(whole.names, names);
}

#[test]
fn migrated_names_resolve_through_the_requests() {
    let migration = migrate(spirit_min().types);
    for name in migration.migrated_names() {
        assert!(migration.names.contains(&InternedName::Spelling(name)));
    }
    // A migrated struct may name a type that is itself excluded.
    assert!(migration.names.contains(&spelling("Kind")));
}

fn refusing(types: Vec<SourceTypeEntry>, refused: Vec<RefusedDerivation>) -> Migration {
    LegacySchemaIngest::new().migrate_source_refusing(&SchemaSource { types }, &refused)
}

fn refused_topic() -> Vec<RefusedDerivation> {
    vec![RefusedDerivation {
        reference: CoreReference::Plain(s("Topic")),
        message: s("unknown identifier"),
    }]
}

#[test]
fn refused_derivation_excludes_only_its_declaration() {
    let migration = refusing(
        vec![
            struct_entry("Entry", vec![explicit("count", plain("Integer")), derived("Topic"), derived("Kind")]),
            struct_entry("Query", vec![derived("Kind"), explicit("limit", plain("Integer"))]),
        ],
        refused_topic(),
    );
    assert_eq!(
        migration.excluded,
        vec![Exclusion { name: s("Entry"), reason: BridgeError::NameTable(s("unknown identifier")) }]
    );
    assert_eq!(migration.migrated_names(), vec![s("Query")]);
    // The refused field's name, the fields after it and the struct's own name are
    // never requested.
    assert_eq!(
        migration.names,
        vec![
            spelling("count"),
            spelling("Topic"),
            spelling("Kind"),
            InternedName::DerivedFieldName(CoreReference::Plain(s("Kind"))),
            spelling("limit"),
            spelling("Query"),
        ]
    );
}

#[test]
fn refused_derivation_leaves_a_one_field_newtype_alone() {
    let migration = refusing(vec![struct_entry("Wrapper", vec![derived("Topic")])], refused_topic());
    assert_eq!(
        migration.schema.declarations,
        vec![newtype("Wrapper", CoreReference::Plain(s("Topic")))]
    );
    assert!(migration.excluded.is_empty());
}

#[test]
fn no_refusal_is_migrate_source() {
    let source = spirit_min();
    let plain_run = LegacySchemaIngest::new().migrate_source(&source);
    let refusing_run = LegacySchemaIngest::new().migrate_source_refusing(&source, &vec![]);
    assert_eq!(plain_run, refusing_run);
}
