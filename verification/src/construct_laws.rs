//! What each legacy construct migrates to, stated by the construct's shape: the
//! scalar keywords, `Path`, declared type names, generic applications, inline
//! fields, elided fields and refused derivations, and how fields and
//! declarations are put together from them.

use vstd::prelude::*;

use crate::core_model::{
    refusal, CoreDeclarationView, CoreFieldView, CoreReferenceView, CoreTypeView, FieldNameView,
    InternedNameView, RefusedDerivationView, Visibility,
};
use crate::error::BridgeErrorView;
use crate::ingest::{
    entry_interns, entry_outcome, field_interns, field_outcome, field_reference_interns,
    field_reference_outcome, fields_interns, fields_outcome, plain_reference,
};
use crate::source::{SourceDeclarationValue, SourceField, SourceFieldValue, SourceReference, SourceTypeEntry};

verus! {

/// The spellings the legacy grammar reserves: the four scalar keywords and `Path`.
pub open spec fn is_reserved(spelling: Seq<char>) -> bool {
    ||| spelling == "String"@
    ||| spelling == "Integer"@
    ||| spelling == "Boolean"@
    ||| spelling == "Bytes"@
    ||| spelling == "Path"@
}

/// Whether a legacy reference is one of the generic application forms.
pub open spec fn is_application(reference: SourceReference) -> bool {
    !(reference is Plain)
}

// ---------------------------------------------------------------------------
// Type names.
// ---------------------------------------------------------------------------

/// The scalar keywords become the matching Core leaves, and `Path`, which the
/// Core has no leaf for, is named as an unsupported scalar rather than coerced.
pub proof fn lemma_scalar_keywords()
    ensures
        plain_reference("String"@) == Ok::<CoreReferenceView, BridgeErrorView>(CoreReferenceView::String),
        plain_reference("Integer"@) == Ok::<CoreReferenceView, BridgeErrorView>(CoreReferenceView::Integer),
        plain_reference("Boolean"@) == Ok::<CoreReferenceView, BridgeErrorView>(CoreReferenceView::Boolean),
        plain_reference("Bytes"@) == Ok::<CoreReferenceView, BridgeErrorView>(CoreReferenceView::Bytes),
        plain_reference("Path"@) == Err::<CoreReferenceView, BridgeErrorView>(BridgeErrorView::UnsupportedScalar("Path"@)),
{
    reveal_strlit("String");
    reveal_strlit("Integer");
    reveal_strlit("Boolean");
    reveal_strlit("Bytes");
    reveal_strlit("Path");
    assert("Integer"@ != "String"@) by { assert("Integer"@.len() != "String"@.len()); }
    assert("Boolean"@ != "String"@) by { assert("Boolean"@.len() != "String"@.len()); }
    assert("Boolean"@ != "Integer"@) by { assert("Boolean"@[0] != "Integer"@[0]); }
    assert("Bytes"@ != "String"@) by { assert("Bytes"@.len() != "String"@.len()); }
    assert("Bytes"@ != "Integer"@) by { assert("Bytes"@.len() != "Integer"@.len()); }
    assert("Bytes"@ != "Boolean"@) by { assert("Bytes"@.len() != "Boolean"@.len()); }
    assert("Path"@ != "String"@) by { assert("Path"@.len() != "String"@.len()); }
    assert("Path"@ != "Integer"@) by { assert("Path"@.len() != "Integer"@.len()); }
    assert("Path"@ != "Boolean"@) by { assert("Path"@.len() != "Boolean"@.len()); }
    assert("Path"@ != "Bytes"@) by { assert("Path"@.len() != "Bytes"@.len()); }
}

/// Any other type name is a plain reference to the declared type of that very
/// name.
pub proof fn lemma_declared_type_name(spelling: Seq<char>)
    requires
        !is_reserved(spelling),
    ensures
        plain_reference(spelling) == Ok::<CoreReferenceView, BridgeErrorView>(CoreReferenceView::Plain(spelling)),
{
}

// ---------------------------------------------------------------------------
// Refused derivations.
// ---------------------------------------------------------------------------

proof fn lemma_refusal_none(refused: Seq<RefusedDerivationView>, reference: CoreReferenceView)
    ensures
        refusal(refused, reference) is None <==> forall|k: int| 0 <= k < refused.len() ==> #[trigger] refused[k].reference != reference,
    decreases refused.len(),
{
    if refused.len() > 0 {
        let rest = refused.drop_first();
        lemma_refusal_none(rest, reference);
        if forall|k: int| 0 <= k < rest.len() ==> #[trigger] rest[k].reference != reference {
            if refused[0].reference != reference {
                assert forall|k: int| 0 <= k < refused.len() implies #[trigger] refused[k].reference != reference by {
                    if k > 0 {
                        assert(refused[k] == rest[k - 1]);
                    }
                }
            }
        } else {
            let k = choose|k: int| 0 <= k < rest.len() && #[trigger] rest[k].reference == reference;
            assert(refused[k + 1] == rest[k]);
        }
    }
}

proof fn lemma_refusal_first(refused: Seq<RefusedDerivationView>, reference: CoreReferenceView, k: int)
    requires
        0 <= k < refused.len(),
        refused[k].reference == reference,
        forall|j: int| 0 <= j < k ==> #[trigger] refused[j].reference != reference,
    ensures
        refusal(refused, reference) == Some(refused[k].message),
    decreases k,
{
    if k > 0 {
        let rest = refused.drop_first();
        assert(refused[0].reference != reference);
        assert(rest[k - 1] == refused[k]);
        assert forall|j: int| 0 <= j < k - 1 implies #[trigger] rest[j].reference != reference by {
            assert(rest[j] == refused[j + 1]);
        }
        lemma_refusal_first(rest, reference, k - 1);
    }
}

/// A reference is refused exactly when some refused derivation names it, and
/// then with the message of the first one that does, wherever it stands.
pub proof fn lemma_refusal_is_first_match(refused: Seq<RefusedDerivationView>, reference: CoreReferenceView)
    ensures
        refusal(refused, reference) is None <==> forall|k: int| 0 <= k < refused.len() ==> #[trigger] refused[k].reference != reference,
        forall|k: int| 0 <= k < refused.len() && #[trigger] refused[k].reference == reference
            && (forall|j: int| 0 <= j < k ==> refused[j].reference != reference)
            ==> refusal(refused, reference) == Some(refused[k].message),
{
    lemma_refusal_none(refused, reference);
    assert forall|k: int| 0 <= k < refused.len() && #[trigger] refused[k].reference == reference
        && (forall|j: int| 0 <= j < k ==> refused[j].reference != reference)
        implies refusal(refused, reference) == Some(refused[k].message) by {
        lemma_refusal_first(refused, reference, k);
    }
}

// ---------------------------------------------------------------------------
// Fields.
// ---------------------------------------------------------------------------

/// The reference a field carries comes from its type alone: an explicit field's
/// plain type name, or an elided field's own name (which is its type name),
/// classified as a type name; an explicit generic application and an inline
/// declaration fail, naming the declaration that holds the field.
pub proof fn lemma_field_reference(field: SourceField, owner: Seq<char>)
    ensures
        field.value matches SourceFieldValue::Reference(SourceReference::Plain(t))
            ==> field_reference_outcome(field, owner) == plain_reference(t@),
        field.value is Derived ==> field_reference_outcome(field, owner) == plain_reference(field.name@),
        field.value matches SourceFieldValue::Reference(r) ==> (is_application(r)
            ==> field_reference_outcome(field, owner) == Err::<CoreReferenceView, BridgeErrorView>(BridgeErrorView::UnsupportedApplication(owner))),
        field.value is Declaration
            ==> field_reference_outcome(field, owner) == Err::<CoreReferenceView, BridgeErrorView>(BridgeErrorView::UnsupportedInlineField(owner)),
{
}

/// What one struct field migrates to:
/// - an explicit field `f T` keeps its name `f` and refers to what `T` names: the
///   declared type `T` itself, or the leaf of a scalar keyword; `Path` and a
///   generic application fail;
/// - an elided field `T` stores the name its reference derives and refers to
///   `T`, unless the name table refuses that derivation, when it fails with the
///   table's message;
/// - an inline declaration fails.
pub proof fn lemma_field(field: SourceField, owner: Seq<char>, refused: Seq<RefusedDerivationView>)
    ensures
        field.value matches SourceFieldValue::Reference(SourceReference::Plain(t)) ==> (!is_reserved(t@)
            ==> field_outcome(field, owner, refused) == Ok::<CoreFieldView, BridgeErrorView>(CoreFieldView {
                name: FieldNameView::Explicit(field.name@),
                reference: CoreReferenceView::Plain(t@),
            })),
        field.value matches SourceFieldValue::Reference(SourceReference::Plain(t)) ==> (plain_reference(t@) is Ok
            ==> field_outcome(field, owner, refused) == Ok::<CoreFieldView, BridgeErrorView>(CoreFieldView {
                name: FieldNameView::Explicit(field.name@),
                reference: plain_reference(t@)->Ok_0,
            })),
        field.value matches SourceFieldValue::Reference(SourceReference::Plain(t)) ==> (t@ == "Path"@
            ==> field_outcome(field, owner, refused) == Err::<CoreFieldView, BridgeErrorView>(BridgeErrorView::UnsupportedScalar("Path"@))),
        field.value matches SourceFieldValue::Reference(r) ==> (is_application(r)
            ==> field_outcome(field, owner, refused) == Err::<CoreFieldView, BridgeErrorView>(BridgeErrorView::UnsupportedApplication(owner))),
        field.value is Declaration
            ==> field_outcome(field, owner, refused) == Err::<CoreFieldView, BridgeErrorView>(BridgeErrorView::UnsupportedInlineField(owner)),
        field.value is Derived && field.name@ == "Path"@
            ==> field_outcome(field, owner, refused) == Err::<CoreFieldView, BridgeErrorView>(BridgeErrorView::UnsupportedScalar("Path"@)),
        field.value is Derived && plain_reference(field.name@) is Ok
            ==> field_outcome(field, owner, refused) == match refusal(refused, plain_reference(field.name@)->Ok_0) {
                Some(m) => Err::<CoreFieldView, BridgeErrorView>(BridgeErrorView::NameTable(m)),
                None => Ok(CoreFieldView { name: FieldNameView::Derived, reference: plain_reference(field.name@)->Ok_0 }),
            },
        field.value is Derived && !is_reserved(field.name@)
            && (forall|k: int| 0 <= k < refused.len() ==> #[trigger] refused[k].reference != CoreReferenceView::Plain(field.name@))
            ==> field_outcome(field, owner, refused) == Ok::<CoreFieldView, BridgeErrorView>(CoreFieldView {
                name: FieldNameView::Derived,
                reference: CoreReferenceView::Plain(field.name@),
            }),
{
    lemma_scalar_keywords();
    lemma_refusal_is_first_match(refused, CoreReferenceView::Plain(field.name@));
}

/// A field refused by any refused derivation, first or not, fails with the
/// message of the first refused derivation that names its reference.
pub proof fn lemma_refused_field(field: SourceField, owner: Seq<char>, refused: Seq<RefusedDerivationView>, k: int)
    requires
        field.value is Derived,
        !is_reserved(field.name@),
        0 <= k < refused.len(),
        refused[k].reference == CoreReferenceView::Plain(field.name@),
        forall|j: int| 0 <= j < k ==> refused[j].reference != CoreReferenceView::Plain(field.name@),
    ensures
        field_outcome(field, owner, refused) == Err::<CoreFieldView, BridgeErrorView>(BridgeErrorView::NameTable(refused[k].message)),
{
    lemma_refusal_is_first_match(refused, CoreReferenceView::Plain(field.name@));
}

/// The fields of a struct body migrate one by one, in order: where every field
/// migrates, the body is those fields, field `i` being what source field `i`
/// migrates to; otherwise the body fails with the reason of its first failing
/// field.
pub proof fn lemma_fields(fields: Seq<SourceField>, owner: Seq<char>, refused: Seq<RefusedDerivationView>)
    ensures
        (forall|i: int| 0 <= i < fields.len() ==> #[trigger] field_outcome(fields[i], owner, refused) is Ok) ==> {
            &&& fields_outcome(fields, owner, refused) is Ok
            &&& fields_outcome(fields, owner, refused)->Ok_0.len() == fields.len()
            &&& forall|i: int| 0 <= i < fields.len() ==> field_outcome(fields[i], owner, refused)
                == Ok::<CoreFieldView, BridgeErrorView>(#[trigger] fields_outcome(fields, owner, refused)->Ok_0[i])
        },
        forall|i: int| 0 <= i < fields.len() && #[trigger] field_outcome(fields[i], owner, refused) is Err
            && (forall|j: int| 0 <= j < i ==> field_outcome(fields[j], owner, refused) is Ok)
            ==> fields_outcome(fields, owner, refused) == Err::<Seq<CoreFieldView>, BridgeErrorView>(field_outcome(fields[i], owner, refused)->Err_0),
    decreases fields.len(),
{
    if fields.len() > 0 {
        let prefix = fields.drop_last();
        let last = fields.len() - 1;
        lemma_fields(prefix, owner, refused);
        assert forall|i: int| 0 <= i < prefix.len() implies #[trigger] prefix[i] == fields[i] by {}
        assert(fields.last() == fields[last]);
        if forall|i: int| 0 <= i < fields.len() ==> #[trigger] field_outcome(fields[i], owner, refused) is Ok {
            assert forall|i: int| 0 <= i < prefix.len() implies #[trigger] field_outcome(prefix[i], owner, refused) is Ok by {
                assert(field_outcome(fields[i], owner, refused) is Ok);
            }
            assert(field_outcome(fields[last], owner, refused) is Ok);
            let v = fields_outcome(fields, owner, refused)->Ok_0;
            let pv = fields_outcome(prefix, owner, refused)->Ok_0;
            assert forall|i: int| 0 <= i < fields.len() implies field_outcome(fields[i], owner, refused)
                == Ok::<CoreFieldView, BridgeErrorView>(#[trigger] fields_outcome(fields, owner, refused)->Ok_0[i]) by {
                if i < last {
                    assert(v[i] == pv[i]);
                    assert(field_outcome(prefix[i], owner, refused) == Ok::<CoreFieldView, BridgeErrorView>(pv[i]));
                }
            }
        }
        assert forall|i: int| 0 <= i < fields.len() && #[trigger] field_outcome(fields[i], owner, refused) is Err
            && (forall|j: int| 0 <= j < i ==> field_outcome(fields[j], owner, refused) is Ok)
            implies fields_outcome(fields, owner, refused) == Err::<Seq<CoreFieldView>, BridgeErrorView>(field_outcome(fields[i], owner, refused)->Err_0) by {
            if i < last {
                assert(field_outcome(prefix[i], owner, refused) is Err);
                assert forall|j: int| 0 <= j < i implies field_outcome(prefix[j], owner, refused) is Ok by {
                    assert(field_outcome(fields[j], owner, refused) is Ok);
                }
            } else {
                assert forall|j: int| 0 <= j < prefix.len() implies #[trigger] field_outcome(prefix[j], owner, refused) is Ok by {
                    assert(field_outcome(fields[j], owner, refused) is Ok);
                }
            }
        }
    }
}

// ---------------------------------------------------------------------------
// Declarations.
// ---------------------------------------------------------------------------

/// What one legacy declaration `N` migrates to, always as a public declaration:
/// - `N T` (a plain reference) is a newtype named `N` over what `T` names: the
///   declared type `T` itself, or the leaf of a scalar keyword; over `Path` it is
///   excluded as an unsupported scalar;
/// - `N` over a generic application is excluded, naming `N`;
/// - a one-field brace body is a newtype named `N` over that field's reference;
/// - any other brace body is a struct named `N` whose fields are what its fields
///   migrate to, or fails as its fields do;
/// - an enum or a pipe-text is excluded, naming `N`.
pub proof fn lemma_declaration(entry: SourceTypeEntry, refused: Seq<RefusedDerivationView>)
    ensures
        entry.value matches SourceDeclarationValue::Reference(SourceReference::Plain(t)) ==> (!is_reserved(t@)
            ==> entry_outcome(entry, refused) == Ok::<CoreDeclarationView, BridgeErrorView>(CoreDeclarationView {
                visibility: Visibility::Public,
                value: CoreTypeView::Newtype { name: entry.name@, wrapped: CoreReferenceView::Plain(t@) },
            })),
        entry.value matches SourceDeclarationValue::Reference(SourceReference::Plain(t)) ==> (plain_reference(t@) is Ok
            ==> entry_outcome(entry, refused) == Ok::<CoreDeclarationView, BridgeErrorView>(CoreDeclarationView {
                visibility: Visibility::Public,
                value: CoreTypeView::Newtype { name: entry.name@, wrapped: plain_reference(t@)->Ok_0 },
            })),
        entry.value matches SourceDeclarationValue::Reference(SourceReference::Plain(t)) ==> (t@ == "Path"@
            ==> entry_outcome(entry, refused) == Err::<CoreDeclarationView, BridgeErrorView>(BridgeErrorView::UnsupportedScalar("Path"@))),
        entry.value matches SourceDeclarationValue::Reference(r) ==> (is_application(r)
            ==> entry_outcome(entry, refused) == Err::<CoreDeclarationView, BridgeErrorView>(BridgeErrorView::UnsupportedApplication(entry.name@))),
        entry.value matches SourceDeclarationValue::Struct(body) ==> (body.fields@.len() == 1
            ==> entry_outcome(entry, refused) == match field_reference_outcome(body.fields@[0], entry.name@) {
                Ok(wrapped) => Ok::<CoreDeclarationView, BridgeErrorView>(CoreDeclarationView {
                    visibility: Visibility::Public,
                    value: CoreTypeView::Newtype { name: entry.name@, wrapped },
                }),
                Err(e) => Err(e),
            }),
        entry.value matches SourceDeclarationValue::Struct(body) ==> (body.fields@.len() != 1
            ==> entry_outcome(entry, refused) == match fields_outcome(body.fields@, entry.name@, refused) {
                Ok(fields) => Ok::<CoreDeclarationView, BridgeErrorView>(CoreDeclarationView {
                    visibility: Visibility::Public,
                    value: CoreTypeView::Struct { name: entry.name@, fields },
                }),
                Err(e) => Err(e),
            }),
        entry.value is Enum
            ==> entry_outcome(entry, refused) == Err::<CoreDeclarationView, BridgeErrorView>(BridgeErrorView::UnsupportedEnum(entry.name@)),
        entry.value is Text
            ==> entry_outcome(entry, refused) == Err::<CoreDeclarationView, BridgeErrorView>(BridgeErrorView::UnsupportedText(entry.name@)),
{
    lemma_scalar_keywords();
}

// ---------------------------------------------------------------------------
// The names requested from the name table, construct by construct.
// ---------------------------------------------------------------------------

/// Whether a spelling is one of the four scalar keywords.
pub open spec fn is_scalar_keyword(spelling: Seq<char>) -> bool {
    is_reserved(spelling) && spelling != "Path"@
}

/// The names a field requests: an explicit field `f T` requests the declared
/// type `T` (not a keyword) and then its own name `f`; an elided field `T`
/// requests `T` (not a keyword) and then the name its reference derives, unless
/// the table refuses that derivation; `Path`, a generic application and an
/// inline declaration request nothing.
pub proof fn lemma_field_requests(field: SourceField, owner: Seq<char>, refused: Seq<RefusedDerivationView>)
    ensures
        field.value matches SourceFieldValue::Reference(SourceReference::Plain(t)) ==> (!is_reserved(t@)
            ==> field_interns(field, owner, refused) == seq![InternedNameView::Spelling(t@), InternedNameView::Spelling(field.name@)]),
        field.value matches SourceFieldValue::Reference(SourceReference::Plain(t)) ==> (is_scalar_keyword(t@)
            ==> field_interns(field, owner, refused) == seq![InternedNameView::Spelling(field.name@)]),
        field.value matches SourceFieldValue::Reference(SourceReference::Plain(t)) ==> (t@ == "Path"@
            ==> field_interns(field, owner, refused) == Seq::<InternedNameView>::empty()),
        field.value matches SourceFieldValue::Reference(r) ==> (is_application(r)
            ==> field_interns(field, owner, refused) == Seq::<InternedNameView>::empty()),
        field.value is Declaration ==> field_interns(field, owner, refused) == Seq::<InternedNameView>::empty(),
        field.value is Derived && !is_reserved(field.name@) ==> field_interns(field, owner, refused) ==
            if refusal(refused, CoreReferenceView::Plain(field.name@)) is None {
                seq![InternedNameView::Spelling(field.name@), InternedNameView::DerivedFieldName(CoreReferenceView::Plain(field.name@))]
            } else {
                seq![InternedNameView::Spelling(field.name@)]
            },
        field.value is Derived && is_scalar_keyword(field.name@) ==> field_interns(field, owner, refused) ==
            if refusal(refused, plain_reference(field.name@)->Ok_0) is None {
                seq![InternedNameView::DerivedFieldName(plain_reference(field.name@)->Ok_0)]
            } else {
                Seq::<InternedNameView>::empty()
            },
        field.value is Derived && field.name@ == "Path"@ ==> field_interns(field, owner, refused) == Seq::<InternedNameView>::empty(),
{
    lemma_scalar_keywords();
    let name = field.name@;
    assert(Seq::<InternedNameView>::empty() + seq![InternedNameView::Spelling(name)] =~= seq![InternedNameView::Spelling(name)]);
    assert(seq![InternedNameView::Spelling(name)] + Seq::<InternedNameView>::empty() =~= seq![InternedNameView::Spelling(name)]);
    assert(Seq::<InternedNameView>::empty() + Seq::<InternedNameView>::empty() =~= Seq::<InternedNameView>::empty());
    if let SourceFieldValue::Reference(SourceReference::Plain(t)) = field.value {
        assert(seq![InternedNameView::Spelling(t@)] + seq![InternedNameView::Spelling(name)]
            =~= seq![InternedNameView::Spelling(t@), InternedNameView::Spelling(name)]);
    }
    assert(seq![InternedNameView::Spelling(name)] + seq![InternedNameView::DerivedFieldName(CoreReferenceView::Plain(name))]
        =~= seq![InternedNameView::Spelling(name), InternedNameView::DerivedFieldName(CoreReferenceView::Plain(name))]);
    if plain_reference(name) is Ok {
        let leaf = plain_reference(name)->Ok_0;
        assert(Seq::<InternedNameView>::empty() + seq![InternedNameView::DerivedFieldName(leaf)]
            =~= seq![InternedNameView::DerivedFieldName(leaf)]);
    }
}

/// The requests of a run of fields, in order.
pub open spec fn field_requests(fields: Seq<SourceField>, owner: Seq<char>, refused: Seq<RefusedDerivationView>) -> Seq<InternedNameView> {
    fields.map_values(|f: SourceField| field_interns(f, owner, refused)).flatten_alt()
}

/// The fields of a struct body request their names in order: every field's
/// requests where every field migrates, and otherwise the requests of the
/// fields up to and including the first failing one, and none after it.
pub proof fn lemma_fields_requests(fields: Seq<SourceField>, owner: Seq<char>, refused: Seq<RefusedDerivationView>)
    ensures
        (forall|i: int| 0 <= i < fields.len() ==> #[trigger] field_outcome(fields[i], owner, refused) is Ok)
            ==> fields_interns(fields, owner, refused) == field_requests(fields, owner, refused),
        forall|i: int| 0 <= i < fields.len() && #[trigger] field_outcome(fields[i], owner, refused) is Err
            && (forall|j: int| 0 <= j < i ==> field_outcome(fields[j], owner, refused) is Ok)
            ==> fields_interns(fields, owner, refused) == field_requests(fields.take(i + 1), owner, refused),
    decreases fields.len(),
{
    if fields.len() > 0 {
        let prefix = fields.drop_last();
        let last = fields.len() - 1;
        lemma_fields_requests(prefix, owner, refused);
        lemma_fields(prefix, owner, refused);
        assert forall|i: int| 0 <= i < prefix.len() implies #[trigger] prefix[i] == fields[i] by {}
        assert(fields.last() == fields[last]);
        let fi = |f: SourceField| field_interns(f, owner, refused);
        assert(fields.map_values(fi).drop_last() =~= prefix.map_values(fi));
        assert(fields.map_values(fi).last() == fi(fields.last()));
        if forall|i: int| 0 <= i < fields.len() ==> #[trigger] field_outcome(fields[i], owner, refused) is Ok {
            assert forall|i: int| 0 <= i < prefix.len() implies #[trigger] field_outcome(prefix[i], owner, refused) is Ok by {
                assert(field_outcome(fields[i], owner, refused) is Ok);
            }
            assert(field_outcome(fields[last], owner, refused) is Ok);
        }
        assert forall|i: int| 0 <= i < fields.len() && #[trigger] field_outcome(fields[i], owner, refused) is Err
            && (forall|j: int| 0 <= j < i ==> field_outcome(fields[j], owner, refused) is Ok)
            implies fields_interns(fields, owner, refused) == field_requests(fields.take(i + 1), owner, refused) by {
            if i < last {
                assert(field_outcome(prefix[i], owner, refused) is Err);
                assert forall|j: int| 0 <= j < i implies field_outcome(prefix[j], owner, refused) is Ok by {
                    assert(field_outcome(fields[j], owner, refused) is Ok);
                }
                assert(prefix.take(i + 1) =~= fields.take(i + 1));
            } else {
                assert forall|j: int| 0 <= j < prefix.len() implies #[trigger] field_outcome(prefix[j], owner, refused) is Ok by {
                    assert(field_outcome(fields[j], owner, refused) is Ok);
                }
                assert(fields.take(i + 1) =~= fields);
            }
        }
    }
}

/// The reference a one-field body wraps requests only the declared type it
/// names (not a keyword), and nothing for a keyword, `Path`, a generic
/// application or an inline declaration.
pub proof fn lemma_field_reference_requests(field: SourceField)
    ensures
        field.value matches SourceFieldValue::Reference(SourceReference::Plain(t)) ==> (!is_reserved(t@)
            ==> field_reference_interns(field) == seq![InternedNameView::Spelling(t@)]),
        field.value matches SourceFieldValue::Reference(SourceReference::Plain(t)) ==> (is_reserved(t@)
            ==> field_reference_interns(field) == Seq::<InternedNameView>::empty()),
        field.value matches SourceFieldValue::Reference(r) ==> (is_application(r)
            ==> field_reference_interns(field) == Seq::<InternedNameView>::empty()),
        field.value is Declaration ==> field_reference_interns(field) == Seq::<InternedNameView>::empty(),
        field.value is Derived && !is_reserved(field.name@) ==> field_reference_interns(field) == seq![InternedNameView::Spelling(field.name@)],
        field.value is Derived && is_reserved(field.name@) ==> field_reference_interns(field) == Seq::<InternedNameView>::empty(),
{
    lemma_scalar_keywords();
}

/// The names a declaration `N` requests: a newtype over a declared type `T`
/// requests `T` and then `N`, and over a keyword only `N`; a brace body
/// requests what its fields (or its one field's reference) request and then
/// `N` where it migrates; `Path`, a generic application, an enum and a
/// pipe-text request nothing.
pub proof fn lemma_declaration_requests(entry: SourceTypeEntry, refused: Seq<RefusedDerivationView>)
    ensures
        entry.value matches SourceDeclarationValue::Reference(SourceReference::Plain(t)) ==> (!is_reserved(t@)
            ==> entry_interns(entry, refused) == seq![InternedNameView::Spelling(t@), InternedNameView::Spelling(entry.name@)]),
        entry.value matches SourceDeclarationValue::Reference(SourceReference::Plain(t)) ==> (is_scalar_keyword(t@)
            ==> entry_interns(entry, refused) == seq![InternedNameView::Spelling(entry.name@)]),
        entry.value matches SourceDeclarationValue::Reference(SourceReference::Plain(t)) ==> (t@ == "Path"@
            ==> entry_interns(entry, refused) == Seq::<InternedNameView>::empty()),
        entry.value matches SourceDeclarationValue::Reference(r) ==> (is_application(r)
            ==> entry_interns(entry, refused) == Seq::<InternedNameView>::empty()),
        entry.value matches SourceDeclarationValue::Struct(body) ==> (body.fields@.len() == 1
            ==> entry_interns(entry, refused) == field_reference_interns(body.fields@[0])
                + if entry_outcome(entry, refused) is Ok { seq![InternedNameView::Spelling(entry.name@)] } else { Seq::<InternedNameView>::empty() }),
        entry.value matches SourceDeclarationValue::Struct(body) ==> (body.fields@.len() != 1
            ==> entry_interns(entry, refused) == fields_interns(body.fields@, entry.name@, refused)
                + if entry_outcome(entry, refused) is Ok { seq![InternedNameView::Spelling(entry.name@)] } else { Seq::<InternedNameView>::empty() }),
        entry.value is Enum ==> entry_interns(entry, refused) == Seq::<InternedNameView>::empty(),
        entry.value is Text ==> entry_interns(entry, refused) == Seq::<InternedNameView>::empty(),
{
    lemma_scalar_keywords();
    let name = entry.name@;
    assert(Seq::<InternedNameView>::empty() + seq![InternedNameView::Spelling(name)] =~= seq![InternedNameView::Spelling(name)]);
    assert(Seq::<InternedNameView>::empty() + Seq::<InternedNameView>::empty() =~= Seq::<InternedNameView>::empty());
    if let SourceDeclarationValue::Reference(SourceReference::Plain(t)) = entry.value {
        assert(seq![InternedNameView::Spelling(t@)] + seq![InternedNameView::Spelling(name)]
            =~= seq![InternedNameView::Spelling(t@), InternedNameView::Spelling(name)]);
    }
}

} // verus!
