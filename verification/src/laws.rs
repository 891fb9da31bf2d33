//! Laws of the migration, proved over the model the ingestion's contracts use.
//! Each law holds for every set of refused derivations.

use vstd::prelude::*;

use crate::core_model::{
    refusal, CoreDeclarationView, CoreFieldView, CoreReferenceView, CoreTypeView, FieldNameView,
    InternedNameView, RefusedDerivationView,
};
use crate::error::{is_subset_boundary, BridgeErrorView};
use crate::ingest::{
    entry_interns, entry_outcome, excluded_declarations, field_interns, field_outcome,
    field_reference_interns, field_reference_outcome, fields_interns, fields_outcome,
    migrated_declarations, plain_interns, plain_reference, reference_interns,
    reference_outcome, source_interns, ExclusionView,
};
use crate::source::{SourceDeclarationValue, SourceField, SourceFieldValue, SourceReference, SourceTypeEntry};

verus! {

// ---------------------------------------------------------------------------
// Partition: every entry is accounted for exactly once, in schema order.
// ---------------------------------------------------------------------------

/// Every entry of a types block either migrates or is excluded, never both and
/// never dropped: the migrated declarations and the exclusions together number
/// the entries, each migrated declaration carries the name of an entry that
/// migrates, and each exclusion names an entry with the very reason that entry
/// fails for.
pub proof fn lemma_partition(entries: Seq<SourceTypeEntry>, refused: Seq<RefusedDerivationView>)
    ensures
        migrated_declarations(entries, refused).len() + excluded_declarations(entries, refused).len() == entries.len(),
        forall|i: int| 0 <= i < migrated_declarations(entries, refused).len() ==> exists|j: int|
            0 <= j < entries.len() && entry_outcome(entries[j], refused) == Ok::<CoreDeclarationView, BridgeErrorView>(#[trigger] migrated_declarations(entries, refused)[i]),
        forall|i: int| 0 <= i < excluded_declarations(entries, refused).len() ==> exists|j: int|
            0 <= j < entries.len() && entries[j].name@ == (#[trigger] excluded_declarations(entries, refused)[i]).name
                && entry_outcome(entries[j], refused) == Err::<CoreDeclarationView, BridgeErrorView>(excluded_declarations(entries, refused)[i].reason),
    decreases entries.len(),
{
    if entries.len() > 0 {
        let prefix = entries.drop_last();
        lemma_partition(prefix, refused);
        let last = entries.len() - 1;
        assert(entries[last] == entries.last());
        assert forall|i: int| 0 <= i < migrated_declarations(entries, refused).len() implies exists|j: int|
            0 <= j < entries.len() && entry_outcome(entries[j], refused) == Ok::<CoreDeclarationView, BridgeErrorView>(#[trigger] migrated_declarations(entries, refused)[i]) by {
            if i < migrated_declarations(prefix, refused).len() {
                let j = choose|j: int| 0 <= j < prefix.len() && entry_outcome(prefix[j], refused) == Ok::<CoreDeclarationView, BridgeErrorView>(#[trigger] migrated_declarations(prefix, refused)[i]);
                assert(entries[j] == prefix[j]);
            } else {
                assert(entry_outcome(entries[last], refused) == Ok::<CoreDeclarationView, BridgeErrorView>(migrated_declarations(entries, refused)[i]));
            }
        }
        assert forall|i: int| 0 <= i < excluded_declarations(entries, refused).len() implies exists|j: int|
            0 <= j < entries.len() && entries[j].name@ == (#[trigger] excluded_declarations(entries, refused)[i]).name
                && entry_outcome(entries[j], refused) == Err::<CoreDeclarationView, BridgeErrorView>(excluded_declarations(entries, refused)[i].reason) by {
            if i < excluded_declarations(prefix, refused).len() {
                let j = choose|j: int| 0 <= j < prefix.len() && prefix[j].name@ == (#[trigger] excluded_declarations(prefix, refused)[i]).name
                    && entry_outcome(prefix[j], refused) == Err::<CoreDeclarationView, BridgeErrorView>(excluded_declarations(prefix, refused)[i].reason);
                assert(entries[j] == prefix[j]);
            } else {
                assert(entries[last].name@ == excluded_declarations(entries, refused)[i].name);
            }
        }
    }
}

/// Whether an entry migrates.
pub open spec fn migrates(refused: Seq<RefusedDerivationView>) -> spec_fn(SourceTypeEntry) -> bool {
    |entry: SourceTypeEntry| entry_outcome(entry, refused) is Ok
}

/// Whether an entry is excluded.
pub open spec fn is_excluded(refused: Seq<RefusedDerivationView>) -> spec_fn(SourceTypeEntry) -> bool {
    |entry: SourceTypeEntry| entry_outcome(entry, refused) is Err
}

/// The exclusion an entry that does not migrate becomes.
pub open spec fn exclusion_of(entry: SourceTypeEntry, refused: Seq<RefusedDerivationView>) -> ExclusionView {
    ExclusionView { name: entry.name@, reason: entry_outcome(entry, refused)->Err_0 }
}

/// The split keeps schema order: the names of the migrated declarations are the
/// names of the entries that migrate, in the order of the types block, and the
/// exclusions are the entries that do not migrate, in that order, each with its
/// reason.
pub proof fn lemma_split_keeps_schema_order(entries: Seq<SourceTypeEntry>, refused: Seq<RefusedDerivationView>)
    ensures
        migrated_declarations(entries, refused).map_values(|d: CoreDeclarationView| d.value.name())
            == entries.filter(migrates(refused)).map_values(|e: SourceTypeEntry| e.name@),
        excluded_declarations(entries, refused)
            == entries.filter(is_excluded(refused)).map_values(|e: SourceTypeEntry| exclusion_of(e, refused)),
    decreases entries.len(),
{
    if entries.len() > 0 {
        let prefix = entries.drop_last();
        let last = entries.last();
        lemma_split_keeps_schema_order(prefix, refused);
        let pm = migrated_declarations(prefix, refused);
        let pf = prefix.filter(migrates(refused));
        let px = prefix.filter(is_excluded(refused));
        assert(prefix.push(last) =~= entries);
        prefix.lemma_filter_push(last, migrates(refused));
        prefix.lemma_filter_push(last, is_excluded(refused));
        if let Ok(d) = entry_outcome(last, refused) {
            assert(d.value.name() == last.name@);
            assert(migrates(refused)(last));
            assert(!is_excluded(refused)(last));
            assert(migrated_declarations(entries, refused) == pm.push(d));
            assert(entries.filter(migrates(refused)) == pf.push(last));
            assert(pm.push(d).map_values(|d: CoreDeclarationView| d.value.name())
                =~= pm.map_values(|d: CoreDeclarationView| d.value.name()).push(d.value.name()));
            assert(pf.push(last).map_values(|e: SourceTypeEntry| e.name@)
                =~= pf.map_values(|e: SourceTypeEntry| e.name@).push(last.name@));
            assert(entries.filter(is_excluded(refused)) == px);
        } else {
            assert(!migrates(refused)(last));
            assert(is_excluded(refused)(last));
            assert(entries.filter(migrates(refused)) == pf);
            assert(entries.filter(is_excluded(refused)) == px.push(last));
            assert(px.push(last).map_values(|e: SourceTypeEntry| exclusion_of(e, refused))
                =~= px.map_values(|e: SourceTypeEntry| exclusion_of(e, refused)).push(exclusion_of(last, refused)));
        }
    }
}

// ---------------------------------------------------------------------------
// Exclusions are named: the edge of the subset, or a refused derivation.
// ---------------------------------------------------------------------------

/// A reason an exclusion may carry: one that marks the edge of the subset, or a
/// name-table failure whose message is that of a refused derivation.
pub open spec fn is_named_reason(error: BridgeErrorView, refused: Seq<RefusedDerivationView>) -> bool {
    ||| is_subset_boundary(error)
    ||| error matches BridgeErrorView::NameTable(m) && exists|k: int| 0 <= k < refused.len() && #[trigger] refused[k].message == m
}

proof fn lemma_refusal_is_refused(refused: Seq<RefusedDerivationView>, reference: CoreReferenceView)
    ensures
        refusal(refused, reference) matches Some(m) ==> exists|k: int| 0 <= k < refused.len() && #[trigger] refused[k].message == m,
    decreases refused.len(),
{
    if refused.len() > 0 && refused[0].reference != reference {
        lemma_refusal_is_refused(refused.drop_first(), reference);
        if let Some(m) = refusal(refused, reference) {
            let k = choose|k: int| 0 <= k < refused.drop_first().len() && #[trigger] refused.drop_first()[k].message == m;
            assert(refused[k + 1].message == m);
        }
    }
}

proof fn lemma_plain_failure(spelling: Seq<char>)
    ensures
        plain_reference(spelling) matches Err(e) ==> is_subset_boundary(e),
{
}

proof fn lemma_field_failure(field: SourceField, owner: Seq<char>, refused: Seq<RefusedDerivationView>)
    ensures
        field_outcome(field, owner, refused) matches Err(e) ==> is_named_reason(e, refused),
{
    lemma_plain_failure(field.name@);
    if let SourceFieldValue::Reference(SourceReference::Plain(name)) = field.value {
        lemma_plain_failure(name@);
    }
    if let Ok(reference) = field_reference_outcome(field, owner) {
        lemma_refusal_is_refused(refused, reference);
    }
}

proof fn lemma_fields_failure(fields: Seq<SourceField>, owner: Seq<char>, refused: Seq<RefusedDerivationView>)
    ensures
        fields_outcome(fields, owner, refused) matches Err(e) ==> is_named_reason(e, refused),
    decreases fields.len(),
{
    if fields.len() > 0 {
        lemma_fields_failure(fields.drop_last(), owner, refused);
        lemma_field_failure(fields.last(), owner, refused);
    }
}

/// An entry that does not migrate fails only for a named reason: the edge of the
/// subset, or a derivation the name table refuses; never a parse failure.
pub proof fn lemma_entry_failure_is_named(entry: SourceTypeEntry, refused: Seq<RefusedDerivationView>)
    ensures
        entry_outcome(entry, refused) matches Err(e) ==> is_named_reason(e, refused),
{
    match entry.value {
        SourceDeclarationValue::Reference(SourceReference::Plain(name)) => lemma_plain_failure(name@),
        SourceDeclarationValue::Struct(body) => {
            lemma_fields_failure(body.fields@, entry.name@, refused);
            if body.fields@.len() == 1 {
                let field = body.fields@[0];
                lemma_plain_failure(field.name@);
                match field.value {
                    SourceFieldValue::Reference(SourceReference::Plain(name)) => lemma_plain_failure(name@),
                    _ => {},
                }
            }
        },
        _ => {},
    }
}

/// Every exclusion of a migration is named: with an unsupported scalar,
/// application, enum, text or inline field, or with the message of a derivation
/// the name table refuses. Where the table refuses none, every exclusion marks
/// the edge of the subset.
pub proof fn lemma_exclusions_are_named(entries: Seq<SourceTypeEntry>, refused: Seq<RefusedDerivationView>)
    ensures
        forall|i: int| 0 <= i < excluded_declarations(entries, refused).len()
            ==> is_named_reason(#[trigger] excluded_declarations(entries, refused)[i].reason, refused),
        refused.len() == 0 ==> forall|i: int| 0 <= i < excluded_declarations(entries, refused).len()
            ==> is_subset_boundary(#[trigger] excluded_declarations(entries, refused)[i].reason),
    decreases entries.len(),
{
    if entries.len() > 0 {
        lemma_exclusions_are_named(entries.drop_last(), refused);
        lemma_entry_failure_is_named(entries.last(), refused);
    }
}

// ---------------------------------------------------------------------------
// Compositionality: entries migrate independently of one another.
// ---------------------------------------------------------------------------

/// Migrating two types blocks one after the other is migrating their
/// concatenation: no entry's outcome, and no name it requests, depends on the
/// entries around it; a failing declaration never disturbs another.
pub proof fn lemma_migration_is_entrywise(first: Seq<SourceTypeEntry>, second: Seq<SourceTypeEntry>, refused: Seq<RefusedDerivationView>)
    ensures
        migrated_declarations(first + second, refused) == migrated_declarations(first, refused) + migrated_declarations(second, refused),
        excluded_declarations(first + second, refused) == excluded_declarations(first, refused) + excluded_declarations(second, refused),
        source_interns(first + second, refused) == source_interns(first, refused) + source_interns(second, refused),
    decreases second.len(),
{
    if second.len() == 0 {
        assert(first + second =~= first);
        assert(migrated_declarations(first, refused) + migrated_declarations(second, refused) =~= migrated_declarations(first, refused));
        assert(excluded_declarations(first, refused) + excluded_declarations(second, refused) =~= excluded_declarations(first, refused));
        assert(source_interns(first, refused) + source_interns(second, refused) =~= source_interns(first, refused));
    } else {
        let whole = first + second;
        assert(whole.drop_last() =~= first + second.drop_last());
        assert(whole.last() == second.last());
        lemma_migration_is_entrywise(first, second.drop_last(), refused);
        assert(migrated_declarations(whole, refused) =~= migrated_declarations(first, refused) + migrated_declarations(second, refused));
        assert(excluded_declarations(whole, refused) =~= excluded_declarations(first, refused) + excluded_declarations(second, refused));
        assert(source_interns(whole, refused) =~= source_interns(first, refused) + source_interns(second, refused));
    }
}

// ---------------------------------------------------------------------------
// Fields and names.
// ---------------------------------------------------------------------------

/// An explicit field's reference does not depend on the field's name: two
/// fields with the same reference give the same reference, or fail alike, and
/// request the same names for it.
pub proof fn lemma_explicit_reference_ignores_field_name(first: SourceField, second: SourceField, owner: Seq<char>)
    requires
        first.value is Reference,
        second.value == first.value,
    ensures
        field_reference_outcome(first, owner) == field_reference_outcome(second, owner),
        field_reference_interns(first) == field_reference_interns(second),
{
}

/// Classifying a plain type name depends on the spelling alone, so classifying
/// the same spelling again gives the same result; it asks the name table for
/// that spelling only (where it names a declared type, which it then refers to
/// by that spelling) or for nothing (a scalar keyword, or `Path`).
pub proof fn lemma_plain_classification(spelling: Seq<char>)
    ensures
        plain_reference(spelling) matches Ok(CoreReferenceView::Plain(s)) ==> s == spelling
            && plain_interns(spelling) == seq![InternedNameView::Spelling(spelling)],
        !(plain_reference(spelling) matches Ok(CoreReferenceView::Plain(_))) ==> plain_interns(spelling) == Seq::<InternedNameView>::empty(),
{
}

// ---------------------------------------------------------------------------
// Brace bodies: one field is a newtype, any other count is a struct.
// ---------------------------------------------------------------------------

proof fn lemma_fields_length(fields: Seq<SourceField>, owner: Seq<char>, refused: Seq<RefusedDerivationView>)
    ensures
        fields_outcome(fields, owner, refused) matches Ok(v) ==> v.len() == fields.len(),
    decreases fields.len(),
{
    if fields.len() > 0 {
        lemma_fields_length(fields.drop_last(), owner, refused);
    }
}

/// A brace body that migrates keeps its shape: a single field makes a newtype
/// over that field's reference, and any other number of fields makes a struct
/// with exactly that many fields.
pub proof fn lemma_brace_body_shape(entry: SourceTypeEntry, refused: Seq<RefusedDerivationView>)
    requires
        entry.value is Struct,
        entry_outcome(entry, refused) is Ok,
    ensures
        ({
            let fields = entry.value->Struct_0.fields@;
            let declared = entry_outcome(entry, refused)->Ok_0.value;
            if fields.len() == 1 {
                declared == CoreTypeView::Newtype {
                    name: entry.name@,
                    wrapped: field_reference_outcome(fields[0], entry.name@)->Ok_0,
                }
            } else {
                declared is Struct && declared->Struct_fields.len() == fields.len()
            }
        }),
{
    let fields = entry.value->Struct_0.fields@;
    lemma_fields_length(fields, entry.name@, refused);
}

// ---------------------------------------------------------------------------
// Resolution: every name a migrated declaration uses was requested.
// ---------------------------------------------------------------------------

/// A reference resolves in a request log when its plain spelling was requested.
pub open spec fn reference_resolves(reference: CoreReferenceView, log: Seq<InternedNameView>) -> bool {
    match reference {
        CoreReferenceView::Plain(s) => log.contains(InternedNameView::Spelling(s)),
        _ => true,
    }
}

/// A field resolves when its reference does and its stored name was requested:
/// its own spelling, or the name its reference derives.
pub open spec fn field_resolves(field: CoreFieldView, log: Seq<InternedNameView>) -> bool {
    &&& reference_resolves(field.reference, log)
    &&& match field.name {
        FieldNameView::Explicit(s) => log.contains(InternedNameView::Spelling(s)),
        FieldNameView::Derived => log.contains(InternedNameView::DerivedFieldName(field.reference)),
    }
}

/// A declaration resolves when its name, and every name its body uses, was
/// requested.
pub open spec fn declaration_resolves(declaration: CoreDeclarationView, log: Seq<InternedNameView>) -> bool {
    &&& log.contains(InternedNameView::Spelling(declaration.value.name()))
    &&& match declaration.value {
        CoreTypeView::Newtype { wrapped, .. } => reference_resolves(wrapped, log),
        CoreTypeView::Struct { fields, .. } => forall|i: int| 0 <= i < fields.len() ==> field_resolves(#[trigger] fields[i], log),
    }
}

proof fn lemma_contains_concat(a: Seq<InternedNameView>, b: Seq<InternedNameView>, x: InternedNameView)
    ensures
        a.contains(x) ==> (a + b).contains(x) && (b + a).contains(x),
{
    if a.contains(x) {
        let i = choose|i: int| 0 <= i < a.len() && a[i] == x;
        assert((a + b)[i] == x);
        assert((b + a)[b.len() + i] == x);
    }
}

proof fn lemma_reference_resolves_extend(r: CoreReferenceView, a: Seq<InternedNameView>, b: Seq<InternedNameView>)
    ensures
        reference_resolves(r, a) ==> reference_resolves(r, a + b) && reference_resolves(r, b + a),
{
    if let CoreReferenceView::Plain(s) = r {
        lemma_contains_concat(a, b, InternedNameView::Spelling(s));
    }
}

proof fn lemma_field_resolves_extend(f: CoreFieldView, a: Seq<InternedNameView>, b: Seq<InternedNameView>)
    ensures
        field_resolves(f, a) ==> field_resolves(f, a + b) && field_resolves(f, b + a),
{
    lemma_reference_resolves_extend(f.reference, a, b);
    match f.name {
        FieldNameView::Explicit(s) => lemma_contains_concat(a, b, InternedNameView::Spelling(s)),
        FieldNameView::Derived => lemma_contains_concat(a, b, InternedNameView::DerivedFieldName(f.reference)),
    }
}

proof fn lemma_declaration_resolves_extend(d: CoreDeclarationView, a: Seq<InternedNameView>, b: Seq<InternedNameView>)
    ensures
        declaration_resolves(d, a) ==> declaration_resolves(d, a + b) && declaration_resolves(d, b + a),
{
    if declaration_resolves(d, a) {
        lemma_contains_concat(a, b, InternedNameView::Spelling(d.value.name()));
        match d.value {
            CoreTypeView::Newtype { wrapped, .. } => lemma_reference_resolves_extend(wrapped, a, b),
            CoreTypeView::Struct { fields, .. } => {
                assert forall|i: int| 0 <= i < fields.len() implies field_resolves(#[trigger] fields[i], a + b)
                    && field_resolves(fields[i], b + a) by {
                    lemma_field_resolves_extend(fields[i], a, b);
                }
            },
        }
    }
}

proof fn lemma_plain_resolves(spelling: Seq<char>)
    ensures
        plain_reference(spelling) matches Ok(r) ==> reference_resolves(r, plain_interns(spelling)),
{
    if let Ok(CoreReferenceView::Plain(s)) = plain_reference(spelling) {
        assert(plain_interns(spelling)[0] == InternedNameView::Spelling(s));
    }
}

proof fn lemma_field_reference_resolves(field: SourceField, owner: Seq<char>)
    ensures
        field_reference_outcome(field, owner) matches Ok(r) ==> reference_resolves(r, field_reference_interns(field)),
{
    lemma_plain_resolves(field.name@);
    if let SourceFieldValue::Reference(SourceReference::Plain(name)) = field.value {
        lemma_plain_resolves(name@);
    }
}

proof fn lemma_field_resolves(field: SourceField, owner: Seq<char>, refused: Seq<RefusedDerivationView>)
    ensures
        field_outcome(field, owner, refused) matches Ok(f) ==> field_resolves(f, field_interns(field, owner, refused)),
{
    if let Ok(f) = field_outcome(field, owner, refused) {
        let head = field_reference_interns(field);
        let tail = field_interns(field, owner, refused).subrange(head.len() as int, field_interns(field, owner, refused).len() as int);
        assert(field_interns(field, owner, refused) =~= head + tail);
        lemma_field_reference_resolves(field, owner);
        lemma_reference_resolves_extend(f.reference, head, tail);
        assert(tail[0] == match f.name {
            FieldNameView::Explicit(s) => InternedNameView::Spelling(s),
            FieldNameView::Derived => InternedNameView::DerivedFieldName(f.reference),
        });
        assert(field_interns(field, owner, refused)[head.len() as int] == tail[0]);
    }
}

proof fn lemma_fields_resolve(fields: Seq<SourceField>, owner: Seq<char>, refused: Seq<RefusedDerivationView>)
    ensures
        fields_outcome(fields, owner, refused) matches Ok(v) ==> forall|i: int| 0 <= i < v.len()
            ==> field_resolves(#[trigger] v[i], fields_interns(fields, owner, refused)),
    decreases fields.len(),
{
    if fields.len() > 0 {
        let prefix = fields.drop_last();
        lemma_fields_resolve(prefix, owner, refused);
        if let Ok(v) = fields_outcome(fields, owner, refused) {
            let before = fields_interns(prefix, owner, refused);
            let own = field_interns(fields.last(), owner, refused);
            lemma_field_resolves(fields.last(), owner, refused);
            let pv = fields_outcome(prefix, owner, refused)->Ok_0;
            assert forall|i: int| 0 <= i < v.len() implies field_resolves(#[trigger] v[i], fields_interns(fields, owner, refused)) by {
                if i < pv.len() {
                    assert(v[i] == pv[i]);
                    lemma_field_resolves_extend(pv[i], before, own);
                } else {
                    lemma_field_resolves_extend(v[i], own, before);
                }
            }
        }
    }
}

proof fn lemma_entry_resolves(entry: SourceTypeEntry, refused: Seq<RefusedDerivationView>)
    ensures
        entry_outcome(entry, refused) matches Ok(d) ==> declaration_resolves(d, entry_interns(entry, refused)),
{
    if let Ok(d) = entry_outcome(entry, refused) {
        let name = entry.name@;
        let own = seq![InternedNameView::Spelling(name)];
        assert(own[0] == InternedNameView::Spelling(name));
        match entry.value {
            SourceDeclarationValue::Reference(reference) => {
                let head = reference_interns(reference);
                lemma_contains_concat(own, head, InternedNameView::Spelling(name));
                match reference {
                    SourceReference::Plain(n) => lemma_plain_resolves(n@),
                    _ => {},
                }
                lemma_reference_resolves_extend(d.value->Newtype_wrapped, head, own);
            },
            SourceDeclarationValue::Struct(body) => {
                if body.fields@.len() == 1 {
                    let head = field_reference_interns(body.fields@[0]);
                    lemma_contains_concat(own, head, InternedNameView::Spelling(name));
                    lemma_field_reference_resolves(body.fields@[0], name);
                    lemma_reference_resolves_extend(d.value->Newtype_wrapped, head, own);
                } else {
                    let head = fields_interns(body.fields@, name, refused);
                    lemma_contains_concat(own, head, InternedNameView::Spelling(name));
                    lemma_fields_resolve(body.fields@, name, refused);
                    let fs = d.value->Struct_fields;
                    assert forall|i: int| 0 <= i < fs.len() implies field_resolves(#[trigger] fs[i], entry_interns(entry, refused)) by {
                        lemma_field_resolves_extend(fs[i], head, own);
                    }
                }
            },
            _ => {},
        }
    }
}

/// Every name a migrated declaration uses (its own name, the types its
/// references name, its fields' stored names) is among the names the migration
/// requested from the name table, so every identifier of the migrated schema
/// resolves through that table.
pub proof fn lemma_migrated_declarations_resolve(entries: Seq<SourceTypeEntry>, refused: Seq<RefusedDerivationView>)
    ensures
        forall|i: int| 0 <= i < migrated_declarations(entries, refused).len()
            ==> declaration_resolves(#[trigger] migrated_declarations(entries, refused)[i], source_interns(entries, refused)),
    decreases entries.len(),
{
    if entries.len() > 0 {
        let prefix = entries.drop_last();
        lemma_migrated_declarations_resolve(prefix, refused);
        lemma_entry_resolves(entries.last(), refused);
        let before = source_interns(prefix, refused);
        let own = entry_interns(entries.last(), refused);
        let pm = migrated_declarations(prefix, refused);
        assert forall|i: int| 0 <= i < migrated_declarations(entries, refused).len()
            implies declaration_resolves(#[trigger] migrated_declarations(entries, refused)[i], source_interns(entries, refused)) by {
            if i < pm.len() {
                assert(migrated_declarations(entries, refused)[i] == pm[i]);
                lemma_declaration_resolves_extend(pm[i], before, own);
            } else {
                lemma_declaration_resolves_extend(migrated_declarations(entries, refused)[i], own, before);
            }
        }
    }
}

} // verus!
