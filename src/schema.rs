//! The schema of the index: the ten fields of a record and how each is
//! indexed and stored.
use crate::engine::{
    add_text_field, add_u64_field, build, builder_fields, field_handle, field_with_id, indexing_record,
    indexing_tokenizer, numeric_fast, numeric_fieldnorms, numeric_indexed, numeric_options, numeric_stored,
    schema_builder, schema_fields, text_indexed, text_indexing, text_options, text_stored,
    numeric_policy, text_policy, FieldDecl, FieldKind, IndexingPolicy, NumericPolicy, TextPolicy,
};
use crate::fields::{field_text, lemma_field_texts, FieldName};
use tantivy::schema::{IndexRecordOption, Schema, SchemaBuilder, TextOptions};
use vstd::prelude::*;

verus! {

/// The format version of the documents this library writes. It never
/// decreases from one release to the next.
pub const VERSION: u64 = 7;

/// A numeric field with the given flags.
pub open spec fn numeric_kind(indexed: bool, fieldnorms: bool, stored: bool, fast: bool) -> FieldKind {
    FieldKind::U64(NumericPolicy { indexed, fieldnorms, stored, fast })
}

/// A stored text field indexed as one whole token: only an exact value matches.
pub open spec fn raw_text_kind() -> FieldKind {
    FieldKind::Text(
        TextPolicy {
            indexing: Some(
                IndexingPolicy {
                    tokenizer: "raw"@,
                    record: IndexRecordOption::Basic,
                    fieldnorms: true,
                },
            ),
            stored: true,
        },
    )
}

/// A stored text field indexed as its 2- and 3-character grams, with term
/// positions: substrings match, and matches can be highlighted.
pub open spec fn ngram_text_kind() -> FieldKind {
    FieldKind::Text(
        TextPolicy {
            indexing: Some(
                IndexingPolicy {
                    tokenizer: "ngram2_3"@,
                    record: IndexRecordOption::WithFreqsAndPositions,
                    fieldnorms: true,
                },
            ),
            stored: true,
        },
    )
}

/// The kind that the schema gives each field.
pub open spec fn field_kind(f: FieldName) -> FieldKind {
    match f {
        FieldName::Version => numeric_kind(true, true, true, false),
        FieldName::IndexedAt => numeric_kind(false, false, true, false),
        FieldName::TimestampMs => numeric_kind(false, false, true, true),
        FieldName::Index => numeric_kind(false, false, true, false),
        FieldName::Id | FieldName::ProjectId | FieldName::SessionId => raw_text_kind(),
        FieldName::FilePath | FieldName::Diff | FieldName::Note => ngram_text_kind(),
    }
}

/// The fields in order of declaration.
pub open spec fn field_order() -> Seq<FieldName> {
    seq![
        FieldName::Version,
        FieldName::IndexedAt,
        FieldName::TimestampMs,
        FieldName::Index,
        FieldName::Id,
        FieldName::ProjectId,
        FieldName::SessionId,
        FieldName::FilePath,
        FieldName::Diff,
        FieldName::Note,
    ]
}

/// The names and kinds of a list of fields, without their handles.
pub open spec fn layout(fields: Seq<FieldDecl>) -> Seq<(Seq<char>, FieldKind)> {
    fields.map_values(|d: FieldDecl| (d.name, d.kind))
}

/// The names and kinds of the schema's fields.
pub open spec fn standard_layout() -> Seq<(Seq<char>, FieldKind)> {
    field_order().map_values(|f: FieldName| (field_text(f), field_kind(f)))
}

/// No two fields share a handle.
pub open spec fn handles_distinct(fields: Seq<FieldDecl>) -> bool {
    forall|i: int, j: int|
        0 <= i < fields.len() && 0 <= j < fields.len() && i != j ==> #[trigger] fields[i].handle
            != #[trigger] fields[j].handle
}

/// Each field carries the handle of its position.
pub open spec fn handles_by_position(fields: Seq<FieldDecl>) -> bool {
    forall|i: int| 0 <= i < fields.len() ==> #[trigger] fields[i].handle == field_with_id(i as u32)
}

/// Whether `s` declares exactly the fields of this library, each as it is
/// declared here, under distinct handles fixed by their positions.
pub open spec fn is_standard_schema(s: Schema) -> bool {
    &&& layout(schema_fields(s)) == standard_layout()
    &&& handles_distinct(schema_fields(s))
    &&& handles_by_position(schema_fields(s))
}

/// The builder holds the first `n` fields of the standard layout.
spec fn builder_holds(b: SchemaBuilder, n: int) -> bool {
    &&& layout(builder_fields(b)) == standard_layout().take(n)
    &&& handles_distinct(builder_fields(b))
    &&& handles_by_position(builder_fields(b))
}

/// The next name of the order is not yet declared in a builder that holds the
/// fields before it.
proof fn lemma_next_name_is_new(b: SchemaBuilder, n: int)
    requires
        0 <= n < 10,
        builder_holds(b, n),
    ensures
        builder_fields(b).len() == n,
        field_handle(builder_fields(b), field_text(field_order()[n])) is None,
{
    let fields = builder_fields(b);
    lemma_field_texts();
    assert(layout(fields).len() == n);
    assert forall|i: int| 0 <= i < fields.len() implies #[trigger] fields[i].name != field_text(
        field_order()[n],
    ) by {
        assert(layout(fields)[i] == standard_layout().take(n)[i]);
        assert(field_order()[i] != field_order()[n]);
    }
}

/// Appending the next field of the order, under a new handle, extends what the
/// builder holds by one.
proof fn lemma_pushed_keeps_layout(before: Seq<FieldDecl>, after: Seq<FieldDecl>, d: FieldDecl, n: int)
    requires
        0 <= n < 10,
        layout(before) == standard_layout().take(n),
        handles_distinct(before),
        handles_by_position(before),
        d.handle == field_with_id(before.len() as u32),
        after == before.push(d),
        d.name == field_text(field_order()[n]),
        d.kind == field_kind(field_order()[n]),
        forall|i: int| 0 <= i < before.len() ==> #[trigger] before[i].handle != d.handle,
    ensures
        layout(after) == standard_layout().take(n + 1),
        handles_distinct(after),
        handles_by_position(after),
{
    assert(layout(before).len() == n);
    assert(layout(after) =~= standard_layout().take(n + 1)) by {
        assert forall|i: int| 0 <= i < n + 1 implies #[trigger] layout(after)[i]
            == standard_layout().take(n + 1)[i] by {
            if i < n {
                assert(layout(before)[i] == standard_layout().take(n)[i]);
                assert(after[i] == before[i]);
            }
        }
    }
    assert forall|i: int, j: int|
        0 <= i < after.len() && 0 <= j < after.len() && i != j implies #[trigger] after[i].handle
        != #[trigger] after[j].handle by {
        if i < before.len() && j < before.len() {
            assert(before[i].handle != before[j].handle);
        } else if i < before.len() {
            assert(before[i].handle != d.handle);
        } else if j < before.len() {
            assert(before[j].handle != d.handle);
        }
    }
}

/// Declares the next field of the order, `f`, as a numeric field.
fn declare_u64(
    b: &mut SchemaBuilder,
    f: FieldName,
    indexed: bool,
    fieldnorms: bool,
    stored: bool,
    fast: bool,
    Ghost(n): Ghost<int>,
)
    requires
        0 <= n < 10,
        field_order()[n] == f,
        field_kind(f) == numeric_kind(indexed, fieldnorms, stored, fast),
        builder_holds(*old(b), n),
    ensures
        builder_holds(*final(b), n + 1),
{
    let mut o = numeric_options();
    if indexed {
        o = numeric_indexed(o);
    }
    if fieldnorms {
        o = numeric_fieldnorms(o);
    }
    if stored {
        o = numeric_stored(o);
    }
    if fast {
        o = numeric_fast(o);
    }
    proof {
        lemma_next_name_is_new(*b, n);
        lemma_field_texts();
    }
    let name = f.as_str();
    let ghost before = builder_fields(*b);
    let handle = add_u64_field(b, name, o);
    proof {
        let d = FieldDecl { name: name@, handle, kind: FieldKind::U64(numeric_policy(o)) };
        lemma_pushed_keeps_layout(before, builder_fields(*b), d, n);
    }
}

/// Declares the next field of the order, `f`, as a text field with options `o`.
fn declare_text(b: &mut SchemaBuilder, f: FieldName, o: TextOptions, Ghost(n): Ghost<int>)
    requires
        0 <= n < 10,
        field_order()[n] == f,
        field_kind(f) == FieldKind::Text(text_policy(o)),
        builder_holds(*old(b), n),
    ensures
        builder_holds(*final(b), n + 1),
{
    proof {
        lemma_next_name_is_new(*b, n);
        lemma_field_texts();
    }
    let name = f.as_str();
    let ghost before = builder_fields(*b);
    let handle = add_text_field(b, name, o);
    proof {
        let d = FieldDecl { name: name@, handle, kind: FieldKind::Text(text_policy(o)) };
        lemma_pushed_keeps_layout(before, builder_fields(*b), d, n);
    }
}

/// Options of a stored text field indexed with the named tokenizer and record
/// option.
fn stored_text_options(tokenizer: &str, record: IndexRecordOption) -> (r: TextOptions)
    ensures
        text_policy(r) == (TextPolicy {
            indexing: Some(IndexingPolicy { tokenizer: tokenizer@, record, fieldnorms: true }),
            stored: true,
        }),
{
    let indexing = indexing_record(indexing_tokenizer(text_indexing(), tokenizer), record);
    text_stored(text_indexed(text_options(), indexing))
}

/// Builds the schema of the index: the ten fields of a record, in a fixed
/// order, each with the indexing and storage that its use calls for.
pub fn build_schema() -> (r: Schema)
    ensures
        is_standard_schema(r),
{
    let mut b = schema_builder();
    assert(layout(builder_fields(b)) =~= standard_layout().take(0));
    declare_u64(&mut b, FieldName::Version, true, true, true, false, Ghost(0));
    declare_u64(&mut b, FieldName::IndexedAt, false, false, true, false, Ghost(1));
    declare_u64(&mut b, FieldName::TimestampMs, false, false, true, true, Ghost(2));
    declare_u64(&mut b, FieldName::Index, false, false, true, false, Ghost(3));
    declare_text(&mut b, FieldName::Id, stored_text_options("raw", IndexRecordOption::Basic), Ghost(4));
    declare_text(&mut b, FieldName::ProjectId, stored_text_options("raw", IndexRecordOption::Basic), Ghost(5));
    declare_text(&mut b, FieldName::SessionId, stored_text_options("raw", IndexRecordOption::Basic), Ghost(6));
    declare_text(
        &mut b,
        FieldName::FilePath,
        stored_text_options("ngram2_3", IndexRecordOption::WithFreqsAndPositions),
        Ghost(7),
    );
    declare_text(
        &mut b,
        FieldName::Diff,
        stored_text_options("ngram2_3", IndexRecordOption::WithFreqsAndPositions),
        Ghost(8),
    );
    declare_text(
        &mut b,
        FieldName::Note,
        stored_text_options("ngram2_3", IndexRecordOption::WithFreqsAndPositions),
        Ghost(9),
    );
    let r = build(b);
    assert(standard_layout().take(10) =~= standard_layout());
    r
}

} // verus!
