//! What holds of the schema and the codec taken together.
use crate::codec::{
    decoded, encoded, first_missing, first_missing_written, lemma_decode_encoded, resolved,
    CodecFailure,
};
use crate::document::{record_valid, IndexRecord};
use crate::engine::{field_handle, first_value_of, schema_fields, FieldDecl};
use crate::fields::{field_text, lemma_field_texts, FieldName};
use crate::schema::{
    field_kind, field_order, is_standard_schema, layout, ngram_text_kind,
    raw_text_kind, standard_layout,
};
use tantivy::schema::Schema;
use vstd::prelude::*;

verus! {

/// Where field `f` stands in the order of declaration.
pub open spec fn position(f: FieldName) -> int {
    match f {
        FieldName::Version => 0,
        FieldName::IndexedAt => 1,
        FieldName::TimestampMs => 2,
        FieldName::Index => 3,
        FieldName::Id => 4,
        FieldName::ProjectId => 5,
        FieldName::SessionId => 6,
        FieldName::FilePath => 7,
        FieldName::Diff => 8,
        FieldName::Note => 9,
    }
}

/// In a schema of the standard layout, field `f` is declared at its position,
/// and its name is declared nowhere else.
proof fn lemma_standard_position(fields: Seq<FieldDecl>, f: FieldName)
    requires
        layout(fields) == standard_layout(),
    ensures
        fields.len() == 10,
        fields[position(f)].name == field_text(f),
        fields[position(f)].kind == field_kind(f),
        forall|i: int| 0 <= i < fields.len() && #[trigger] fields[i].name == field_text(f) ==> i == position(f),
{
    lemma_field_texts();
    assert(layout(fields).len() == 10);
    assert(field_order()[position(f)] == f);
    assert(layout(fields)[position(f)] == standard_layout()[position(f)]);
    assert forall|i: int| 0 <= i < fields.len() && #[trigger] fields[i].name == field_text(f) implies i == position(f) by {
        assert(layout(fields)[i] == standard_layout()[i]);
        assert(field_text(field_order()[i]) == field_text(f));
    }
}

/// In a schema of the standard layout, the handle of field `f` is the one
/// declared at its position.
proof fn lemma_standard_handle(fields: Seq<FieldDecl>, f: FieldName)
    requires
        layout(fields) == standard_layout(),
    ensures
        field_handle(fields, field_text(f)) == Some(fields[position(f)].handle),
{
    lemma_standard_position(fields, f);
    let i = choose|i: int| 0 <= i < fields.len() && #[trigger] fields[i].name == field_text(f);
    assert(i == position(f));
}

/// A schema built by `build_schema` declares every field of a record, under
/// pairwise distinct handles: encoding and decoding with it do not fail for
/// want of a field.
pub proof fn lemma_standard_resolves(s: Schema)
    requires
        is_standard_schema(s),
    ensures
        first_missing(schema_fields(s)) is None,
        forall|d: IndexRecord| #[trigger] first_missing_written(schema_fields(s), d) is None,
        resolved(schema_fields(s)).distinct(),
        forall|f: FieldName| #[trigger] resolved(schema_fields(s)).handle(f) == schema_fields(s)[position(f)].handle,
{
    let fields = schema_fields(s);
    let h = resolved(fields);
    lemma_standard_position(fields, FieldName::Version);
    assert forall|f: FieldName| #[trigger] h.handle(f) == fields[position(f)].handle by {
        lemma_standard_handle(fields, f);
        match f {
            FieldName::Version => {},
            FieldName::IndexedAt => {},
            FieldName::TimestampMs => {},
            FieldName::Index => {},
            FieldName::Id => {},
            FieldName::ProjectId => {},
            FieldName::SessionId => {},
            FieldName::FilePath => {},
            FieldName::Diff => {},
            FieldName::Note => {},
        }
    }
    lemma_standard_handle(fields, FieldName::Version);
    lemma_standard_handle(fields, FieldName::IndexedAt);
    lemma_standard_handle(fields, FieldName::TimestampMs);
    lemma_standard_handle(fields, FieldName::Index);
    lemma_standard_handle(fields, FieldName::Id);
    lemma_standard_handle(fields, FieldName::ProjectId);
    lemma_standard_handle(fields, FieldName::SessionId);
    lemma_standard_handle(fields, FieldName::FilePath);
    lemma_standard_handle(fields, FieldName::Diff);
    lemma_standard_handle(fields, FieldName::Note);
    assert forall|a: FieldName, b: FieldName| #[trigger] h.handle(a) == #[trigger] h.handle(b) implies a == b by {
        if a != b {
            assert(position(a) != position(b));
            assert(fields[position(a)].handle != fields[position(b)].handle);
        }
    }
}

/// Round trip: with the schema that `build_schema` returns, decoding the
/// document that encodes any record gives back that record, each optional
/// field present or absent as it was.
pub proof fn round_trip(schema: Schema, d: IndexRecord)
    requires
        is_standard_schema(schema),
        record_valid(d),
    ensures
        first_missing(schema_fields(schema)) is None,
        first_missing_written(schema_fields(schema), d) is None,
        decoded(resolved(schema_fields(schema)), encoded(d, resolved(schema_fields(schema))))
            == Ok::<IndexRecord, CodecFailure>(d),
{
    lemma_standard_resolves(schema);
    lemma_decode_encoded(resolved(schema_fields(schema)), d);
}

/// A record without a timestamp is encoded with no value under the timestamp
/// field, and decodes with no timestamp, not with zero.
pub proof fn absent_timestamp_stays_absent(schema: Schema, d: IndexRecord)
    requires
        is_standard_schema(schema),
        record_valid(d),
        d.timestamp_ms is None,
    ensures
        first_value_of(
            encoded(d, resolved(schema_fields(schema))),
            resolved(schema_fields(schema)).timestamp_ms,
        ) is None,
        decoded(resolved(schema_fields(schema)), encoded(d, resolved(schema_fields(schema))))
            matches Ok(r) && r.timestamp_ms is None,
{
    let h = resolved(schema_fields(schema));
    round_trip(schema, d);
    let values = encoded(d, h);
    assert(decoded(h, values) == Ok::<IndexRecord, CodecFailure>(d));
    if first_value_of(values, h.timestamp_ms) is Some {
        assert(decoded(h, values)->Ok_0.timestamp_ms is Some);
    }
}

/// Two schemas built by `build_schema` declare the same fields, in the same
/// order, with the same types, options and handles: they are interchangeable.
pub proof fn schema_is_stable(a: Schema, b: Schema)
    requires
        is_standard_schema(a),
        is_standard_schema(b),
    ensures
        layout(schema_fields(a)) == layout(schema_fields(b)),
        schema_fields(a) == schema_fields(b),
        resolved(schema_fields(a)) == resolved(schema_fields(b)),
{
    let (fa, fb) = (schema_fields(a), schema_fields(b));
    assert(layout(fa).len() == 10 && layout(fb).len() == 10);
    assert forall|i: int| 0 <= i < fa.len() implies #[trigger] fa[i] == fb[i] by {
        assert(layout(fa)[i] == layout(fb)[i]);
        assert(fa[i].handle == fb[i].handle);
    }
    assert(fa =~= fb);
}

/// In a schema built by `build_schema`, the identifier fields are indexed as
/// one raw token each, so that only whole values match, and the path, diff
/// and note fields as 2- and 3-grams with positions, so that substrings match.
pub proof fn identifiers_exact_texts_partial(s: Schema, f: FieldName)
    requires
        is_standard_schema(s),
    ensures
        f == FieldName::Id || f == FieldName::ProjectId || f == FieldName::SessionId
            ==> schema_fields(s)[position(f)].kind == raw_text_kind(),
        f == FieldName::FilePath || f == FieldName::Diff || f == FieldName::Note
            ==> schema_fields(s)[position(f)].kind == ngram_text_kind(),
        schema_fields(s)[position(f)].name == field_text(f),
        schema_fields(s)[position(f)].handle == resolved(schema_fields(s)).handle(f),
{
    lemma_standard_position(schema_fields(s), f);
    lemma_standard_resolves(s);
}

} // verus!
