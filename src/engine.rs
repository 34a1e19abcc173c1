//! The search-engine primitives this library relies on, with the model of
//! schemas, documents and stored values that the rest of the crate reasons
//! about.
use tantivy::schema::{
    Document, Field, IndexRecordOption, NumericOptions, Schema, SchemaBuilder, TextFieldIndexing,
    TextOptions, Value,
};
use tantivy::TantivyError;
use vstd::prelude::*;

verus! {

#[verifier::external_type_specification]
#[verifier::external_body]
pub struct ExSchema(Schema);

#[verifier::external_type_specification]
#[verifier::external_body]
pub struct ExSchemaBuilder(SchemaBuilder);

#[verifier::external_type_specification]
#[verifier::external_body]
pub struct ExField(Field);

#[verifier::external_type_specification]
#[verifier::external_body]
pub struct ExDocument(Document);

#[verifier::external_type_specification]
#[verifier::external_body]
pub struct ExValue(Value);

#[verifier::external_type_specification]
#[verifier::external_body]
pub struct ExNumericOptions(NumericOptions);

#[verifier::external_type_specification]
#[verifier::external_body]
pub struct ExTextOptions(TextOptions);

#[verifier::external_type_specification]
#[verifier::external_body]
pub struct ExTextFieldIndexing(TextFieldIndexing);

#[verifier::external_type_specification]
pub struct ExIndexRecordOption(IndexRecordOption);

#[verifier::external_type_specification]
#[verifier::external_body]
pub struct ExTantivyError(TantivyError);

/// What a stored field value holds, as far as this library reads it.
pub ghost enum StoredValue {
    U64(u64),
    Text(Seq<char>),
    Other,
}

/// The options of a numeric field.
pub ghost struct NumericPolicy {
    pub indexed: bool,
    pub fieldnorms: bool,
    pub stored: bool,
    pub fast: bool,
}

/// How a text field is indexed: the tokenizer's name, what is recorded for
/// each term, and whether field norms are kept.
pub ghost struct IndexingPolicy {
    pub tokenizer: Seq<char>,
    pub record: IndexRecordOption,
    pub fieldnorms: bool,
}

/// The options of a text field.
pub ghost struct TextPolicy {
    pub indexing: Option<IndexingPolicy>,
    pub stored: bool,
}

/// The type of a field, with its options where it is a number or a text.
pub ghost enum FieldKind {
    U64(NumericPolicy),
    Text(TextPolicy),
    /// A field of any other type.
    Other,
}

/// One declared field of a schema: its name, its handle and its kind.
pub ghost struct FieldDecl {
    pub name: Seq<char>,
    pub handle: Field,
    pub kind: FieldKind,
}

/// The flags that a set of numeric options carries.
pub uninterp spec fn numeric_policy(o: NumericOptions) -> NumericPolicy;

/// The tokenizer and record option that a text indexing setting carries.
pub uninterp spec fn indexing_policy(t: TextFieldIndexing) -> IndexingPolicy;

/// The indexing and storage that a set of text options carries.
pub uninterp spec fn text_policy(o: TextOptions) -> TextPolicy;

/// The fields declared so far in a schema builder, in order.
pub uninterp spec fn builder_fields(b: SchemaBuilder) -> Seq<FieldDecl>;

/// The fields of a schema, in order of declaration.
pub uninterp spec fn schema_fields(s: Schema) -> Seq<FieldDecl>;

/// The handle of the field declared at position `id` of a schema.
pub uninterp spec fn field_with_id(id: u32) -> Field;

/// The (field, value) pairs of a document, in order of insertion.
pub uninterp spec fn document_values(d: Document) -> Seq<(Field, StoredValue)>;

/// What a stored value holds.
pub uninterp spec fn value_content(v: Value) -> StoredValue;

/// The handle of the field named `name`, if the field list declares one.
pub open spec fn field_handle(fields: Seq<FieldDecl>, name: Seq<char>) -> Option<Field> {
    if exists|i: int| 0 <= i < fields.len() && #[trigger] fields[i].name == name {
        let i = choose|i: int| 0 <= i < fields.len() && #[trigger] fields[i].name == name;
        Some(fields[i].handle)
    } else {
        None
    }
}

/// Whether `name` is accepted by the engine as a field name.
pub open spec fn valid_field_name(name: Seq<char>) -> bool {
    name.len() > 0 && name[0] != '-'
}

/// The first value stored under `f` among `values`.
pub open spec fn first_value_of(values: Seq<(Field, StoredValue)>, f: Field) -> Option<StoredValue>
    decreases values.len(),
{
    if values.len() == 0 {
        None
    } else if values[0].0 == f {
        Some(values[0].1)
    } else {
        first_value_of(values.drop_first(), f)
    }
}

/// Relies on `NumericOptions::default`: no flag is set.
#[verifier::external_body]
pub(crate) fn numeric_options() -> (r: NumericOptions)
    ensures
        numeric_policy(r) == (NumericPolicy {
            indexed: false,
            fieldnorms: false,
            stored: false,
            fast: false,
        }),
{
    NumericOptions::default()
}

/// Relies on `NumericOptions::set_indexed`: sets the indexed flag alone.
#[verifier::external_body]
pub(crate) fn numeric_indexed(o: NumericOptions) -> (r: NumericOptions)
    ensures
        numeric_policy(r) == (NumericPolicy { indexed: true, ..numeric_policy(o) }),
{
    o.set_indexed()
}

/// Relies on `NumericOptions::set_fieldnorm`: sets the field-norms flag alone.
#[verifier::external_body]
pub(crate) fn numeric_fieldnorms(o: NumericOptions) -> (r: NumericOptions)
    ensures
        numeric_policy(r) == (NumericPolicy { fieldnorms: true, ..numeric_policy(o) }),
{
    o.set_fieldnorm()
}

/// Relies on `NumericOptions::set_stored`: sets the stored flag alone.
#[verifier::external_body]
pub(crate) fn numeric_stored(o: NumericOptions) -> (r: NumericOptions)
    ensures
        numeric_policy(r) == (NumericPolicy { stored: true, ..numeric_policy(o) }),
{
    o.set_stored()
}

/// Relies on `NumericOptions::set_fast`: sets the fast flag alone.
#[verifier::external_body]
pub(crate) fn numeric_fast(o: NumericOptions) -> (r: NumericOptions)
    ensures
        numeric_policy(r) == (NumericPolicy { fast: true, ..numeric_policy(o) }),
{
    o.set_fast()
}

/// Relies on `TextFieldIndexing::default`: the tokenizer named "default",
/// recording document ids only, with field norms.
#[verifier::external_body]
pub(crate) fn text_indexing() -> (r: TextFieldIndexing)
    ensures
        indexing_policy(r) == (IndexingPolicy {
            tokenizer: "default"@,
            record: IndexRecordOption::Basic,
            fieldnorms: true,
        }),
{
    TextFieldIndexing::default()
}

/// Relies on `TextFieldIndexing::set_tokenizer`: replaces the tokenizer's name.
#[verifier::external_body]
pub(crate) fn indexing_tokenizer(t: TextFieldIndexing, name: &str) -> (r: TextFieldIndexing)
    ensures
        indexing_policy(r) == (IndexingPolicy { tokenizer: name@, ..indexing_policy(t) }),
{
    t.set_tokenizer(name)
}

/// Relies on `TextFieldIndexing::set_index_option`: replaces the record option.
#[verifier::external_body]
pub(crate) fn indexing_record(t: TextFieldIndexing, record: IndexRecordOption) -> (r: TextFieldIndexing)
    ensures
        indexing_policy(r) == (IndexingPolicy { record: record, ..indexing_policy(t) }),
{
    t.set_index_option(record)
}

/// Relies on `TextOptions::default`: neither indexed nor stored.
#[verifier::external_body]
pub(crate) fn text_options() -> (r: TextOptions)
    ensures
        text_policy(r) == (TextPolicy { indexing: None, stored: false }),
{
    TextOptions::default()
}

/// Relies on `TextOptions::set_indexing_options`: indexes the field as `t` says.
#[verifier::external_body]
pub(crate) fn text_indexed(o: TextOptions, t: TextFieldIndexing) -> (r: TextOptions)
    ensures
        text_policy(r) == (TextPolicy { indexing: Some(indexing_policy(t)), ..text_policy(o) }),
{
    o.set_indexing_options(t)
}

/// Relies on `TextOptions::set_stored`: sets the stored flag alone.
#[verifier::external_body]
pub(crate) fn text_stored(o: TextOptions) -> (r: TextOptions)
    ensures
        text_policy(r) == (TextPolicy { stored: true, ..text_policy(o) }),
{
    o.set_stored()
}

/// Relies on `Schema::builder`: a builder with no field.
#[verifier::external_body]
pub(crate) fn schema_builder() -> (r: SchemaBuilder)
    ensures
        builder_fields(r) == Seq::<FieldDecl>::empty(),
{
    Schema::builder()
}

/// Relies on `SchemaBuilder::add_u64_field`: appends the field under the
/// handle of its position, which no earlier field has. It panics on an
/// invalid or repeated name.
#[verifier::external_body]
pub(crate) fn add_u64_field(b: &mut SchemaBuilder, name: &str, o: NumericOptions) -> (r: Field)
    requires
        valid_field_name(name@),
        field_handle(builder_fields(*old(b)), name@) is None,
        builder_fields(*old(b)).len() < u32::MAX,
    ensures
        builder_fields(*final(b)) == builder_fields(*old(b)).push(
            FieldDecl { name: name@, handle: r, kind: FieldKind::U64(numeric_policy(o)) },
        ),
        r == field_with_id(builder_fields(*old(b)).len() as u32),
        forall|i: int|
            0 <= i < builder_fields(*old(b)).len() ==> #[trigger] builder_fields(*old(b))[i].handle
                != r,
{
    b.add_u64_field(name, o)
}

/// Relies on `SchemaBuilder::add_text_field`: appends the field under the
/// handle of its position, which no earlier field has. It panics on an
/// invalid or repeated name.
#[verifier::external_body]
pub(crate) fn add_text_field(b: &mut SchemaBuilder, name: &str, o: TextOptions) -> (r: Field)
    requires
        valid_field_name(name@),
        field_handle(builder_fields(*old(b)), name@) is None,
        builder_fields(*old(b)).len() < u32::MAX,
    ensures
        builder_fields(*final(b)) == builder_fields(*old(b)).push(
            FieldDecl { name: name@, handle: r, kind: FieldKind::Text(text_policy(o)) },
        ),
        r == field_with_id(builder_fields(*old(b)).len() as u32),
        forall|i: int|
            0 <= i < builder_fields(*old(b)).len() ==> #[trigger] builder_fields(*old(b))[i].handle
                != r,
{
    b.add_text_field(name, o)
}

/// Relies on `SchemaBuilder::build`: the schema holds the builder's fields.
#[verifier::external_body]
pub(crate) fn build(b: SchemaBuilder) -> (r: Schema)
    ensures
        schema_fields(r) == builder_fields(b),
{
    b.build()
}

/// Relies on `Schema::get_field`: the handle of the field of that name, or an
/// error where the schema has none. A schema maps one name to one handle and
/// one handle to one name.
#[verifier::external_body]
pub(crate) fn get_field(s: &Schema, name: &str) -> (r: Result<Field, TantivyError>)
    ensures
        match r {
            Ok(f) => {
                &&& field_handle(schema_fields(*s), name@) == Some(f)
                &&& forall|j: int|
                    0 <= j < schema_fields(*s).len() && #[trigger] schema_fields(*s)[j].handle == f
                        ==> schema_fields(*s)[j].name == name@
            },
            Err(_) => field_handle(schema_fields(*s), name@) is None,
        },
{
    s.get_field(name)
}

/// Relies on `Document::default`: a document with no value.
#[verifier::external_body]
pub(crate) fn new_document() -> (r: Document)
    ensures
        document_values(r) == Seq::<(Field, StoredValue)>::empty(),
{
    Document::default()
}

/// Relies on `Document::add_u64`: appends the value under `f`.
#[verifier::external_body]
pub(crate) fn add_u64(d: &mut Document, f: Field, v: u64)
    ensures
        document_values(*final(d)) == document_values(*old(d)).push((f, StoredValue::U64(v))),
{
    d.add_u64(f, v)
}

/// Relies on `Document::add_text`: appends the text under `f`.
#[verifier::external_body]
pub(crate) fn add_text(d: &mut Document, f: Field, t: &str)
    ensures
        document_values(*final(d)) == document_values(*old(d)).push((f, StoredValue::Text(t@))),
{
    d.add_text(f, t)
}

/// Relies on `Document::get_first`: the first value stored under `f`.
#[verifier::external_body]
pub(crate) fn get_first(d: &Document, f: Field) -> (r: Option<&Value>)
    ensures
        match r {
            Some(v) => first_value_of(document_values(*d), f) == Some(value_content(*v)),
            None => first_value_of(document_values(*d), f) is None,
        },
{
    d.get_first(f)
}

/// Relies on `Value::as_u64`: the integer of an unsigned value, else nothing.
#[verifier::external_body]
pub(crate) fn as_u64(v: &Value) -> (r: Option<u64>)
    ensures
        match value_content(*v) {
            StoredValue::U64(n) => r == Some(n),
            _ => r is None,
        },
{
    v.as_u64()
}

/// Relies on `Value::as_text`: the text of a string value, else nothing.
#[verifier::external_body]
pub(crate) fn as_text(v: &Value) -> (r: Option<&str>)
    ensures
        match value_content(*v) {
            StoredValue::Text(t) => r is Some && r.unwrap()@ == t,
            _ => r is None,
        },
{
    v.as_text()
}

} // verus!
