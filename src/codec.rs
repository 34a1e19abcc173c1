//! Conversion between activity records and the engine's documents.
use crate::document::{record_valid, text_view, IndexDocument, IndexRecord};
use crate::engine::{
    add_text, add_u64, as_text, as_u64, document_values, field_handle, first_value_of, get_field,
    get_first, new_document, schema_fields, FieldDecl, StoredValue,
};
use crate::fields::{field_text, lemma_field_texts, FieldName};
use crate::session::{valid_session_text, SessionId};
use tantivy::schema::{Document, Field, Schema};
use vstd::prelude::*;

verus! {

/// Why a record could not be encoded or decoded.
#[derive(Debug)]
pub enum CodecError {
    /// The schema declares no field of this name.
    SchemaMismatch(FieldName),
    /// The document holds no value for this required field.
    MissingRequiredField(FieldName),
    /// The document holds a value of the wrong type for this field.
    WrongValueType(FieldName),
    /// The stored session identifier is not a valid one.
    MalformedIdentifier(String),
}

/// What a `CodecError` says, with its text as a character sequence.
pub ghost enum CodecFailure {
    SchemaMismatch(FieldName),
    MissingRequiredField(FieldName),
    WrongValueType(FieldName),
    MalformedIdentifier(Seq<char>),
}

impl View for CodecError {
    type V = CodecFailure;

    open spec fn view(&self) -> CodecFailure {
        match self {
            CodecError::SchemaMismatch(n) => CodecFailure::SchemaMismatch(*n),
            CodecError::MissingRequiredField(n) => CodecFailure::MissingRequiredField(*n),
            CodecError::WrongValueType(n) => CodecFailure::WrongValueType(*n),
            CodecError::MalformedIdentifier(s) => CodecFailure::MalformedIdentifier(s@),
        }
    }
}

/// The handles of the ten fields of a record in one schema.
#[derive(Clone, Copy, Debug)]
pub struct FieldHandles {
    pub version: Field,
    pub indexed_at: Field,
    pub timestamp_ms: Field,
    pub index: Field,
    pub id: Field,
    pub project_id: Field,
    pub session_id: Field,
    pub file_path: Field,
    pub diff: Field,
    pub note: Field,
}

impl FieldHandles {
    /// The handle of field `f`.
    pub open spec fn handle(self, f: FieldName) -> Field {
        match f {
            FieldName::Version => self.version,
            FieldName::IndexedAt => self.indexed_at,
            FieldName::TimestampMs => self.timestamp_ms,
            FieldName::Index => self.index,
            FieldName::Id => self.id,
            FieldName::ProjectId => self.project_id,
            FieldName::SessionId => self.session_id,
            FieldName::FilePath => self.file_path,
            FieldName::Diff => self.diff,
            FieldName::Note => self.note,
        }
    }

    /// No two fields share a handle.
    pub open spec fn distinct(self) -> bool {
        forall|a: FieldName, b: FieldName| #[trigger] self.handle(a) == #[trigger] self.handle(b) ==> a == b
    }
}

/// The first field, in order of declaration, that `fields` does not declare.
pub open spec fn first_missing(fields: Seq<FieldDecl>) -> Option<FieldName> {
    if field_handle(fields, field_text(FieldName::Version)) is None {
        Some(FieldName::Version)
    } else if field_handle(fields, field_text(FieldName::IndexedAt)) is None {
        Some(FieldName::IndexedAt)
    } else if field_handle(fields, field_text(FieldName::TimestampMs)) is None {
        Some(FieldName::TimestampMs)
    } else if field_handle(fields, field_text(FieldName::Index)) is None {
        Some(FieldName::Index)
    } else if field_handle(fields, field_text(FieldName::Id)) is None {
        Some(FieldName::Id)
    } else if field_handle(fields, field_text(FieldName::ProjectId)) is None {
        Some(FieldName::ProjectId)
    } else if field_handle(fields, field_text(FieldName::SessionId)) is None {
        Some(FieldName::SessionId)
    } else if field_handle(fields, field_text(FieldName::FilePath)) is None {
        Some(FieldName::FilePath)
    } else if field_handle(fields, field_text(FieldName::Diff)) is None {
        Some(FieldName::Diff)
    } else if field_handle(fields, field_text(FieldName::Note)) is None {
        Some(FieldName::Note)
    } else {
        None
    }
}

/// The handles that `fields` declares for the ten fields of a record.
pub open spec fn resolved(fields: Seq<FieldDecl>) -> FieldHandles {
    FieldHandles {
        version: field_handle(fields, field_text(FieldName::Version)).unwrap(),
        indexed_at: field_handle(fields, field_text(FieldName::IndexedAt)).unwrap(),
        timestamp_ms: field_handle(fields, field_text(FieldName::TimestampMs)).unwrap(),
        index: field_handle(fields, field_text(FieldName::Index)).unwrap(),
        id: field_handle(fields, field_text(FieldName::Id)).unwrap(),
        project_id: field_handle(fields, field_text(FieldName::ProjectId)).unwrap(),
        session_id: field_handle(fields, field_text(FieldName::SessionId)).unwrap(),
        file_path: field_handle(fields, field_text(FieldName::FilePath)).unwrap(),
        diff: field_handle(fields, field_text(FieldName::Diff)).unwrap(),
        note: field_handle(fields, field_text(FieldName::Note)).unwrap(),
    }
}

/// Every field that carries handle `h` is named `name`.
pub open spec fn only_named(fields: Seq<FieldDecl>, h: Field, name: Seq<char>) -> bool {
    forall|j: int| 0 <= j < fields.len() && #[trigger] fields[j].handle == h ==> fields[j].name == name
}

/// The handle of field `f` in `schema`.
fn lookup(schema: &Schema, f: FieldName) -> (r: Result<Field, CodecError>)
    ensures
        match field_handle(schema_fields(*schema), field_text(f)) {
            Some(h) => r == Ok::<Field, CodecError>(h) && only_named(
                schema_fields(*schema),
                h,
                field_text(f),
            ),
            None => r == Err::<Field, CodecError>(CodecError::SchemaMismatch(f)),
        },
{
    match get_field(schema, f.as_str()) {
        Ok(h) => Ok(h),
        Err(_) => Err(CodecError::SchemaMismatch(f)),
    }
}

/// Handles that name distinct fields are distinct.
proof fn lemma_handles_distinct(fields: Seq<FieldDecl>, h: FieldHandles)
    requires
        forall|f: FieldName|
            #![trigger h.handle(f)]
            field_handle(fields, field_text(f)) == Some(h.handle(f)) && only_named(
                fields,
                h.handle(f),
                field_text(f),
            ),
    ensures
        h.distinct(),
{
    lemma_field_texts();
    assert forall|a: FieldName, b: FieldName| #[trigger] h.handle(a) == #[trigger] h.handle(b) implies a == b by {
        assert(field_handle(fields, field_text(b)) == Some(h.handle(b)));
        let j = choose|j: int| 0 <= j < fields.len() && #[trigger] fields[j].name == field_text(b);
        assert(fields[j].handle == h.handle(b));
        assert(only_named(fields, h.handle(a), field_text(a)));
        assert(fields[j].name == field_text(a));
    }
}

impl FieldHandles {
    /// Looks up the handles of the ten fields of a record in `schema`; fails
    /// with the first field, in order of declaration, that it does not declare.
    pub fn resolve(schema: &Schema) -> (r: Result<FieldHandles, CodecError>)
        ensures
            match first_missing(schema_fields(*schema)) {
                Some(n) => r matches Err(e) && e@ == CodecFailure::SchemaMismatch(n),
                None => r == Ok::<FieldHandles, CodecError>(resolved(schema_fields(*schema)))
                    && resolved(schema_fields(*schema)).distinct(),
            },
    {
        let version = match lookup(schema, FieldName::Version) {
            Ok(h) => h,
            Err(e) => return Err(e),
        };
        let indexed_at = match lookup(schema, FieldName::IndexedAt) {
            Ok(h) => h,
            Err(e) => return Err(e),
        };
        let timestamp_ms = match lookup(schema, FieldName::TimestampMs) {
            Ok(h) => h,
            Err(e) => return Err(e),
        };
        let index = match lookup(schema, FieldName::Index) {
            Ok(h) => h,
            Err(e) => return Err(e),
        };
        let id = match lookup(schema, FieldName::Id) {
            Ok(h) => h,
            Err(e) => return Err(e),
        };
        let project_id = match lookup(schema, FieldName::ProjectId) {
            Ok(h) => h,
            Err(e) => return Err(e),
        };
        let session_id = match lookup(schema, FieldName::SessionId) {
            Ok(h) => h,
            Err(e) => return Err(e),
        };
        let file_path = match lookup(schema, FieldName::FilePath) {
            Ok(h) => h,
            Err(e) => return Err(e),
        };
        let diff = match lookup(schema, FieldName::Diff) {
            Ok(h) => h,
            Err(e) => return Err(e),
        };
        let note = match lookup(schema, FieldName::Note) {
            Ok(h) => h,
            Err(e) => return Err(e),
        };
        let r = FieldHandles {
            version,
            indexed_at,
            timestamp_ms,
            index,
            id,
            project_id,
            session_id,
            file_path,
            diff,
            note,
        };
        proof {
            let fields = schema_fields(*schema);
            assert forall|f: FieldName|
                #![trigger r.handle(f)]
                field_handle(fields, field_text(f)) == Some(r.handle(f)) && only_named(
                    fields,
                    r.handle(f),
                    field_text(f),
                ) by {
                match f {
                    FieldName::Version => {},
                    FieldName::IndexedAt => {},
                    FieldName::TimestampMs => {},
                    FieldName::Index => {},
                    FieldName::Id => {},
                    FieldName::ProjectId => {},
                    FieldName::SessionId => {},
                    FieldName::FilePath => {},
                    FieldName::Diff => {},
                    FieldName::Note => {},
                }
            }
            lemma_handles_distinct(fields, r);
        }
        Ok(r)
    }
}

/// The entry of a number under handle `f`.
pub open spec fn u64_entry(f: Field, v: u64) -> Seq<(Field, StoredValue)> {
    seq![(f, StoredValue::U64(v))]
}

/// The entry of a number under handle `f` if there is one, else nothing.
pub open spec fn opt_u64_entry(f: Field, o: Option<u64>) -> Seq<(Field, StoredValue)> {
    match o {
        Some(v) => u64_entry(f, v),
        None => Seq::empty(),
    }
}

/// The entry of a text under handle `f`.
pub open spec fn text_entry(f: Field, t: Seq<char>) -> Seq<(Field, StoredValue)> {
    seq![(f, StoredValue::Text(t))]
}

/// The entry of a text under handle `f` if there is one, else nothing.
pub open spec fn opt_text_entry(f: Field, o: Option<Seq<char>>) -> Seq<(Field, StoredValue)> {
    match o {
        Some(t) => text_entry(f, t),
        None => Seq::empty(),
    }
}

/// The values of the document that encodes `d` under handles `h`: the
/// required fields always, each optional field only where `d` has it.
pub open spec fn encoded(d: IndexRecord, h: FieldHandles) -> Seq<(Field, StoredValue)> {
    u64_entry(h.version, d.version) + opt_u64_entry(h.timestamp_ms, d.timestamp_ms)
        + opt_u64_entry(h.index, d.index) + text_entry(h.id, d.id) + u64_entry(
        h.indexed_at,
        d.indexed_at,
    ) + opt_text_entry(h.project_id, d.project_id) + opt_text_entry(h.session_id, d.session_id)
        + opt_text_entry(h.file_path, d.file_path) + opt_text_entry(h.diff, d.diff)
        + opt_text_entry(h.note, d.note)
}

/// The number stored under `f`, if any; an error where the value there is not
/// a number.
pub open spec fn optional_u64(values: Seq<(Field, StoredValue)>, f: Field, n: FieldName) -> Result<
    Option<u64>,
    CodecFailure,
> {
    match first_value_of(values, f) {
        None => Ok(None),
        Some(StoredValue::U64(v)) => Ok(Some(v)),
        Some(_) => Err(CodecFailure::WrongValueType(n)),
    }
}

/// The text stored under `f`, if any; an error where the value there is not a
/// text.
pub open spec fn optional_text(values: Seq<(Field, StoredValue)>, f: Field, n: FieldName) -> Result<
    Option<Seq<char>>,
    CodecFailure,
> {
    match first_value_of(values, f) {
        None => Ok(None),
        Some(StoredValue::Text(t)) => Ok(Some(t)),
        Some(_) => Err(CodecFailure::WrongValueType(n)),
    }
}

/// The number stored under `f`; an error where there is none.
pub open spec fn required_u64(values: Seq<(Field, StoredValue)>, f: Field, n: FieldName) -> Result<
    u64,
    CodecFailure,
> {
    match optional_u64(values, f, n) {
        Ok(Some(v)) => Ok(v),
        Ok(None) => Err(CodecFailure::MissingRequiredField(n)),
        Err(e) => Err(e),
    }
}

/// The text stored under `f`; an error where there is none.
pub open spec fn required_text(values: Seq<(Field, StoredValue)>, f: Field, n: FieldName) -> Result<
    Seq<char>,
    CodecFailure,
> {
    match optional_text(values, f, n) {
        Ok(Some(t)) => Ok(t),
        Ok(None) => Err(CodecFailure::MissingRequiredField(n)),
        Err(e) => Err(e),
    }
}

/// The session identifier stored under `f`, if any; an error where its text
/// is not a valid one.
pub open spec fn optional_session(values: Seq<(Field, StoredValue)>, f: Field) -> Result<
    Option<Seq<char>>,
    CodecFailure,
> {
    match optional_text(values, f, FieldName::SessionId) {
        Ok(Some(t)) => if valid_session_text(t) {
            Ok(Some(t))
        } else {
            Err(CodecFailure::MalformedIdentifier(t))
        },
        other => other,
    }
}

/// The record that a document with `values` decodes to under handles `h`, or
/// the first failure in the order version, timestamp_ms, index, id,
/// project_id, session_id, file_path, diff, note, indexed_at.
pub open spec fn decoded(h: FieldHandles, values: Seq<(Field, StoredValue)>) -> Result<
    IndexRecord,
    CodecFailure,
> {
    let version = required_u64(values, h.version, FieldName::Version);
    let timestamp_ms = optional_u64(values, h.timestamp_ms, FieldName::TimestampMs);
    let index = optional_u64(values, h.index, FieldName::Index);
    let id = required_text(values, h.id, FieldName::Id);
    let project_id = optional_text(values, h.project_id, FieldName::ProjectId);
    let session_id = optional_session(values, h.session_id);
    let file_path = optional_text(values, h.file_path, FieldName::FilePath);
    let diff = optional_text(values, h.diff, FieldName::Diff);
    let note = optional_text(values, h.note, FieldName::Note);
    let indexed_at = required_u64(values, h.indexed_at, FieldName::IndexedAt);
    if version is Err {
        Err(version->Err_0)
    } else if timestamp_ms is Err {
        Err(timestamp_ms->Err_0)
    } else if index is Err {
        Err(index->Err_0)
    } else if id is Err {
        Err(id->Err_0)
    } else if project_id is Err {
        Err(project_id->Err_0)
    } else if session_id is Err {
        Err(session_id->Err_0)
    } else if file_path is Err {
        Err(file_path->Err_0)
    } else if diff is Err {
        Err(diff->Err_0)
    } else if note is Err {
        Err(note->Err_0)
    } else if indexed_at is Err {
        Err(indexed_at->Err_0)
    } else {
        Ok(
            IndexRecord {
                version: version->Ok_0,
                timestamp_ms: timestamp_ms->Ok_0,
                index: index->Ok_0,
                id: id->Ok_0,
                project_id: project_id->Ok_0,
                session_id: session_id->Ok_0,
                file_path: file_path->Ok_0,
                diff: diff->Ok_0,
                note: note->Ok_0,
                indexed_at: indexed_at->Ok_0,
            },
        )
    }
}

/// Appends `t` under `f` where there is a text.
fn add_opt_text(doc: &mut Document, f: Field, t: &Option<String>)
    ensures
        document_values(*final(doc)) == document_values(*old(doc)) + opt_text_entry(
            f,
            text_view(*t),
        ),
{
    match t {
        Some(s) => {
            add_text(doc, f, s.as_str());
            assert(document_values(*doc) =~= document_values(*old(doc)) + opt_text_entry(
                f,
                text_view(*t),
            ));
        },
        None => {
            assert(document_values(*doc) =~= document_values(*old(doc)) + opt_text_entry(
                f,
                text_view(*t),
            ));
        },
    }
}

/// Appends `v` under `f` where there is a number.
fn add_opt_u64(doc: &mut Document, f: Field, v: Option<u64>)
    ensures
        document_values(*final(doc)) == document_values(*old(doc)) + opt_u64_entry(f, v),
{
    match v {
        Some(n) => {
            add_u64(doc, f, n);
            assert(document_values(*doc) =~= document_values(*old(doc)) + opt_u64_entry(f, v));
        },
        None => {
            assert(document_values(*doc) =~= document_values(*old(doc)) + opt_u64_entry(f, v));
        },
    }
}

/// The number stored under `f` in `doc`, if any.
fn read_u64(doc: &Document, f: Field, n: FieldName) -> (r: Result<Option<u64>, CodecError>)
    ensures
        match r {
            Ok(o) => optional_u64(document_values(*doc), f, n) == Ok::<Option<u64>, CodecFailure>(o),
            Err(e) => optional_u64(document_values(*doc), f, n) == Err::<Option<u64>, CodecFailure>(e@),
        },
{
    match get_first(doc, f) {
        None => Ok(None),
        Some(v) => match as_u64(v) {
            Some(x) => Ok(Some(x)),
            None => Err(CodecError::WrongValueType(n)),
        },
    }
}

/// The text stored under `f` in `doc`, if any.
fn read_text(doc: &Document, f: Field, n: FieldName) -> (r: Result<Option<String>, CodecError>)
    ensures
        match r {
            Ok(o) => optional_text(document_values(*doc), f, n) == Ok::<Option<Seq<char>>, CodecFailure>(text_view(o)),
            Err(e) => optional_text(document_values(*doc), f, n) == Err::<Option<Seq<char>>, CodecFailure>(e@),
        },
{
    match get_first(doc, f) {
        None => Ok(None),
        Some(v) => match as_text(v) {
            Some(t) => Ok(Some(t.to_owned())),
            None => Err(CodecError::WrongValueType(n)),
        },
    }
}

impl IndexDocument {
    /// The document that holds this record under handles `h`.
    pub fn encode(&self, h: &FieldHandles) -> (r: Document)
        ensures
            document_values(r) == encoded(self@, *h),
            record_valid(self@),
    {
        let mut doc = new_document();
        add_u64(&mut doc, h.version, self.version);
        add_opt_u64(&mut doc, h.timestamp_ms, self.timestamp_ms);
        add_opt_u64(&mut doc, h.index, self.index);
        add_text(&mut doc, h.id, self.id.as_str());
        add_u64(&mut doc, h.indexed_at, self.indexed_at);
        add_opt_text(&mut doc, h.project_id, &self.project_id);
        let ghost before = document_values(doc);
        match &self.session_id {
            Some(sid) => {
                add_text(&mut doc, h.session_id, sid.as_str());
            },
            None => {},
        }
        assert(document_values(doc) =~= before + opt_text_entry(h.session_id, self@.session_id));
        add_opt_text(&mut doc, h.file_path, &self.file_path);
        add_opt_text(&mut doc, h.diff, &self.diff);
        add_opt_text(&mut doc, h.note, &self.note);
        assert(document_values(doc) =~= encoded(self@, *h));
        doc
    }

    /// Reads the record that `doc` holds under handles `h`.
    pub fn decode(h: &FieldHandles, doc: &Document) -> (r: Result<IndexDocument, CodecError>)
        ensures
            match r {
                Ok(d) => decoded(*h, document_values(*doc)) == Ok::<IndexRecord, CodecFailure>(d@),
                Err(e) => decoded(*h, document_values(*doc)) == Err::<IndexRecord, CodecFailure>(e@),
            },
    {
        let version = match read_u64(doc, h.version, FieldName::Version) {
            Ok(Some(v)) => v,
            Ok(None) => return Err(CodecError::MissingRequiredField(FieldName::Version)),
            Err(e) => return Err(e),
        };
        let timestamp_ms = match read_u64(doc, h.timestamp_ms, FieldName::TimestampMs) {
            Ok(o) => o,
            Err(e) => return Err(e),
        };
        let index = match read_u64(doc, h.index, FieldName::Index) {
            Ok(o) => o,
            Err(e) => return Err(e),
        };
        let id = match read_text(doc, h.id, FieldName::Id) {
            Ok(Some(t)) => t,
            Ok(None) => return Err(CodecError::MissingRequiredField(FieldName::Id)),
            Err(e) => return Err(e),
        };
        let project_id = match read_text(doc, h.project_id, FieldName::ProjectId) {
            Ok(o) => o,
            Err(e) => return Err(e),
        };
        let session_id = match read_text(doc, h.session_id, FieldName::SessionId) {
            Ok(Some(t)) => match SessionId::parse(t.as_str()) {
                Some(sid) => Some(sid),
                None => return Err(CodecError::MalformedIdentifier(t)),
            },
            Ok(None) => None,
            Err(e) => return Err(e),
        };
        let file_path = match read_text(doc, h.file_path, FieldName::FilePath) {
            Ok(o) => o,
            Err(e) => return Err(e),
        };
        let diff = match read_text(doc, h.diff, FieldName::Diff) {
            Ok(o) => o,
            Err(e) => return Err(e),
        };
        let note = match read_text(doc, h.note, FieldName::Note) {
            Ok(o) => o,
            Err(e) => return Err(e),
        };
        let indexed_at = match read_u64(doc, h.indexed_at, FieldName::IndexedAt) {
            Ok(Some(v)) => v,
            Ok(None) => return Err(CodecError::MissingRequiredField(FieldName::IndexedAt)),
            Err(e) => return Err(e),
        };
        Ok(
            IndexDocument {
                version,
                timestamp_ms,
                index,
                id,
                project_id,
                session_id,
                file_path,
                diff,
                note,
                indexed_at,
            },
        )
    }
}

/// Whether `fields` declares no field named as `f`.
pub open spec fn lacks(fields: Seq<FieldDecl>, f: FieldName) -> bool {
    field_handle(fields, field_text(f)) is None
}

/// The first field, in order of writing, that encoding `d` writes and that
/// `fields` does not declare. The required fields are always written, an
/// optional one only where `d` has it.
pub open spec fn first_missing_written(fields: Seq<FieldDecl>, d: IndexRecord) -> Option<FieldName> {
    if lacks(fields, FieldName::Version) {
        Some(FieldName::Version)
    } else if d.timestamp_ms is Some && lacks(fields, FieldName::TimestampMs) {
        Some(FieldName::TimestampMs)
    } else if d.index is Some && lacks(fields, FieldName::Index) {
        Some(FieldName::Index)
    } else if lacks(fields, FieldName::Id) {
        Some(FieldName::Id)
    } else if lacks(fields, FieldName::IndexedAt) {
        Some(FieldName::IndexedAt)
    } else if d.project_id is Some && lacks(fields, FieldName::ProjectId) {
        Some(FieldName::ProjectId)
    } else if d.session_id is Some && lacks(fields, FieldName::SessionId) {
        Some(FieldName::SessionId)
    } else if d.file_path is Some && lacks(fields, FieldName::FilePath) {
        Some(FieldName::FilePath)
    } else if d.diff is Some && lacks(fields, FieldName::Diff) {
        Some(FieldName::Diff)
    } else if d.note is Some && lacks(fields, FieldName::Note) {
        Some(FieldName::Note)
    } else {
        None
    }
}

/// Appends `v` under the field `f` of `schema`; fails where the schema does
/// not declare it.
fn put_u64(doc: &mut Document, schema: &Schema, f: FieldName, v: u64) -> (r: Result<(), CodecError>)
    ensures
        match field_handle(schema_fields(*schema), field_text(f)) {
            Some(h) => r is Ok && document_values(*final(doc)) == document_values(*old(doc))
                + u64_entry(h, v),
            None => r matches Err(e) && e@ == CodecFailure::SchemaMismatch(f),
        },
{
    match lookup(schema, f) {
        Ok(h) => {
            add_u64(doc, h, v);
            Ok(())
        },
        Err(e) => Err(e),
    }
}

/// Appends `t` under the field `f` of `schema`; fails where the schema does
/// not declare it.
fn put_text(doc: &mut Document, schema: &Schema, f: FieldName, t: &str) -> (r: Result<(), CodecError>)
    ensures
        match field_handle(schema_fields(*schema), field_text(f)) {
            Some(h) => r is Ok && document_values(*final(doc)) == document_values(*old(doc))
                + text_entry(h, t@),
            None => r matches Err(e) && e@ == CodecFailure::SchemaMismatch(f),
        },
{
    match lookup(schema, f) {
        Ok(h) => {
            add_text(doc, h, t);
            Ok(())
        },
        Err(e) => Err(e),
    }
}

/// Appends `t`, where there is a text, under the field `f` of `schema`; fails
/// where there is one and the schema does not declare the field.
fn put_opt_text(doc: &mut Document, schema: &Schema, f: FieldName, t: &Option<String>) -> (r: Result<
    (),
    CodecError,
>)
    ensures
        match (t, field_handle(schema_fields(*schema), field_text(f))) {
            (None, _) => r is Ok && document_values(*final(doc)) == document_values(*old(doc)),
            (Some(s), Some(h)) => r is Ok && document_values(*final(doc)) == document_values(
                *old(doc),
            ) + text_entry(h, s@),
            (Some(_), None) => r matches Err(e) && e@ == CodecFailure::SchemaMismatch(f),
        },
{
    match t {
        Some(s) => put_text(doc, schema, f, s.as_str()),
        None => Ok(()),
    }
}

impl IndexDocument {
    /// Encodes this record as a document of `schema`, writing the required
    /// fields and each optional field that the record has; fails with the
    /// first of those fields, in order of writing, that the schema does not
    /// declare.
    pub fn to_document(&self, schema: &Schema) -> (r: Result<Document, CodecError>)
        ensures
            match first_missing_written(schema_fields(*schema), self@) {
                Some(n) => r matches Err(e) && e@ == CodecFailure::SchemaMismatch(n),
                None => r matches Ok(doc) && document_values(doc) == encoded(
                    self@,
                    resolved(schema_fields(*schema)),
                ),
            },
            record_valid(self@),
    {
        proof {
            if let Some(sid) = &self.session_id {
                use_type_invariant(sid);
                sid.lemma_valid();
            }
        }
        let ghost h = resolved(schema_fields(*schema));
        let ghost d = self@;
        let mut doc = new_document();
        match put_u64(&mut doc, schema, FieldName::Version, self.version) {
            Ok(()) => {},
            Err(e) => return Err(e),
        }
        assert(document_values(doc) =~= u64_entry(h.version, d.version));
        let ghost s0 = document_values(doc);
        match self.timestamp_ms {
            Some(t) => match put_u64(&mut doc, schema, FieldName::TimestampMs, t) {
                Ok(()) => {},
                Err(e) => return Err(e),
            },
            None => {},
        }
        assert(document_values(doc) =~= s0 + opt_u64_entry(h.timestamp_ms, d.timestamp_ms));
        let ghost s1 = document_values(doc);
        match self.index {
            Some(i) => match put_u64(&mut doc, schema, FieldName::Index, i) {
                Ok(()) => {},
                Err(e) => return Err(e),
            },
            None => {},
        }
        assert(document_values(doc) =~= s1 + opt_u64_entry(h.index, d.index));
        match put_text(&mut doc, schema, FieldName::Id, self.id.as_str()) {
            Ok(()) => {},
            Err(e) => return Err(e),
        }
        match put_u64(&mut doc, schema, FieldName::IndexedAt, self.indexed_at) {
            Ok(()) => {},
            Err(e) => return Err(e),
        }
        let ghost s4 = document_values(doc);
        match put_opt_text(&mut doc, schema, FieldName::ProjectId, &self.project_id) {
            Ok(()) => {},
            Err(e) => return Err(e),
        }
        assert(document_values(doc) =~= s4 + opt_text_entry(h.project_id, d.project_id));
        let ghost s5 = document_values(doc);
        match &self.session_id {
            Some(sid) => match put_text(&mut doc, schema, FieldName::SessionId, sid.as_str()) {
                Ok(()) => {},
                Err(e) => return Err(e),
            },
            None => {},
        }
        assert(document_values(doc) =~= s5 + opt_text_entry(h.session_id, d.session_id));
        let ghost s6 = document_values(doc);
        match put_opt_text(&mut doc, schema, FieldName::FilePath, &self.file_path) {
            Ok(()) => {},
            Err(e) => return Err(e),
        }
        assert(document_values(doc) =~= s6 + opt_text_entry(h.file_path, d.file_path));
        let ghost s7 = document_values(doc);
        match put_opt_text(&mut doc, schema, FieldName::Diff, &self.diff) {
            Ok(()) => {},
            Err(e) => return Err(e),
        }
        assert(document_values(doc) =~= s7 + opt_text_entry(h.diff, d.diff));
        let ghost s8 = document_values(doc);
        match put_opt_text(&mut doc, schema, FieldName::Note, &self.note) {
            Ok(()) => {},
            Err(e) => return Err(e),
        }
        assert(document_values(doc) =~= s8 + opt_text_entry(h.note, d.note));
        assert(document_values(doc) =~= encoded(d, h));
        Ok(doc)
    }

    /// Decodes the record that `doc`, a document of `schema`, holds; fails
    /// where the schema does not declare one of the ten fields, or as
    /// `decoded` says.
    pub fn from_document(schema: &Schema, doc: &Document) -> (r: Result<IndexDocument, CodecError>)
        ensures
            match first_missing(schema_fields(*schema)) {
                Some(n) => r matches Err(e) && e@ == CodecFailure::SchemaMismatch(n),
                None => {
                    &&& resolved(schema_fields(*schema)).distinct()
                    &&& match r {
                        Ok(d) => decoded(resolved(schema_fields(*schema)), document_values(*doc))
                            == Ok::<IndexRecord, CodecFailure>(d@),
                        Err(e) => decoded(resolved(schema_fields(*schema)), document_values(*doc))
                            == Err::<IndexRecord, CodecFailure>(e@),
                    }
                },
            },
    {
        match FieldHandles::resolve(schema) {
            Ok(h) => IndexDocument::decode(&h, doc),
            Err(e) => Err(e),
        }
    }
}

/// The first value under a handle in two joined value lists is the first in
/// the former, or else the first in the latter.
proof fn lemma_first_value_concat(a: Seq<(Field, StoredValue)>, b: Seq<(Field, StoredValue)>)
    ensures
        forall|f: Field|
            #[trigger] first_value_of(a + b, f) == if first_value_of(a, f) is Some {
                first_value_of(a, f)
            } else {
                first_value_of(b, f)
            },
    decreases a.len(),
{
    if a.len() == 0 {
        assert(a + b =~= b);
    } else {
        lemma_first_value_concat(a.drop_first(), b);
        assert((a + b).drop_first() =~= a.drop_first() + b);
        assert forall|f: Field|
            #[trigger] first_value_of(a + b, f) == if first_value_of(a, f) is Some {
                first_value_of(a, f)
            } else {
                first_value_of(b, f)
            } by {
            assert((a + b)[0] == a[0]);
            if a[0].0 != f {
                assert(first_value_of(a + b, f) == first_value_of(a.drop_first() + b, f));
                assert(first_value_of(a, f) == first_value_of(a.drop_first(), f));
            }
        }
    }
}

/// The first value under a handle in a list of one entry.
proof fn lemma_first_value_single(g: Field, v: StoredValue)
    ensures
        forall|f: Field|
            #[trigger] first_value_of(seq![(g, v)], f) == if g == f {
                Some(v)
            } else {
                None::<StoredValue>
            },
{
    let one = seq![(g, v)];
    assert(one.drop_first() =~= Seq::<(Field, StoredValue)>::empty());
    assert forall|f: Field|
        #[trigger] first_value_of(one, f) == if g == f {
            Some(v)
        } else {
            None::<StoredValue>
        } by {
        assert(one[0] == (g, v));
        assert(first_value_of(one.drop_first(), f) is None);
    }
}

/// Decoding the document that encodes a valid record, under handles that are
/// pairwise distinct, gives back that record.
#[verifier::spinoff_prover]
#[verifier::rlimit(40)]
pub proof fn lemma_decode_encoded(h: FieldHandles, d: IndexRecord)
    requires
        h.distinct(),
        record_valid(d),
    ensures
        decoded(h, encoded(d, h)) == Ok::<IndexRecord, CodecFailure>(d),
{
    let s0 = u64_entry(h.version, d.version);
    let s1 = opt_u64_entry(h.timestamp_ms, d.timestamp_ms);
    let s2 = opt_u64_entry(h.index, d.index);
    let s3 = text_entry(h.id, d.id);
    let s4 = u64_entry(h.indexed_at, d.indexed_at);
    let s5 = opt_text_entry(h.project_id, d.project_id);
    let s6 = opt_text_entry(h.session_id, d.session_id);
    let s7 = opt_text_entry(h.file_path, d.file_path);
    let s8 = opt_text_entry(h.diff, d.diff);
    let s9 = opt_text_entry(h.note, d.note);
    lemma_first_value_concat(s0, s1);
    lemma_first_value_concat(s0 + s1, s2);
    lemma_first_value_concat(s0 + s1 + s2, s3);
    lemma_first_value_concat(s0 + s1 + s2 + s3, s4);
    lemma_first_value_concat(s0 + s1 + s2 + s3 + s4, s5);
    lemma_first_value_concat(s0 + s1 + s2 + s3 + s4 + s5, s6);
    lemma_first_value_concat(s0 + s1 + s2 + s3 + s4 + s5 + s6, s7);
    lemma_first_value_concat(s0 + s1 + s2 + s3 + s4 + s5 + s6 + s7, s8);
    lemma_first_value_concat(s0 + s1 + s2 + s3 + s4 + s5 + s6 + s7 + s8, s9);
    lemma_first_value_single(h.version, StoredValue::U64(d.version));
    lemma_first_value_single(h.id, StoredValue::Text(d.id));
    lemma_first_value_single(h.indexed_at, StoredValue::U64(d.indexed_at));
    if let Some(v) = d.timestamp_ms {
        lemma_first_value_single(h.timestamp_ms, StoredValue::U64(v));
    }
    if let Some(v) = d.index {
        lemma_first_value_single(h.index, StoredValue::U64(v));
    }
    if let Some(t) = d.project_id {
        lemma_first_value_single(h.project_id, StoredValue::Text(t));
    }
    if let Some(t) = d.session_id {
        lemma_first_value_single(h.session_id, StoredValue::Text(t));
    }
    if let Some(t) = d.file_path {
        lemma_first_value_single(h.file_path, StoredValue::Text(t));
    }
    if let Some(t) = d.diff {
        lemma_first_value_single(h.diff, StoredValue::Text(t));
    }
    if let Some(t) = d.note {
        lemma_first_value_single(h.note, StoredValue::Text(t));
    }
    assert(h.handle(FieldName::Version) == h.version);
    assert(h.handle(FieldName::IndexedAt) == h.indexed_at);
    assert(h.handle(FieldName::TimestampMs) == h.timestamp_ms);
    assert(h.handle(FieldName::Index) == h.index);
    assert(h.handle(FieldName::Id) == h.id);
    assert(h.handle(FieldName::ProjectId) == h.project_id);
    assert(h.handle(FieldName::SessionId) == h.session_id);
    assert(h.handle(FieldName::FilePath) == h.file_path);
    assert(h.handle(FieldName::Diff) == h.diff);
    assert(h.handle(FieldName::Note) == h.note);
    let e = encoded(d, h);
    assert(e == s0 + s1 + s2 + s3 + s4 + s5 + s6 + s7 + s8 + s9);
    assert(first_value_of(e, h.version) == Some(StoredValue::U64(d.version)));
    assert(first_value_of(e, h.indexed_at) == Some(StoredValue::U64(d.indexed_at)));
    assert(first_value_of(e, h.id) == Some(StoredValue::Text(d.id)));
    assert(optional_u64(e, h.timestamp_ms, FieldName::TimestampMs) == Ok::<Option<u64>, CodecFailure>(d.timestamp_ms));
    assert(optional_u64(e, h.index, FieldName::Index) == Ok::<Option<u64>, CodecFailure>(d.index));
    assert(optional_text(e, h.project_id, FieldName::ProjectId) == Ok::<Option<Seq<char>>, CodecFailure>(d.project_id));
    assert(optional_session(e, h.session_id) == Ok::<Option<Seq<char>>, CodecFailure>(d.session_id));
    assert(optional_text(e, h.file_path, FieldName::FilePath) == Ok::<Option<Seq<char>>, CodecFailure>(d.file_path));
    assert(optional_text(e, h.diff, FieldName::Diff) == Ok::<Option<Seq<char>>, CodecFailure>(d.diff));
    assert(optional_text(e, h.note, FieldName::Note) == Ok::<Option<Seq<char>>, CodecFailure>(d.note));
}

} // verus!
