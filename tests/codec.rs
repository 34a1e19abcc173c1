use search_index::codec::{CodecError, FieldHandles};
use search_index::document::IndexDocument;
use search_index::fields::FieldName;
use search_index::schema::{build_schema, VERSION};
use search_index::session::SessionId;
use tantivy::schema::{
    Document, IndexRecordOption, Schema, TextFieldIndexing, TextOptions, FAST, INDEXED, STORED,
};

fn scenario_document() -> IndexDocument {
    IndexDocument {
        version: 7,
        indexed_at: 1000,
        id: "abc".to_string(),
        project_id: Some("p1".to_string()),
        session_id: Some(SessionId::parse("s1").unwrap()),
        file_path: Some("src/main.rs".to_string()),
        diff: Some("fn main() {}".to_string()),
        note: None,
        timestamp_ms: None,
        index: None,
    }
}

fn full_document() -> IndexDocument {
    IndexDocument {
        version: 3,
        timestamp_ms: Some(0),
        index: Some(0),
        id: "".to_string(),
        project_id: Some("".to_string()),
        session_id: Some(SessionId::parse("3f1c-9a_B").unwrap()),
        file_path: Some("a/b.rs".to_string()),
        diff: Some("".to_string()),
        note: Some("a note".to_string()),
        indexed_at: u64::MAX,
    }
}

fn assert_same(a: &IndexDocument, b: &IndexDocument) {
    assert_eq!(a.version, b.version);
    assert_eq!(a.timestamp_ms, b.timestamp_ms);
    assert_eq!(a.index, b.index);
    assert_eq!(a.id, b.id);
    assert_eq!(a.project_id, b.project_id);
    assert_eq!(
        a.session_id.as_ref().map(|s| s.to_string()),
        b.session_id.as_ref().map(|s| s.to_string())
    );
    assert_eq!(a.file_path, b.file_path);
    assert_eq!(a.diff, b.diff);
    assert_eq!(a.note, b.note);
    assert_eq!(a.indexed_at, b.indexed_at);
}

#[test]
fn scenario_round_trip_keeps_absent_fields_absent() {
    let schema = build_schema();
    let input = scenario_document();
    let doc = input.to_document(&schema).unwrap();
    let output = IndexDocument::from_document(&schema, &doc).unwrap();
    assert_same(&input, &output);
    assert_eq!(output.note, None);
    assert_eq!(output.timestamp_ms, None);
    assert_eq!(output.index, None);
    assert_eq!(output.session_id.unwrap().to_string(), "s1");
}

#[test]
fn round_trip_with_every_field_present() {
    let schema = build_schema();
    let input = full_document();
    let doc = input.to_document(&schema).unwrap();
    assert_eq!(doc.len(), 10);
    let output = IndexDocument::from_document(&schema, &doc).unwrap();
    assert_same(&input, &output);
    assert_eq!(output.timestamp_ms, Some(0));
    assert_eq!(output.diff, Some("".to_string()));
}

#[test]
fn round_trip_with_only_required_fields() {
    let schema = build_schema();
    let input = IndexDocument {
        version: VERSION,
        id: "only".to_string(),
        indexed_at: 5,
        ..IndexDocument::default()
    };
    let doc = input.to_document(&schema).unwrap();
    assert_eq!(doc.len(), 3);
    let output = IndexDocument::from_document(&schema, &doc).unwrap();
    assert_same(&input, &output);
}

#[test]
fn absent_timestamp_is_not_stored_and_decodes_absent() {
    let schema = build_schema();
    let doc = scenario_document().to_document(&schema).unwrap();
    let field = schema.get_field("timestamp_ms").unwrap();
    assert!(doc.get_first(field).is_none());
    let output = IndexDocument::from_document(&schema, &doc).unwrap();
    assert_eq!(output.timestamp_ms, None);
}

#[test]
fn encoding_writes_values_under_their_field_names() {
    let schema = build_schema();
    let doc = scenario_document().to_document(&schema).unwrap();
    let text = |name: &str| doc.get_first(schema.get_field(name).unwrap()).and_then(|v| v.as_text()).map(|s| s.to_string());
    let number = |name: &str| doc.get_first(schema.get_field(name).unwrap()).and_then(|v| v.as_u64());
    assert_eq!(number("version"), Some(7));
    assert_eq!(number("indexed_at"), Some(1000));
    assert_eq!(text("id"), Some("abc".to_string()));
    assert_eq!(text("project_id"), Some("p1".to_string()));
    assert_eq!(text("session_id"), Some("s1".to_string()));
    assert_eq!(text("file_path"), Some("src/main.rs".to_string()));
    assert_eq!(text("diff"), Some("fn main() {}".to_string()));
    assert_eq!(text("note"), None);
    assert_eq!(number("index"), None);
}

#[test]
fn schema_builds_are_identical() {
    let a = build_schema();
    let b = build_schema();
    assert_eq!(a, b);
    let names_a: Vec<String> = a.fields().map(|(_, e)| e.name().to_string()).collect();
    let names_b: Vec<String> = b.fields().map(|(_, e)| e.name().to_string()).collect();
    assert_eq!(names_a, names_b);
    assert_eq!(
        names_a,
        vec![
            "version", "indexed_at", "timestamp_ms", "index", "id", "project_id", "session_id",
            "file_path", "diff", "note"
        ]
    );
}

#[test]
fn schema_field_options() {
    let schema = build_schema();
    let entry = |name: &str| schema.get_field_entry(schema.get_field(name).unwrap()).clone();
    let version = entry("version");
    assert!(version.is_indexed());
    assert!(version.is_stored());
    assert!(!version.is_fast());
    let indexed_at = entry("indexed_at");
    assert!(!indexed_at.is_indexed());
    assert!(indexed_at.is_stored());
    let timestamp = entry("timestamp_ms");
    assert!(timestamp.is_fast());
    assert!(timestamp.is_stored());
    assert!(!timestamp.is_indexed());
    assert!(entry("index").is_stored());
    assert!(!entry("index").is_indexed());
    for name in ["id", "project_id", "session_id"] {
        let e = entry(name);
        assert!(e.is_stored());
        match e.field_type() {
            tantivy::schema::FieldType::Str(o) => {
                let i = o.get_indexing_options().unwrap();
                assert_eq!(i.tokenizer(), "raw");
                assert_eq!(i.index_option(), tantivy::schema::IndexRecordOption::Basic);
            }
            _ => panic!("{} is not a text field", name),
        }
    }
    for name in ["file_path", "diff", "note"] {
        let e = entry(name);
        assert!(e.is_stored());
        match e.field_type() {
            tantivy::schema::FieldType::Str(o) => {
                let i = o.get_indexing_options().unwrap();
                assert_eq!(i.tokenizer(), "ngram2_3");
                assert_eq!(
                    i.index_option(),
                    tantivy::schema::IndexRecordOption::WithFreqsAndPositions
                );
            }
            _ => panic!("{} is not a text field", name),
        }
    }
}

fn schema_without(missing: &[&str]) -> Schema {
    let mut b = Schema::builder();
    for name in ["version", "indexed_at", "timestamp_ms", "index"] {
        if !missing.contains(&name) {
            b.add_u64_field(name, STORED);
        }
    }
    for name in ["id", "project_id", "session_id", "file_path", "diff", "note"] {
        if !missing.contains(&name) {
            b.add_text_field(name, TextOptions::default().set_stored());
        }
    }
    b.build()
}

#[test]
fn schema_without_a_field_is_a_mismatch() {
    let schema = schema_without(&["note"]);
    match full_document().to_document(&schema) {
        Err(CodecError::SchemaMismatch(FieldName::Note)) => {}
        other => panic!("unexpected: {:?}", other.map(|_| ())),
    }
    match IndexDocument::from_document(&schema, &Document::default()) {
        Err(CodecError::SchemaMismatch(FieldName::Note)) => {}
        other => panic!("unexpected: {:?}", other.map(|_| ())),
    }
    match FieldHandles::resolve(&schema_without(&["version"])) {
        Err(CodecError::SchemaMismatch(FieldName::Version)) => {}
        other => panic!("unexpected: {:?}", other.map(|_| ())),
    }
    match scenario_document().to_document(&schema_without(&["id", "diff"])) {
        Err(CodecError::SchemaMismatch(FieldName::Id)) => {}
        other => panic!("unexpected: {:?}", other.map(|_| ())),
    }
}

#[test]
fn fields_the_record_does_not_write_may_be_missing() {
    let schema = schema_without(&["note", "timestamp_ms", "index"]);
    let input = scenario_document();
    let doc = input.to_document(&schema).unwrap();
    assert_eq!(doc.len(), 7);
    let field = schema.get_field("diff").unwrap();
    assert_eq!(doc.get_first(field).and_then(|v| v.as_text()), Some("fn main() {}"));
    let with_note = IndexDocument { note: Some("n".to_string()), ..scenario_document() };
    match with_note.to_document(&schema_without(&["timestamp_ms", "note"])) {
        Err(CodecError::SchemaMismatch(FieldName::Note)) => {}
        other => panic!("unexpected: {:?}", other.map(|_| ())),
    }
}

#[test]
fn empty_document_misses_version() {
    let schema = build_schema();
    match IndexDocument::from_document(&schema, &Document::default()) {
        Err(CodecError::MissingRequiredField(FieldName::Version)) => {}
        other => panic!("unexpected: {:?}", other.map(|_| ())),
    }
}

#[test]
fn document_without_id_misses_id() {
    let schema = build_schema();
    let mut doc = Document::default();
    doc.add_u64(schema.get_field("version").unwrap(), 7);
    doc.add_u64(schema.get_field("indexed_at").unwrap(), 1);
    match IndexDocument::from_document(&schema, &doc) {
        Err(CodecError::MissingRequiredField(FieldName::Id)) => {}
        other => panic!("unexpected: {:?}", other.map(|_| ())),
    }
}

#[test]
fn document_without_indexed_at_misses_it() {
    let schema = build_schema();
    let mut doc = Document::default();
    doc.add_u64(schema.get_field("version").unwrap(), 7);
    doc.add_text(schema.get_field("id").unwrap(), "x");
    match IndexDocument::from_document(&schema, &doc) {
        Err(CodecError::MissingRequiredField(FieldName::IndexedAt)) => {}
        other => panic!("unexpected: {:?}", other.map(|_| ())),
    }
}

#[test]
fn value_of_wrong_type_is_reported() {
    let schema = build_schema();
    let mut doc = Document::default();
    doc.add_text(schema.get_field("version").unwrap(), "7");
    match IndexDocument::from_document(&schema, &doc) {
        Err(CodecError::WrongValueType(FieldName::Version)) => {}
        other => panic!("unexpected: {:?}", other.map(|_| ())),
    }
}

#[test]
fn malformed_session_id_is_reported() {
    let schema = build_schema();
    let mut doc = scenario_document().to_document(&schema).unwrap();
    let mut fresh = Document::default();
    let session = schema.get_field("session_id").unwrap();
    for fv in doc.field_values() {
        if fv.field() != session {
            fresh.add_field_value(fv.field(), fv.value().clone());
        }
    }
    fresh.add_text(session, "not a session");
    doc = fresh;
    match IndexDocument::from_document(&schema, &doc) {
        Err(CodecError::MalformedIdentifier(raw)) => assert_eq!(raw, "not a session"),
        other => panic!("unexpected: {:?}", other.map(|_| ())),
    }
}

#[test]
fn first_value_of_a_field_wins() {
    let schema = build_schema();
    let mut doc = scenario_document().to_document(&schema).unwrap();
    doc.add_u64(schema.get_field("version").unwrap(), 99);
    let output = IndexDocument::from_document(&schema, &doc).unwrap();
    assert_eq!(output.version, 7);
}

#[test]
fn session_id_parse_rules() {
    assert_eq!(SessionId::parse("s1").unwrap().as_str(), "s1");
    assert_eq!(
        SessionId::parse("6f1a2b3c-0000-4abc-9def-0123456789ab").unwrap().to_string(),
        "6f1a2b3c-0000-4abc-9def-0123456789ab"
    );
    assert!(SessionId::parse("").is_none());
    assert!(SessionId::parse("a b").is_none());
    assert!(SessionId::parse("a/b").is_none());
    assert!(SessionId::parse("é").is_none());
    assert_eq!(SessionId::parse("x").unwrap().clone().as_str(), "x");
}

#[test]
fn field_names() {
    assert_eq!(FieldName::Version.as_str(), "version");
    assert_eq!(FieldName::IndexedAt.as_str(), "indexed_at");
    assert_eq!(FieldName::TimestampMs.as_str(), "timestamp_ms");
    assert_eq!(FieldName::Index.as_str(), "index");
    assert_eq!(FieldName::Id.as_str(), "id");
    assert_eq!(FieldName::ProjectId.as_str(), "project_id");
    assert_eq!(FieldName::SessionId.as_str(), "session_id");
    assert_eq!(FieldName::FilePath.as_str(), "file_path");
    assert_eq!(FieldName::Diff.as_str(), "diff");
    assert_eq!(FieldName::Note.as_str(), "note");
}

#[test]
fn version_never_decreases() {
    assert_eq!(VERSION, 7);
    let doc = scenario_document();
    assert!(doc.may_replace(7));
    assert!(doc.may_replace(6));
    let older = IndexDocument { version: 6, ..scenario_document() };
    assert!(!older.may_replace(7));
    assert!(IndexDocument::is_current(7));
    assert!(IndexDocument::is_current(8));
    assert!(!IndexDocument::is_current(6));
}

#[test]
fn resolved_handles_encode_and_decode() {
    let schema = build_schema();
    let handles = FieldHandles::resolve(&schema).unwrap();
    assert_eq!(handles.version, schema.get_field("version").unwrap());
    assert_eq!(handles.note, schema.get_field("note").unwrap());
    assert_ne!(handles.id, handles.project_id);
    let input = full_document();
    let doc = input.encode(&handles);
    let output = IndexDocument::decode(&handles, &doc).unwrap();
    assert_same(&input, &output);
}

#[test]
fn schema_equals_one_built_from_engine_flags() {
    let mut b = Schema::builder();
    b.add_u64_field("version", INDEXED | STORED);
    b.add_u64_field("indexed_at", STORED);
    b.add_u64_field("timestamp_ms", STORED | FAST);
    b.add_u64_field("index", STORED);
    let raw = TextOptions::default()
        .set_indexing_options(TextFieldIndexing::default().set_tokenizer("raw"))
        .set_stored();
    b.add_text_field("id", raw.clone());
    b.add_text_field("project_id", raw.clone());
    b.add_text_field("session_id", raw);
    let grams = TextOptions::default()
        .set_indexing_options(
            TextFieldIndexing::default()
                .set_tokenizer("ngram2_3")
                .set_index_option(IndexRecordOption::WithFreqsAndPositions),
        )
        .set_stored();
    b.add_text_field("file_path", grams.clone());
    b.add_text_field("diff", grams.clone());
    b.add_text_field("note", grams);
    let expected = b.build();
    let built = build_schema();
    assert_eq!(built, expected);
    assert!(built.get_field_entry(built.get_field("version").unwrap()).has_fieldnorms());
    for name in ["version", "indexed_at", "timestamp_ms", "index", "id", "note"] {
        assert_eq!(built.get_field(name).unwrap(), expected.get_field(name).unwrap());
    }
}
