use search_index::document::IndexDocument;
use search_index::schema::build_schema;
use search_index::session::SessionId;
use tantivy::collector::Count;
use tantivy::query::TermQuery;
use tantivy::schema::{IndexRecordOption, Schema};
use tantivy::tokenizer::NgramTokenizer;
use tantivy::{Index, Term};

fn record(id: &str, diff: &str) -> IndexDocument {
    IndexDocument {
        version: 7,
        indexed_at: 1,
        id: id.to_string(),
        project_id: Some("p1".to_string()),
        session_id: Some(SessionId::parse("s1").unwrap()),
        file_path: Some("src/main.rs".to_string()),
        diff: Some(diff.to_string()),
        note: Some("Refactor parser".to_string()),
        timestamp_ms: Some(42),
        index: Some(3),
    }
}

fn indexed(schema: &Schema, docs: &[IndexDocument]) -> Index {
    let index = Index::create_in_ram(schema.clone());
    index.tokenizers().register("ngram2_3", NgramTokenizer::new(2, 3, false).unwrap());
    let mut writer = index.writer_with_num_threads(1, 15_000_000).unwrap();
    for d in docs {
        writer.add_document(d.to_document(schema).unwrap()).unwrap();
    }
    writer.commit().unwrap();
    index
}

fn hits(index: &Index, schema: &Schema, field: &str, text: &str) -> usize {
    let searcher = index.reader().unwrap().searcher();
    let term = Term::from_field_text(schema.get_field(field).unwrap(), text);
    searcher
        .search(&TermQuery::new(term, IndexRecordOption::Basic), &Count)
        .unwrap()
}

#[test]
fn identifiers_match_whole_values_only() {
    let schema = build_schema();
    let index = indexed(&schema, &[record("abc", "fn main() {}"), record("ABC", "let x = 1;")]);
    assert_eq!(hits(&index, &schema, "id", "abc"), 1);
    assert_eq!(hits(&index, &schema, "id", "ABC"), 1);
    assert_eq!(hits(&index, &schema, "id", "ab"), 0);
    assert_eq!(hits(&index, &schema, "id", "bc"), 0);
    assert_eq!(hits(&index, &schema, "project_id", "p"), 0);
    assert_eq!(hits(&index, &schema, "project_id", "p1"), 2);
}

#[test]
fn texts_match_substrings() {
    let schema = build_schema();
    let index = indexed(&schema, &[record("abc", "fn main() {}"), record("ABC", "let x = 1;")]);
    assert_eq!(hits(&index, &schema, "diff", "ma"), 1);
    assert_eq!(hits(&index, &schema, "diff", "ain"), 1);
    assert_eq!(hits(&index, &schema, "file_path", "ai"), 2);
    assert_eq!(hits(&index, &schema, "note", "rse"), 2);
}

#[test]
fn stored_record_reads_back_from_the_index() {
    let schema = build_schema();
    let input = record("abc", "fn main() {}");
    let index = indexed(&schema, &[input]);
    let searcher = index.reader().unwrap().searcher();
    let term = Term::from_field_text(schema.get_field("id").unwrap(), "abc");
    let top = searcher
        .search(
            &TermQuery::new(term, IndexRecordOption::Basic),
            &tantivy::collector::TopDocs::with_limit(1),
        )
        .unwrap();
    let stored = searcher.doc(top[0].1).unwrap();
    let output = IndexDocument::from_document(&schema, &stored).unwrap();
    assert_eq!(output.id, "abc");
    assert_eq!(output.version, 7);
    assert_eq!(output.timestamp_ms, Some(42));
    assert_eq!(output.index, Some(3));
    assert_eq!(output.diff, Some("fn main() {}".to_string()));
    assert_eq!(output.session_id.unwrap().as_str(), "s1");
}
