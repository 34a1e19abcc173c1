//! The names of the fields that an indexed record carries.
use vstd::prelude::*;

verus! {

/// One of the ten fields of an indexed record.
#[derive(Clone, Copy, Debug, PartialEq, Eq, Structural)]
pub enum FieldName {
    Version,
    IndexedAt,
    TimestampMs,
    Index,
    Id,
    ProjectId,
    SessionId,
    FilePath,
    Diff,
    Note,
}

/// The name under which a field is declared in the schema.
pub open spec fn field_text(f: FieldName) -> Seq<char> {
    match f {
        FieldName::Version => "version"@,
        FieldName::IndexedAt => "indexed_at"@,
        FieldName::TimestampMs => "timestamp_ms"@,
        FieldName::Index => "index"@,
        FieldName::Id => "id"@,
        FieldName::ProjectId => "project_id"@,
        FieldName::SessionId => "session_id"@,
        FieldName::FilePath => "file_path"@,
        FieldName::Diff => "diff"@,
        FieldName::Note => "note"@,
    }
}

/// Distinct fields have distinct names, and every name is one the engine accepts.
pub proof fn lemma_field_texts()
    ensures
        forall|a: FieldName, b: FieldName| field_text(a) == field_text(b) ==> a == b,
        forall|a: FieldName|
            #![trigger field_text(a)]
            field_text(a).len() > 0 && field_text(a)[0] != '-',
{
    reveal_strlit("version");
    reveal_strlit("indexed_at");
    reveal_strlit("timestamp_ms");
    reveal_strlit("index");
    reveal_strlit("id");
    reveal_strlit("project_id");
    reveal_strlit("session_id");
    reveal_strlit("file_path");
    reveal_strlit("diff");
    reveal_strlit("note");
    assert forall|a: FieldName, b: FieldName| field_text(a) == field_text(b) implies a == b by {
        if a != b {
            let (x, y) = (field_text(a), field_text(b));
            assert(x.len() != y.len() || x[0] != y[0] || x[1] != y[1] || x[2] != y[2]
                || x[x.len() - 1] != y[y.len() - 1]);
        }
    }
}

impl FieldName {
    /// The name under which this field is declared in the schema.
    pub fn as_str(&self) -> (r: &'static str)
        ensures
            r@ == field_text(*self),
    {
        match self {
            FieldName::Version => "version",
            FieldName::IndexedAt => "indexed_at",
            FieldName::TimestampMs => "timestamp_ms",
            FieldName::Index => "index",
            FieldName::Id => "id",
            FieldName::ProjectId => "project_id",
            FieldName::SessionId => "session_id",
            FieldName::FilePath => "file_path",
            FieldName::Diff => "diff",
            FieldName::Note => "note",
        }
    }
}

} // verus!
