//! An activity record as the index holds it.
use crate::schema::VERSION;
use crate::session::{valid_session_text, SessionId};
use vstd::prelude::*;

verus! {

/// A record of version-control activity, ready to be indexed or read back
/// from the index.
#[derive(Debug, Default)]
pub struct IndexDocument {
    pub version: u64,
    pub timestamp_ms: Option<u64>,
    pub index: Option<u64>,
    pub id: String,
    pub project_id: Option<String>,
    pub session_id: Option<SessionId>,
    pub file_path: Option<String>,
    pub diff: Option<String>,
    pub note: Option<String>,
    pub indexed_at: u64,
}

/// What an `IndexDocument` holds, with its texts as character sequences.
pub ghost struct IndexRecord {
    pub version: u64,
    pub timestamp_ms: Option<u64>,
    pub index: Option<u64>,
    pub id: Seq<char>,
    pub project_id: Option<Seq<char>>,
    pub session_id: Option<Seq<char>>,
    pub file_path: Option<Seq<char>>,
    pub diff: Option<Seq<char>>,
    pub note: Option<Seq<char>>,
    pub indexed_at: u64,
}

/// The characters of an optional text.
pub open spec fn text_view(o: Option<String>) -> Option<Seq<char>> {
    match o {
        Some(s) => Some(s@),
        None => None,
    }
}

/// The text form of an optional session identifier.
pub open spec fn session_view(o: Option<SessionId>) -> Option<Seq<char>> {
    match o {
        Some(s) => Some(s@),
        None => None,
    }
}

/// Whether a record can be held by an `IndexDocument`: its session identifier,
/// if any, has a valid text form.
pub open spec fn record_valid(d: IndexRecord) -> bool {
    d.session_id matches Some(t) ==> valid_session_text(t)
}

impl View for IndexDocument {
    type V = IndexRecord;

    open spec fn view(&self) -> IndexRecord {
        IndexRecord {
            version: self.version,
            timestamp_ms: self.timestamp_ms,
            index: self.index,
            id: self.id@,
            project_id: text_view(self.project_id),
            session_id: session_view(self.session_id),
            file_path: text_view(self.file_path),
            diff: text_view(self.diff),
            note: text_view(self.note),
            indexed_at: self.indexed_at,
        }
    }
}

impl IndexDocument {
    /// Whether a document stored with format version `stored_version` is
    /// already current, or newer, so that indexing it again can be skipped.
    pub fn is_current(stored_version: u64) -> (r: bool)
        ensures
            r == (stored_version >= VERSION),
    {
        stored_version >= VERSION
    }

    /// Whether this record may replace a stored document of the same id whose
    /// version is `stored_version`: the version of a document never decreases.
    pub fn may_replace(&self, stored_version: u64) -> (r: bool)
        ensures
            r == (self.version >= stored_version),
    {
        self.version >= stored_version
    }
}

} // verus!
