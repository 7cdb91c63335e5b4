//! The index records that a scan emits.
use vstd::prelude::*;

verus! {

/// The record text meant for embedding-based search.
#[derive(Debug, Clone)]
pub struct VectorFields {
    pub signature: String,
    pub identifiers: String,
    pub code_body: String,
    pub doc_comment: String,
}

/// The record's metadata, used for filtering and display.
#[derive(Debug, Clone)]
pub struct OutputPayload {
    pub repo_id: String,
    pub path: String,
    pub kind: String,
    pub qual_symbol: String,
    pub start_line: usize,
    pub end_line: usize,
    pub text: String,
}

/// One index record per declaration.
#[derive(Debug, Clone)]
pub struct OutputRecord {
    pub id: String,
    pub vector_fields: VectorFields,
    pub payload: OutputPayload,
}

/// A record with every text field as its characters.
pub struct RecordView {
    pub id: Seq<char>,
    pub signature: Seq<char>,
    pub identifiers: Seq<char>,
    pub code_body: Seq<char>,
    pub doc_comment: Seq<char>,
    pub repo_id: Seq<char>,
    pub path: Seq<char>,
    pub kind: Seq<char>,
    pub qual_symbol: Seq<char>,
    pub start_line: nat,
    pub end_line: nat,
    pub text: Seq<char>,
}

impl View for OutputRecord {
    type V = RecordView;

    open spec fn view(&self) -> RecordView {
        RecordView {
            id: self.id@,
            signature: self.vector_fields.signature@,
            identifiers: self.vector_fields.identifiers@,
            code_body: self.vector_fields.code_body@,
            doc_comment: self.vector_fields.doc_comment@,
            repo_id: self.payload.repo_id@,
            path: self.payload.path@,
            kind: self.payload.kind@,
            qual_symbol: self.payload.qual_symbol@,
            start_line: self.payload.start_line as nat,
            end_line: self.payload.end_line as nat,
            text: self.payload.text@,
        }
    }
}

/// The views of a sequence of records.
pub open spec fn record_views(v: Seq<OutputRecord>) -> Seq<RecordView> {
    v.map_values(|r: OutputRecord| r@)
}

/// The three record kinds.
pub open spec fn is_record_kind(k: Seq<char>) -> bool {
    k == "struct"@ || k == "impl"@ || k == "fn"@
}

impl OutputRecord {
    /// Assembles a record from its fields.
    pub fn new(
        id: String,
        vector_fields: VectorFields,
        repo_id: &str,
        path: &str,
        kind: &str,
        qual_symbol: String,
        start_line: usize,
        end_line: usize,
        text: String,
    ) -> (r: OutputRecord)
        ensures
            r@ == (RecordView {
                id: id@,
                signature: vector_fields.signature@,
                identifiers: vector_fields.identifiers@,
                code_body: vector_fields.code_body@,
                doc_comment: vector_fields.doc_comment@,
                repo_id: repo_id@,
                path: path@,
                kind: kind@,
                qual_symbol: qual_symbol@,
                start_line: start_line as nat,
                end_line: end_line as nat,
                text: text@,
            }),
    {
        OutputRecord {
            id,
            vector_fields,
            payload: OutputPayload {
                repo_id: repo_id.to_owned(),
                path: path.to_owned(),
                kind: kind.to_owned(),
                qual_symbol,
                start_line,
                end_line,
                text,
            },
        }
    }
}

} // verus!
