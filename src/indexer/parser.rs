use vstd::prelude::*;

verus! {

/// A located declaration of a source file.
#[derive(Debug)]
pub struct CodeFragment {
    /// `struct`, `impl`, `fn`, ...
    pub kind: String,
    /// For example `crate::point::Point::new`.
    pub qual_symbol: String,
    pub start_line: usize,
    pub end_line: usize,
    pub text: String,
    pub identifiers: Vec<String>,
    pub signature: String,
    pub doc_comment: Option<String>,
}

/// The fragments of a file given by path. Parsing by path yields no
/// fragments here: parsed files reach the extractor as `syntax::ParsedSource`.
pub fn parse_rust_file(path: &str) -> (r: Result<Vec<CodeFragment>, String>)
    ensures
        r is Ok,
        r matches Ok(v) ==> v@.len() == 0,
{
    Ok(Vec::new())
}

} // verus!
