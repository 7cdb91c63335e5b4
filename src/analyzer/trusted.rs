//! The calls into outside code that the analyses rely on, with the contracts
//! that the verified code assumes of them.
use vstd::prelude::*;

verus! {

/// The SHA-256 digest of a byte sequence.
pub uninterp spec fn sha256_of(data: Seq<u8>) -> Seq<u8>;

/// Relies on sha2's `Sha256::digest`: the 32-byte SHA-256 digest of `data`.
#[verifier::external_body]
pub(crate) fn sha256_digest(data: &Vec<u8>) -> (r: Vec<u8>)
    ensures
        r@ == sha256_of(data@),
        r@.len() == 32,
{
    <sha2::Sha256 as sha2::Digest>::digest(data.as_slice()).to_vec()
}

/// What replacing every match of `pattern` in `text` by `with` gives; `None`
/// where the pattern does not compile.
pub uninterp spec fn regex_replaced(pattern: Seq<char>, text: Seq<char>, with: Seq<char>) -> Option<
    Seq<char>,
>;

/// Relies on regex's `Regex::new` and `Regex::replace_all`: the text with every
/// non-overlapping match of the pattern replaced.
#[verifier::external_body]
pub(crate) fn regex_replace_all(pattern: &str, text: &str, with: &str) -> (r: Option<String>)
    ensures
        r is Some == regex_replaced(pattern@, text@, with@) is Some,
        r is Some ==> r->0@ == regex_replaced(pattern@, text@, with@)->0,
{
    match regex::Regex::new(pattern) {
        Ok(re) => Some(re.replace_all(text, with).into_owned()),
        Err(_) => None,
    }
}

/// The text of the first capture group of the leftmost match of `pattern` in
/// `text`; `None` where the pattern does not compile, nothing matches, or the
/// group takes no part in the match.
pub uninterp spec fn regex_group_one(pattern: Seq<char>, text: Seq<char>) -> Option<Seq<char>>;

/// Relies on regex's `Regex::new` and `Regex::captures`: the first capture
/// group of the leftmost match.
#[verifier::external_body]
pub(crate) fn regex_first_group(pattern: &str, text: &str) -> (r: Option<String>)
    ensures
        r is Some == regex_group_one(pattern@, text@) is Some,
        r is Some ==> r->0@ == regex_group_one(pattern@, text@)->0,
{
    match regex::Regex::new(pattern) {
        Ok(re) => match re.captures(text) {
            Some(c) => c.get(1).map(|m| m.as_str().to_string()),
            None => None,
        },
        Err(_) => None,
    }
}

/// `s` without its leading and trailing whitespace.
pub uninterp spec fn trimmed(s: Seq<char>) -> Seq<char>;

/// Relies on `str::trim`: leading and trailing whitespace removed.
#[verifier::external_body]
pub(crate) fn trim_whitespace(s: &str) -> (r: String)
    ensures
        r@ == trimmed(s@),
{
    s.trim().to_string()
}

/// The path that leads from `base` to `path`, where one exists.
pub uninterp spec fn path_diff(path: Seq<char>, base: Seq<char>) -> Option<Seq<char>>;

/// Whether a path text starts at the root directory.
pub open spec fn is_rooted(p: Seq<char>) -> bool {
    p.len() > 0 && p[0] == '/'
}

/// Relies on pathdiff's `diff_paths`: the relative path from `base` to `path`,
/// worked out from the path texts alone. Where both are rooted, the shared
/// root component is skipped and only `..` and the remaining components of
/// `path` are collected, so the result is not rooted.
#[verifier::external_body]
pub(crate) fn relative_path(path: &str, base: &str) -> (r: Option<String>)
    ensures
        r is Some == path_diff(path@, base@) is Some,
        r is Some ==> r->0@ == path_diff(path@, base@)->0,
        r is Some && is_rooted(path@) && is_rooted(base@) ==> !is_rooted(r->0@),
{
    match pathdiff::diff_paths(path, base) {
        Some(p) => Some(p.to_string_lossy().into_owned()),
        None => None,
    }
}

/// The components of a path, each as text.
pub uninterp spec fn components_of(path: Seq<char>) -> Seq<Seq<char>>;

/// Relies on `Path::components`: the path split into its components.
#[verifier::external_body]
pub(crate) fn path_components(path: &str) -> (r: Vec<String>)
    ensures
        r@.map_values(|c: String| c@) == components_of(path@),
{
    std::path::Path::new(path).components().map(
        |c| c.as_os_str().to_string_lossy().into_owned(),
    ).collect()
}

} // verus!
