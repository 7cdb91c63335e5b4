//! Helpers of the symbol extractor: identities, doc comments, signatures,
//! normalised text, identifier lists and module paths.
use crate::analyzer::trusted::{
    components_of, is_rooted, path_components, path_diff, regex_first_group, regex_group_one,
    regex_replace_all, regex_replaced, relative_path, sha256_digest, sha256_of, trim_whitespace,
    trimmed,
};
use crate::syntax::{AttrSyntax, FnSyntax, ImplSyntax, SourceSpan, StructSyntax};
use crate::text::{join_strings, join_with, views};
use vstd::prelude::*;
use vstd::string::{StrSliceExecFns, StringExecFns};
use vstd::utf8::encode_utf8;

verus! {

// ---------------------------------------------------------------------------
// Identity
// ---------------------------------------------------------------------------

/// The unit separator byte placed between the identifying fields.
pub const FIELD_SEPARATOR: u8 = 0x1f;

/// The bytes that are hashed: the three fields in UTF-8, separated by one
/// separator byte each.
pub open spec fn id_preimage(repo_id: Seq<char>, rel_path: Seq<char>, qual_symbol: Seq<char>) -> Seq<
    u8,
> {
    encode_utf8(repo_id) + seq![FIELD_SEPARATOR] + encode_utf8(rel_path) + seq![FIELD_SEPARATOR]
        + encode_utf8(qual_symbol)
}

/// The lowercase hexadecimal digit of a value below 16.
pub open spec fn hex_digit(n: u8) -> char {
    if n < 10 {
        ((48 + n) as u8) as char
    } else {
        ((87 + n) as u8) as char
    }
}

/// Two lowercase hexadecimal digits per byte, high nibble first.
pub open spec fn hex_of(bytes: Seq<u8>) -> Seq<char>
    decreases bytes.len(),
{
    if bytes.len() == 0 {
        Seq::empty()
    } else {
        hex_of(bytes.drop_last()) + seq![
            hex_digit(bytes.last() / 16),
            hex_digit(bytes.last() % 16),
        ]
    }
}

/// Whether the character is one of `0-9`, `a-f`.
pub open spec fn is_lower_hex(c: char) -> bool {
    ('0' <= c && c <= '9') || ('a' <= c && c <= 'f')
}

/// Whether the text is 64 lowercase hexadecimal digits.
pub open spec fn is_hex_id(s: Seq<char>) -> bool {
    s.len() == 64 && forall|i: int| 0 <= i < s.len() ==> is_lower_hex(#[trigger] s[i])
}

/// The record identifier of a declaration.
pub open spec fn record_id(repo_id: Seq<char>, rel_path: Seq<char>, qual_symbol: Seq<char>) -> Seq<
    char,
> {
    hex_of(sha256_of(id_preimage(repo_id, rel_path, qual_symbol)))
}

proof fn lemma_hex_of_shape(bytes: Seq<u8>)
    ensures
        hex_of(bytes).len() == 2 * bytes.len(),
        forall|i: int| 0 <= i < hex_of(bytes).len() ==> is_lower_hex(#[trigger] hex_of(bytes)[i]),
    decreases bytes.len(),
{
    if bytes.len() > 0 {
        lemma_hex_of_shape(bytes.drop_last());
        let b = bytes.last();
        assert(b / 16 < 16);
        assert(b % 16 < 16);
    }
}

fn hex_digit_exec(n: u8) -> (c: char)
    requires
        n < 16,
    ensures
        c == hex_digit(n),
{
    if n < 10 {
        (48 + n) as char
    } else {
        (87 + n) as char
    }
}

/// Lowercase hexadecimal text of the bytes.
pub fn lower_hex(bytes: &Vec<u8>) -> (r: String)
    ensures
        r@ == hex_of(bytes@),
{
    let mut digits: Vec<char> = Vec::new();
    let mut i: usize = 0;
    while i < bytes.len()
        invariant
            i <= bytes@.len(),
            digits@ == hex_of(bytes@.take(i as int)),
        decreases bytes@.len() - i,
    {
        let b = bytes[i];
        digits.push(hex_digit_exec(b / 16));
        digits.push(hex_digit_exec(b % 16));
        assert(bytes@.take(i + 1).drop_last() =~= bytes@.take(i as int));
        i = i + 1;
    }
    assert(bytes@.take(bytes@.len() as int) =~= bytes@);
    string_of_chars(&digits)
}

/// The string whose characters are `chars`.
pub fn string_of_chars(chars: &Vec<char>) -> (r: String)
    ensures
        r@ == chars@,
{
    let mut out = String::new();
    let mut i: usize = 0;
    while i < chars.len()
        invariant
            i <= chars@.len(),
            out@ == chars@.take(i as int),
        decreases chars@.len() - i,
    {
        crate::text::push_char(&mut out, chars[i]);
        assert(chars@.take(i + 1) =~= chars@.take(i as int).push(chars@[i as int]));
        i = i + 1;
    }
    assert(chars@.take(chars@.len() as int) =~= chars@);
    out
}

/// The content-addressed identifier of a declaration: the SHA-256 digest of
/// the repository, relative path and qualified name (separated by a unit
/// separator byte), as 64 lowercase hexadecimal digits.
pub fn sha256_id(repo_id: &str, rel_path: &str, qual_symbol: &str) -> (r: String)
    ensures
        r@ == record_id(repo_id@, rel_path@, qual_symbol@),
        r@.len() == 64,
        forall|i: int| 0 <= i < r@.len() ==> is_lower_hex(#[trigger] r@[i]),
        is_hex_id(r@),
{
    let mut data = repo_id.as_bytes_vec();
    data.push(FIELD_SEPARATOR);
    let mut path_bytes = rel_path.as_bytes_vec();
    data.append(&mut path_bytes);
    data.push(FIELD_SEPARATOR);
    let mut qual_bytes = qual_symbol.as_bytes_vec();
    data.append(&mut qual_bytes);
    assert(data@ =~= id_preimage(repo_id@, rel_path@, qual_symbol@));
    let digest = sha256_digest(&data);
    proof {
        lemma_hex_of_shape(digest@);
    }
    lower_hex(&digest)
}

/// Identifiers are a function of the identifying fields alone: equal fields
/// give equal identifiers, however often they are computed.
pub proof fn lemma_id_deterministic(
    repo_a: Seq<char>,
    path_a: Seq<char>,
    qual_a: Seq<char>,
    repo_b: Seq<char>,
    path_b: Seq<char>,
    qual_b: Seq<char>,
)
    requires
        repo_a == repo_b,
        path_a == path_b,
        qual_a == qual_b,
    ensures
        record_id(repo_a, path_a, qual_a) == record_id(repo_b, path_b, qual_b),
{
}

// ---------------------------------------------------------------------------
// Doc comments
// ---------------------------------------------------------------------------

/// The pattern that finds the literal of a `doc = "..."` attribute.
pub open spec fn doc_pattern() -> Seq<char> {
    "doc\\s*=\\s*\"([^\"]*)\""@
}

/// The doc literal of one attribute: the `doc = "..."` literal of its tokens
/// where its path is `doc`.
pub open spec fn doc_literal(a: AttrSyntax) -> Option<Seq<char>> {
    if a.is_doc {
        regex_group_one(doc_pattern(), a.tokens@)
    } else {
        None
    }
}

/// The literals that are present, in order.
pub open spec fn present(lits: Seq<Option<Seq<char>>>) -> Seq<Seq<char>>
    decreases lits.len(),
{
    if lits.len() == 0 {
        Seq::empty()
    } else {
        match lits.last() {
            Some(lit) => present(lits.drop_last()).push(lit),
            None => present(lits.drop_last()),
        }
    }
}

/// The literals that are present, in order, with a newline between every two.
pub open spec fn merged_literals(lits: Seq<Option<Seq<char>>>) -> Seq<char> {
    join_with(present(lits), "\n"@)
}

/// The doc text of the attributes: their doc literals merged.
pub open spec fn merged_docs(attrs: Seq<AttrSyntax>) -> Seq<char> {
    merged_literals(attrs.map_values(|a: AttrSyntax| doc_literal(a)))
}

/// The views of a sequence of optional strings.
pub open spec fn option_views(v: Seq<Option<String>>) -> Seq<Option<Seq<char>>> {
    v.map_values(
        |o: Option<String>|
            match o {
                Some(s) => Some(s@),
                None => None,
            },
    )
}

/// Joins the present literals, in order, with newlines between them.
pub fn join_doc_literals(lits: &Vec<Option<String>>) -> (r: String)
    ensures
        r@ == merged_literals(option_views(lits@)),
{
    let mut kept: Vec<String> = Vec::new();
    let mut i: usize = 0;
    while i < lits.len()
        invariant
            i <= lits@.len(),
            views(kept@) == present(option_views(lits@.take(i as int))),
        decreases lits@.len() - i,
    {
        assert(option_views(lits@.take(i + 1)).drop_last() =~= option_views(lits@.take(i as int)));
        let ghost before = views(kept@);
        match &lits[i] {
            Some(lit) => {
                kept.push(lit.clone());
                assert(views(kept@) =~= before.push(lit@));
            },
            None => {},
        }
        i = i + 1;
    }
    assert(lits@.take(lits@.len() as int) =~= lits@);
    join_strings(&kept, "\n")
}

/// Merges the documentation attributes, in source order, into one
/// newline-separated text.
pub fn merge_doc_comments(attrs: &Vec<AttrSyntax>) -> (r: String)
    ensures
        r@ == merged_docs(attrs@),
{
    let mut lits: Vec<Option<String>> = Vec::new();
    let mut i: usize = 0;
    while i < attrs.len()
        invariant
            i <= attrs@.len(),
            option_views(lits@) == attrs@.take(i as int).map_values(
                |a: AttrSyntax| doc_literal(a),
            ),
        decreases attrs@.len() - i,
    {
        let attr = &attrs[i];
        let lit = if attr.is_doc {
            regex_first_group("doc\\s*=\\s*\"([^\"]*)\"", attr.tokens.as_str())
        } else {
            None
        };
        let ghost before = option_views(lits@);
        lits.push(lit);
        assert(option_views(lits@) =~= before.push(doc_literal(attrs@[i as int])));
        assert(attrs@.take(i + 1).map_values(|a: AttrSyntax| doc_literal(a)) =~= attrs@.take(
            i as int,
        ).map_values(|a: AttrSyntax| doc_literal(a)).push(doc_literal(attrs@[i as int])));
        i = i + 1;
    }
    assert(attrs@.take(attrs@.len() as int) =~= attrs@);
    join_doc_literals(&lits)
}

// ---------------------------------------------------------------------------
// Signatures
// ---------------------------------------------------------------------------

/// The full header text of a type declaration.
pub fn format_struct_signature(item: &StructSyntax) -> (r: String)
    ensures
        r@ == item.tokens@,
{
    item.tokens.clone()
}

/// The header of an implementation block: `impl`, the trait (negated with `!`
/// where negative) and `for` with the target type, or the target type alone;
/// then the where-clause, if any.
pub open spec fn impl_signature(item: ImplSyntax) -> Seq<char> {
    let head = match item.trait_ref {
        Some(t) => "impl "@ + (if t.negative {
            "!"@
        } else {
            Seq::empty()
        }) + t.path@ + " for "@ + item.self_ty@,
        None => "impl "@ + item.self_ty@,
    };
    match item.where_clause {
        Some(w) => head + " "@ + w@,
        None => head,
    }
}

/// The header of an implementation block, without its body.
pub fn format_impl_signature(item: &ImplSyntax) -> (r: String)
    ensures
        r@ == impl_signature(*item),
{
    let mut tokens = String::from_str("impl ");
    match &item.trait_ref {
        Some(t) => {
            if t.negative {
                tokens.append("!");
            }
            tokens.append(t.path.as_str());
            tokens.append(" for ");
            tokens.append(item.self_ty.as_str());
        },
        None => {
            tokens.append(item.self_ty.as_str());
        },
    }
    match &item.where_clause {
        Some(w) => {
            tokens.append(" ");
            tokens.append(w.as_str());
        },
        None => {},
    }
    assert(tokens@ =~= impl_signature(*item));
    tokens
}

/// The declared signature text of a function.
pub fn format_fn_signature(item: &FnSyntax) -> (r: String)
    ensures
        r@ == item.signature@,
{
    item.signature.clone()
}

// ---------------------------------------------------------------------------
// Normalised text
// ---------------------------------------------------------------------------

/// `text` after a replacement that compiled, else `text` unchanged.
pub open spec fn replaced_or_kept(pattern: Seq<char>, text: Seq<char>, with: Seq<char>) -> Seq<
    char,
> {
    match regex_replaced(pattern, text, with) {
        Some(t) => t,
        None => text,
    }
}

/// The pattern of a whitespace run.
pub open spec fn whitespace_pattern() -> Seq<char> {
    "\\s+"@
}

/// The pattern of a line comment, to the end of its line.
pub open spec fn line_comment_pattern() -> Seq<char> {
    "//.*"@
}

/// The pattern of a block comment, up to the first `*/`.
pub open spec fn block_comment_pattern() -> Seq<char> {
    "/\\*[^*]*\\*+(?:[^/*][^*]*\\*+)*/"@
}

/// The text, trimmed, with each whitespace run made one space.
pub open spec fn compacted(s: Seq<char>) -> Seq<char> {
    replaced_or_kept(whitespace_pattern(), trimmed(s), " "@)
}

/// The text without its line comments, then without its block comments.
pub open spec fn comments_stripped(s: Seq<char>) -> Seq<char> {
    replaced_or_kept(
        block_comment_pattern(),
        replaced_or_kept(line_comment_pattern(), s, ""@),
        ""@,
    )
}

fn replace_or_keep(pattern: &str, text: String, with: &str) -> (r: String)
    ensures
        r@ == replaced_or_kept(pattern@, text@, with@),
{
    match regex_replace_all(pattern, text.as_str(), with) {
        Some(t) => t,
        None => text,
    }
}

/// Trims the text and collapses each whitespace run to one space.
pub fn compact_whitespace(s: &str) -> (r: String)
    ensures
        r@ == compacted(s@),
{
    let t = trim_whitespace(s);
    replace_or_keep("\\s+", t, " ")
}

/// Removes line comments, then block comments (not nested).
pub fn strip_comments(src: &str) -> (r: String)
    ensures
        r@ == comments_stripped(src@),
{
    let without_lines = replace_or_keep("//.*", src.to_owned(), "");
    replace_or_keep("/\\*[^*]*\\*+(?:[^/*][^*]*\\*+)*/", without_lines, "")
}

// ---------------------------------------------------------------------------
// Identifier lists
// ---------------------------------------------------------------------------

/// The names in order of first appearance, each once.
pub open spec fn first_seen(names: Seq<Seq<char>>) -> Seq<Seq<char>>
    decreases names.len(),
{
    if names.len() == 0 {
        Seq::empty()
    } else {
        let prev = first_seen(names.drop_last());
        if prev.contains(names.last()) {
            prev
        } else {
            prev.push(names.last())
        }
    }
}

/// A name list keeps no name twice, and keeps every name it was given.
pub proof fn lemma_first_seen_is_ordered_set(names: Seq<Seq<char>>)
    ensures
        first_seen(names).no_duplicates(),
        forall|n: Seq<char>| names.contains(n) <==> #[trigger] first_seen(names).contains(n),
    decreases names.len(),
{
    if names.len() > 0 {
        let rest = names.drop_last();
        let x = names.last();
        let prev = first_seen(rest);
        lemma_first_seen_is_ordered_set(rest);
        let cur = first_seen(names);
        assert forall|n: Seq<char>| names.contains(n) implies #[trigger] cur.contains(n) by {
            let k = choose|k: int| 0 <= k < names.len() && names[k] == n;
            if k < names.len() - 1 {
                assert(rest[k] == n);
                assert(rest.contains(n));
                assert(prev.contains(n));
                let j = choose|j: int| 0 <= j < prev.len() && prev[j] == n;
                if !prev.contains(x) {
                    assert(prev.push(x)[j] == n);
                }
            } else if !prev.contains(x) {
                assert(prev.push(x)[prev.len() as int] == n);
            }
        }
        assert forall|n: Seq<char>| cur.contains(n) implies #[trigger] names.contains(n) by {
            let j = choose|j: int| 0 <= j < cur.len() && cur[j] == n;
            if j < prev.len() {
                assert(prev[j] == n);
                assert(prev.contains(n));
                let k = choose|k: int| 0 <= k < rest.len() && rest[k] == n;
                assert(names[k] == n);
            } else {
                assert(names[names.len() - 1] == n);
            }
        }
    }
}

fn contains_name(names: &Vec<String>, name: &String) -> (r: bool)
    ensures
        r == views(names@).contains(name@),
{
    let mut i: usize = 0;
    while i < names.len()
        invariant
            i <= names@.len(),
            forall|j: int| 0 <= j < i ==> names@[j]@ != name@,
        decreases names@.len() - i,
    {
        if names[i].eq(name) {
            assert(views(names@)[i as int] == name@);
            return true;
        }
        i = i + 1;
    }
    assert forall|j: int| 0 <= j < views(names@).len() implies views(names@)[j] != name@ by {
        assert(views(names@)[j] == names@[j]@);
    }
    false
}

/// The identifier tokens, deduplicated in order of first appearance and
/// joined with single spaces.
pub fn collect_idents(idents: &Vec<String>) -> (r: String)
    ensures
        r@ == join_with(first_seen(views(idents@)), " "@),
{
    let mut list: Vec<String> = Vec::new();
    let mut i: usize = 0;
    while i < idents.len()
        invariant
            i <= idents@.len(),
            views(list@) == first_seen(views(idents@.take(i as int))),
        decreases idents@.len() - i,
    {
        let name = &idents[i];
        let ghost before = views(list@);
        assert(views(idents@.take(i + 1)).drop_last() =~= views(idents@.take(i as int)));
        assert(views(idents@.take(i + 1)).last() == name@);
        if !contains_name(&list, name) {
            list.push(name.clone());
            assert(views(list@) =~= before.push(name@));
        }
        i = i + 1;
    }
    assert(idents@.take(idents@.len() as int) =~= idents@);
    join_strings(&list, " ")
}

// ---------------------------------------------------------------------------
// Module paths
// ---------------------------------------------------------------------------

/// The index of the last occurrence of `c` in `s`, if any.
pub open spec fn last_index_of(s: Seq<char>, c: char) -> Option<nat>
    decreases s.len(),
{
    if s.len() == 0 {
        None
    } else if s.last() == c {
        Some((s.len() - 1) as nat)
    } else {
        last_index_of(s.drop_last(), c)
    }
}

/// The stem of a one-component path: none for `""`, `"."`, `".."` and `"/"`,
/// which name no file; else the name up to its last `.`, or the whole name
/// where it has no `.` but a leading one.
pub open spec fn file_stem_of(name: Seq<char>) -> Option<Seq<char>> {
    if name.len() == 0 || name == "."@ || name == ".."@ || name == "/"@ {
        None
    } else {
        match last_index_of(name, '.') {
            Some(k) => if k == 0 {
                Some(name)
            } else {
                Some(name.take(k as int))
            },
            None => Some(name),
        }
    }
}

/// Whether a file stem names a module root rather than a module.
pub open spec fn is_module_root_stem(stem: Seq<char>) -> bool {
    stem == "mod"@ || stem == "lib"@ || stem == "main"@
}

/// The module path of a file from the components of its path relative to the
/// scan root: a leading `src` is dropped, the file contributes its stem unless
/// that names a module root, and the rest joins under `crate`.
pub open spec fn mod_path_of(components: Seq<Seq<char>>) -> Seq<char> {
    let comps = if components.len() > 0 && components[0] == "src"@ {
        components.drop_first()
    } else {
        components
    };
    if comps.len() == 0 {
        "crate"@
    } else {
        let parts = match file_stem_of(comps.last()) {
            Some(stem) => if is_module_root_stem(stem) {
                comps.drop_last()
            } else {
                comps.drop_last().push(stem)
            },
            None => comps.drop_last(),
        };
        if parts.len() == 0 {
            "crate"@
        } else {
            "crate::"@ + join_with(parts, "::"@)
        }
    }
}

fn str_eq(a: &String, lit: &str) -> (r: bool)
    ensures
        r == (a@ == lit@),
{
    let b = String::from_str(lit);
    a.eq(&b)
}

fn last_dot(chars: &Vec<char>) -> (r: Option<usize>)
    ensures
        r matches Some(k) ==> last_index_of(chars@, '.') == Some(k as nat) && k < chars@.len(),
        r is None ==> last_index_of(chars@, '.') is None,
{
    let mut i: usize = chars.len();
    assert(chars@.take(i as int) =~= chars@);
    while i > 0
        invariant
            i <= chars@.len(),
            last_index_of(chars@, '.') == last_index_of(chars@.take(i as int), '.'),
        decreases i,
    {
        assert(chars@.take(i as int).drop_last() =~= chars@.take(i - 1));
        if chars[i - 1] == '.' {
            return Some(i - 1);
        }
        i = i - 1;
    }
    None
}

/// The stem of a one-component path (see `file_stem_of`).
pub fn file_stem(name: &String) -> (r: Option<String>)
    ensures
        r is Some == file_stem_of(name@) is Some,
        r is Some ==> r->0@ == file_stem_of(name@)->0,
{
    if name.as_str().is_empty() || str_eq(name, ".") || str_eq(name, "..") || str_eq(name, "/") {
        return None;
    }
    assert(name@.len() != 0);
    let chars = crate::text::char_vec(name.as_str());
    match last_dot(&chars) {
        Some(k) => {
            if k == 0 {
                Some(name.clone())
            } else {
                Some(name.as_str().substring_char(0, k).to_owned())
            }
        },
        None => Some(name.clone()),
    }
}

/// The module path of a file from the components of its relative path.
pub fn mod_path_from_components(components: &Vec<String>) -> (r: String)
    ensures
        r@ == mod_path_of(views(components@)),
{
    let ghost all = views(components@);
    let skip: usize = if components.len() > 0 && str_eq(&components[0], "src") {
        1
    } else {
        0
    };
    let ghost comps = all.subrange(skip as int, all.len() as int);
    assert(comps =~= if all.len() > 0 && all[0] == "src"@ {
        all.drop_first()
    } else {
        all
    });
    if components.len() == skip {
        return String::from_str("crate");
    }
    let last = components.len() - 1;
    let mut parts: Vec<String> = Vec::new();
    let mut i: usize = skip;
    while i < last
        invariant
            skip <= i <= last,
            last == components@.len() - 1,
            comps == all.subrange(skip as int, all.len() as int),
            all == views(components@),
            views(parts@) == comps.drop_last().take(i - skip),
        decreases last - i,
    {
        let ghost before = views(parts@);
        parts.push(components[i].clone());
        assert(views(parts@) =~= before.push(components@[i as int]@));
        assert(comps.drop_last()[i - skip] == components@[i as int]@);
        assert(comps.drop_last().take(i + 1 - skip) =~= comps.drop_last().take(i - skip).push(
            comps.drop_last()[i - skip],
        ));
        i = i + 1;
    }
    assert(views(parts@) =~= comps.drop_last());
    match file_stem(&components[last]) {
        Some(stem) => {
            if !(str_eq(&stem, "mod") || str_eq(&stem, "lib") || str_eq(&stem, "main")) {
                let ghost before = views(parts@);
                parts.push(stem);
                assert(views(parts@) =~= before.push(stem@));
            }
        },
        None => {},
    }
    if parts.len() == 0 {
        String::from_str("crate")
    } else {
        let joined = join_strings(&parts, "::");
        String::from_str("crate::").concat(joined.as_str())
    }
}

/// The path of `file` relative to `root`, or `file` itself where none exists.
pub open spec fn relative_or_whole(root: Seq<char>, file: Seq<char>) -> Seq<char> {
    match path_diff(file, root) {
        Some(p) => p,
        None => file,
    }
}

/// The path of `file` relative to `root`, or `file` itself where none exists.
pub fn relative_path_text(root: &str, file: &str) -> (r: String)
    ensures
        r@ == relative_or_whole(root@, file@),
        is_rooted(root@) && is_rooted(file@) && path_diff(file@, root@) is Some ==> !is_rooted(r@),
{
    match relative_path(file, root) {
        Some(p) => p,
        None => file.to_owned(),
    }
}

/// The module path of `file` under the scan root `root`.
pub fn rel_module_path(root: &str, file: &str) -> (r: String)
    ensures
        r@ == mod_path_of(components_of(relative_or_whole(root@, file@))),
{
    let rel = relative_path_text(root, file);
    let comps = path_components(rel.as_str());
    mod_path_from_components(&comps)
}

// ---------------------------------------------------------------------------
// Spans
// ---------------------------------------------------------------------------

/// The start and end of a span as (line, column) pairs, where both lines are
/// known (non-zero).
pub fn span_start_end(span: &SourceSpan) -> (r: Option<((usize, usize), (usize, usize))>)
    ensures
        r is Some == (span.start_line > 0 && span.end_line > 0),
        r is Some ==> r->0 == ((span.start_line, span.start_column), (
            span.end_line,
            span.end_column,
        )),
{
    if span.start_line > 0 && span.end_line > 0 {
        Some(((span.start_line, span.start_column), (span.end_line, span.end_column)))
    } else {
        None
    }
}

} // verus!
