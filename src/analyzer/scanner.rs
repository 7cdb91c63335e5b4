//! The symbol extractor and the scan over a set of parsed files.
use crate::analyzer::locate::{find_from, locate_item_text, located};
use crate::analyzer::model::{is_record_kind, record_views, OutputRecord, RecordView, VectorFields};
use crate::analyzer::trusted::{components_of, is_rooted, path_diff};
use crate::analyzer::util::{
    collect_idents, comments_stripped, compact_whitespace, compacted, first_seen,
    format_fn_signature, format_impl_signature, format_struct_signature, impl_signature,
    is_hex_id, last_index_of, merge_doc_comments, merged_docs, mod_path_of, record_id,
    rel_module_path, relative_or_whole, relative_path_text, sha256_id, strip_comments,
};
use crate::syntax::{FnSyntax, ImplSyntax, ItemSyntax, MethodSyntax, ParsedSource, StructSyntax};
use crate::text::{char_vec, join_with, views};
use vstd::prelude::*;
use vstd::string::StringExecFns;

verus! {

/// What a scan is run on: the root directory and the repository identifier.
#[derive(Clone, Debug)]
pub struct AnalyzeConfig {
    pub path: String,
    pub repo_id: String,
}

/// One file handed to a scan: its path, and its parsed form or the reason it
/// could not be read or parsed.
pub struct SourceUnit {
    pub path: String,
    pub source: Result<ParsedSource, String>,
}

/// A file that was skipped, and why.
#[derive(Clone, Debug)]
pub struct ScanWarning {
    pub path: String,
    pub reason: String,
}

/// The outcome of a scan: the records of every file that parsed, and a
/// warning for every file that did not.
pub struct ScanReport {
    pub records: Vec<OutputRecord>,
    pub warnings: Vec<ScanWarning>,
}

// ---------------------------------------------------------------------------
// File selection
// ---------------------------------------------------------------------------

/// The extension of a one-component file name: none for names that name no
/// file, that hold no `.`, or whose only `.` leads; else the text after the
/// last `.`.
pub open spec fn extension_of(name: Seq<char>) -> Option<Seq<char>> {
    if name.len() == 0 || name == "."@ || name == ".."@ || name == "/"@ {
        None
    } else {
        match last_index_of(name, '.') {
            Some(k) => if k == 0 {
                None
            } else {
                Some(name.skip((k + 1) as int))
            },
            None => None,
        }
    }
}

/// Whether a path lies under a build-output directory or names a generated
/// file.
pub open spec fn is_excluded_path(path: Seq<char>) -> bool {
    find_from(path, "/target/"@, 0) is Some || (path.len() >= ".generated.rs"@.len() && path.skip(
        path.len() - ".generated.rs"@.len(),
    ) == ".generated.rs"@)
}

/// Whether a walked entry is a source file that a scan reads.
pub open spec fn is_candidate_spec(path: Seq<char>, file_name: Seq<char>, is_dir: bool) -> bool {
    !is_dir && !is_excluded_path(path) && extension_of(file_name) == Some("rs"@)
}

fn ends_with_chars(s: &Vec<char>, suffix: &Vec<char>) -> (r: bool)
    ensures
        r == (s@.len() >= suffix@.len() && s@.skip(s@.len() - suffix@.len()) == suffix@),
{
    if s.len() < suffix.len() {
        return false;
    }
    let n = s.len();
    let off = s.len() - suffix.len();
    let mut j: usize = 0;
    while j < suffix.len()
        invariant
            n == s@.len(),
            off == s@.len() - suffix@.len(),
            j <= suffix@.len(),
            forall|k: int| 0 <= k < j ==> s@[off + k] == suffix@[k],
        decreases suffix@.len() - j,
    {
        if s[off + j] != suffix[j] {
            assert(s@.skip(off as int)[j as int] != suffix@[j as int]);
            return false;
        }
        j = j + 1;
    }
    assert(s@.skip(off as int) =~= suffix@);
    true
}

fn contains_chars(s: &Vec<char>, needle: &Vec<char>) -> (r: bool)
    ensures
        r == (find_from(s@, needle@, 0) is Some),
{
    let mut i: usize = 0;
    if s.len() < needle.len() {
        return false;
    }
    let n = s.len();
    let last = s.len() - needle.len();
    while i <= last
        invariant
            n == s@.len(),
            last == s@.len() - needle@.len(),
            find_from(s@, needle@, 0) == find_from(s@, needle@, i as nat),
        decreases s@.len() - i,
    {
        let mut j: usize = 0;
        let mut same = true;
        while j < needle.len()
            invariant
                n == s@.len(),
                last == s@.len() - needle@.len(),
                i <= last,
                j <= needle@.len(),
                same == (forall|k: int| 0 <= k < j ==> s@[i + k] == needle@[k]),
            decreases needle@.len() - j,
        {
            if s[i + j] != needle[j] {
                same = false;
            }
            j = j + 1;
        }
        if same {
            assert(s@.subrange(i as int, i + needle@.len()) =~= needle@);
            return true;
        }
        assert(s@.subrange(i as int, i + needle@.len()) != needle@) by {
            let k = choose|k: int| 0 <= k < needle@.len() && s@[i + k] != needle@[k];
            assert(s@.subrange(i as int, i + needle@.len())[k] != needle@[k]);
        }
        if i == last {
            assert(find_from(s@, needle@, (i + 1) as nat) is None);
            return false;
        }
        i = i + 1;
    }
    false
}

/// Whether a path lies under a build-output directory or names a generated
/// file.
pub fn is_excluded(path: &str) -> (r: bool)
    ensures
        r == is_excluded_path(path@),
{
    let chars = char_vec(path);
    let target = char_vec("/target/");
    let generated = char_vec(".generated.rs");
    contains_chars(&chars, &target) || ends_with_chars(&chars, &generated)
}

/// Whether a walked entry is a source file that a scan reads: not a
/// directory, not excluded, and with the extension `rs`.
pub fn is_candidate(path: &str, file_name: &str, is_dir: bool) -> (r: bool)
    ensures
        r == is_candidate_spec(path@, file_name@, is_dir),
{
    if is_dir || is_excluded(path) {
        return false;
    }
    let name = String::from_str(file_name);
    if name.as_str().is_empty() || name.eq(&String::from_str(".")) || name.eq(
        &String::from_str(".."),
    ) || name.eq(&String::from_str("/")) {
        return false;
    }
    let chars = char_vec(file_name);
    let mut i: usize = chars.len();
    assert(chars@.take(i as int) =~= chars@);
    while i > 0
        invariant
            i <= chars@.len(),
            chars@ == file_name@,
            !is_dir && !is_excluded_path(path@),
            !(file_name@.len() == 0 || file_name@ == "."@ || file_name@ == ".."@ || file_name@
                == "/"@),
            last_index_of(chars@, '.') == last_index_of(chars@.take(i as int), '.'),
        decreases i,
    {
        assert(chars@.take(i as int).drop_last() =~= chars@.take(i - 1));
        if chars[i - 1] == '.' {
            assert(chars@.take(i as int).last() == '.');
            if i == 1 {
                return false;
            }
            let ext = file_name.substring_char(i, chars.len());
            let rs = String::from_str("rs");
            return ext.to_owned().eq(&rs);
        }
        i = i - 1;
    }
    false
}

// ---------------------------------------------------------------------------
// Records of one file
// ---------------------------------------------------------------------------

/// Every record's identifier is 64 lowercase hexadecimal digits.
pub open spec fn all_hex_ids(v: Seq<OutputRecord>) -> bool {
    forall|i: int| 0 <= i < v.len() ==> is_hex_id(#[trigger] v[i].id@)
}

proof fn lemma_hex_ids_append(a: Seq<OutputRecord>, b: Seq<OutputRecord>)
    requires
        all_hex_ids(a),
        all_hex_ids(b),
    ensures
        all_hex_ids(a + b),
{
    assert forall|i: int| 0 <= i < (a + b).len() implies is_hex_id(#[trigger] (a + b)[i].id@) by {
        if i < a.len() {
            assert((a + b)[i] == a[i]);
        } else {
            assert((a + b)[i] == b[i - a.len()]);
        }
    }
}

proof fn lemma_hex_ids_push(a: Seq<OutputRecord>, r: OutputRecord)
    requires
        all_hex_ids(a),
        is_hex_id(r.id@),
    ensures
        all_hex_ids(a.push(r)),
{
    assert forall|i: int| 0 <= i < a.push(r).len() implies is_hex_id(#[trigger] a.push(r)[i].id@) by {
        if i < a.len() {
            assert(a.push(r)[i] == a[i]);
        }
    }
}

/// What the records of one file share.
pub struct FileContext {
    pub repo_id: Seq<char>,
    pub rel_path: Seq<char>,
    pub mod_path: Seq<char>,
    pub content: Seq<char>,
}

/// `a::b`.
pub open spec fn qualify(a: Seq<char>, b: Seq<char>) -> Seq<char> {
    a + "::"@ + b
}

/// The identifier list of a declaration.
pub open spec fn ident_list(idents: Seq<String>) -> Seq<char> {
    join_with(first_seen(views(idents)), " "@)
}

/// The normalised form of a text: comments stripped, whitespace compacted.
pub open spec fn normalized(text: Seq<char>) -> Seq<char> {
    compacted(comments_stripped(text))
}

/// The record of a type declaration, located by its text.
pub open spec fn struct_record(s: StructSyntax, ctx: FileContext) -> RecordView {
    let qual = qualify(ctx.mod_path, s.name@);
    let loc = located(ctx.content, s.name@, "struct"@);
    RecordView {
        id: record_id(ctx.repo_id, ctx.rel_path, qual),
        signature: s.tokens@,
        identifiers: ident_list(s.idents@),
        code_body: normalized(loc.2),
        doc_comment: merged_docs(s.attrs@),
        repo_id: ctx.repo_id,
        path: ctx.rel_path,
        kind: "struct"@,
        qual_symbol: qual,
        start_line: loc.0,
        end_line: loc.1,
        text: loc.2,
    }
}

/// The record of an implementation block: text and lines from its syntax
/// tree span.
pub open spec fn impl_record(im: ImplSyntax, ctx: FileContext) -> RecordView {
    let qual = qualify(ctx.mod_path, im.self_ty@);
    let text = im.tokens@;
    RecordView {
        id: record_id(ctx.repo_id, ctx.rel_path, qual),
        signature: impl_signature(im),
        identifiers: ident_list(im.idents@),
        code_body: normalized(text),
        doc_comment: merged_docs(im.attrs@),
        repo_id: ctx.repo_id,
        path: ctx.rel_path,
        kind: "impl"@,
        qual_symbol: qual,
        start_line: im.span.start_line as nat,
        end_line: im.span.end_line as nat,
        text,
    }
}

/// The record of a method of the implementation block for `self_ty`.
pub open spec fn method_record(m: MethodSyntax, self_ty: Seq<char>, ctx: FileContext) -> RecordView {
    let qual = qualify(qualify(ctx.mod_path, self_ty), m.name@);
    RecordView {
        id: record_id(ctx.repo_id, ctx.rel_path, qual),
        signature: m.signature@,
        identifiers: ident_list(m.idents@),
        code_body: if m.has_statements {
            normalized(m.block@)
        } else {
            Seq::empty()
        },
        doc_comment: merged_docs(m.attrs@),
        repo_id: ctx.repo_id,
        path: ctx.rel_path,
        kind: "fn"@,
        qual_symbol: qual,
        start_line: m.span.start_line as nat,
        end_line: m.span.end_line as nat,
        text: m.tokens@,
    }
}

/// The record of a free function.
pub open spec fn fn_record(f: FnSyntax, ctx: FileContext) -> RecordView {
    let qual = qualify(ctx.mod_path, f.name@);
    RecordView {
        id: record_id(ctx.repo_id, ctx.rel_path, qual),
        signature: f.signature@,
        identifiers: ident_list(f.idents@),
        code_body: normalized(f.block@),
        doc_comment: merged_docs(f.attrs@),
        repo_id: ctx.repo_id,
        path: ctx.rel_path,
        kind: "fn"@,
        qual_symbol: qual,
        start_line: f.span.start_line as nat,
        end_line: f.span.end_line as nat,
        text: f.tokens@,
    }
}

/// The records of the methods of an implementation block, in order.
pub open spec fn method_records(methods: Seq<MethodSyntax>, self_ty: Seq<char>, ctx: FileContext) -> Seq<
    RecordView,
>
    decreases methods.len(),
{
    if methods.len() == 0 {
        Seq::empty()
    } else {
        method_records(methods.drop_last(), self_ty, ctx).push(
            method_record(methods.last(), self_ty, ctx),
        )
    }
}

/// The records of one top-level declaration: one for a type, one for an
/// implementation block followed by one per method, one for a function.
pub open spec fn item_records(item: ItemSyntax, ctx: FileContext) -> Seq<RecordView> {
    match item {
        ItemSyntax::Struct(s) => seq![struct_record(s, ctx)],
        ItemSyntax::Impl(im) => seq![impl_record(im, ctx)] + method_records(
            im.methods@,
            im.self_ty@,
            ctx,
        ),
        ItemSyntax::Fn(f) => seq![fn_record(f, ctx)],
        ItemSyntax::Other => Seq::empty(),
    }
}

/// The records of a file's declarations, in declaration order.
pub open spec fn file_records(items: Seq<ItemSyntax>, ctx: FileContext) -> Seq<RecordView>
    decreases items.len(),
{
    if items.len() == 0 {
        Seq::empty()
    } else {
        file_records(items.drop_last(), ctx) + item_records(items.last(), ctx)
    }
}

/// What the records of the file `file` under `root` share.
pub open spec fn file_context(root: Seq<char>, file: Seq<char>, repo_id: Seq<char>, content: Seq<
    char,
>) -> FileContext {
    let rel = relative_or_whole(root, file);
    FileContext {
        repo_id,
        rel_path: rel,
        mod_path: mod_path_of(components_of(rel)),
        content,
    }
}

fn qualify_exec(a: &String, b: &String) -> (r: String)
    ensures
        r@ == qualify(a@, b@),
{
    let mut r = a.clone();
    r.append("::");
    r.append(b.as_str());
    r
}

fn vector_fields(signature: String, identifiers: String, code_body: String, doc_comment: String) -> (r:
    VectorFields)
    ensures
        r.signature@ == signature@,
        r.identifiers@ == identifiers@,
        r.code_body@ == code_body@,
        r.doc_comment@ == doc_comment@,
{
    VectorFields { signature, identifiers, code_body, doc_comment }
}

fn normalize(text: &str) -> (r: String)
    ensures
        r@ == normalized(text@),
{
    let stripped = strip_comments(text);
    compact_whitespace(stripped.as_str())
}

fn struct_record_exec(
    s: &StructSyntax,
    repo_id: &str,
    rel_path: &String,
    mod_path: &String,
    content: &str,
    Ghost(ctx): Ghost<FileContext>,
) -> (r: OutputRecord)
    requires
        ctx.repo_id == repo_id@,
        ctx.rel_path == rel_path@,
        ctx.mod_path == mod_path@,
        ctx.content == content@,
    ensures
        r@ == struct_record(*s, ctx),
        is_hex_id(r.id@),
{
    let qual = qualify_exec(mod_path, &s.name);
    let (start, end, text) = locate_item_text(content, s.name.as_str(), "struct");
    let doc = merge_doc_comments(&s.attrs);
    let signature = format_struct_signature(s);
    let identifiers = collect_idents(&s.idents);
    let code_body = normalize(text.as_str());
    let id = sha256_id(repo_id, rel_path.as_str(), qual.as_str());
    let fields = vector_fields(signature, identifiers, code_body, doc);
    let r = OutputRecord::new(
        id,
        fields,
        repo_id,
        rel_path.as_str(),
        "struct",
        qual,
        start,
        end,
        text,
    );
    assert(r@ =~= struct_record(*s, ctx));
    r
}

fn method_record_exec(
    m: &MethodSyntax,
    self_ty: &String,
    repo_id: &str,
    rel_path: &String,
    mod_path: &String,
    Ghost(ctx): Ghost<FileContext>,
) -> (r: OutputRecord)
    requires
        ctx.repo_id == repo_id@,
        ctx.rel_path == rel_path@,
        ctx.mod_path == mod_path@,
    ensures
        r@ == method_record(*m, self_ty@, ctx),
        is_hex_id(r.id@),
{
    let owner = qualify_exec(mod_path, self_ty);
    let qual = qualify_exec(&owner, &m.name);
    let identifiers = collect_idents(&m.idents);
    let doc = merge_doc_comments(&m.attrs);
    let code_body = if m.has_statements {
        normalize(m.block.as_str())
    } else {
        String::new()
    };
    let id = sha256_id(repo_id, rel_path.as_str(), qual.as_str());
    let fields = vector_fields(m.signature.clone(), identifiers, code_body, doc);
    let r = OutputRecord::new(
        id,
        fields,
        repo_id,
        rel_path.as_str(),
        "fn",
        qual,
        m.span.start_line,
        m.span.end_line,
        m.tokens.clone(),
    );
    assert(r@ =~= method_record(*m, self_ty@, ctx));
    r
}

fn impl_records_exec(
    im: &ImplSyntax,
    repo_id: &str,
    rel_path: &String,
    mod_path: &String,
    out: &mut Vec<OutputRecord>,
    Ghost(ctx): Ghost<FileContext>,
)
    requires
        ctx.repo_id == repo_id@,
        ctx.rel_path == rel_path@,
        ctx.mod_path == mod_path@,
        all_hex_ids(old(out)@),
    ensures
        record_views(final(out)@) == record_views(old(out)@) + item_records(
            ItemSyntax::Impl(*im),
            ctx,
        ),
        all_hex_ids(final(out)@),
{
    let qual = qualify_exec(mod_path, &im.self_ty);
    let text = im.tokens.clone();
    let doc = merge_doc_comments(&im.attrs);
    let signature = format_impl_signature(im);
    let identifiers = collect_idents(&im.idents);
    let code_body = normalize(text.as_str());
    let id = sha256_id(repo_id, rel_path.as_str(), qual.as_str());
    let fields = vector_fields(signature, identifiers, code_body, doc);
    let head = OutputRecord::new(
        id,
        fields,
        repo_id,
        rel_path.as_str(),
        "impl",
        qual,
        im.span.start_line,
        im.span.end_line,
        text,
    );
    assert(head@ =~= impl_record(*im, ctx));
    let ghost start = record_views(out@);
    proof {
        lemma_hex_ids_push(out@, head);
    }
    out.push(head);
    assert(record_views(out@) =~= start + seq![impl_record(*im, ctx)]);
    let mut i: usize = 0;
    while i < im.methods.len()
        invariant
            i <= im.methods@.len(),
            ctx.repo_id == repo_id@,
            ctx.rel_path == rel_path@,
            ctx.mod_path == mod_path@,
            start == record_views(old(out)@),
            record_views(out@) == start + seq![impl_record(*im, ctx)] + method_records(
                im.methods@.take(i as int),
                im.self_ty@,
                ctx,
            ),
            all_hex_ids(out@),
        decreases im.methods@.len() - i,
    {
        let rec = method_record_exec(&im.methods[i], &im.self_ty, repo_id, rel_path, mod_path, Ghost(ctx));
        let ghost before = record_views(out@);
        proof {
            lemma_hex_ids_push(out@, rec);
        }
        out.push(rec);
        assert(record_views(out@) =~= before.push(rec@));
        assert(im.methods@.take(i + 1).drop_last() =~= im.methods@.take(i as int));
        i = i + 1;
    }
    assert(im.methods@.take(im.methods@.len() as int) =~= im.methods@);
    assert(record_views(out@) =~= record_views(old(out)@) + item_records(ItemSyntax::Impl(*im), ctx));
}

fn fn_record_exec(
    f: &FnSyntax,
    repo_id: &str,
    rel_path: &String,
    mod_path: &String,
    Ghost(ctx): Ghost<FileContext>,
) -> (r: OutputRecord)
    requires
        ctx.repo_id == repo_id@,
        ctx.rel_path == rel_path@,
        ctx.mod_path == mod_path@,
    ensures
        r@ == fn_record(*f, ctx),
        is_hex_id(r.id@),
{
    let qual = qualify_exec(mod_path, &f.name);
    let signature = format_fn_signature(f);
    let identifiers = collect_idents(&f.idents);
    let doc = merge_doc_comments(&f.attrs);
    let code_body = normalize(f.block.as_str());
    let id = sha256_id(repo_id, rel_path.as_str(), qual.as_str());
    let fields = vector_fields(signature, identifiers, code_body, doc);
    let r = OutputRecord::new(
        id,
        fields,
        repo_id,
        rel_path.as_str(),
        "fn",
        qual,
        f.span.start_line,
        f.span.end_line,
        f.tokens.clone(),
    );
    assert(r@ =~= fn_record(*f, ctx));
    r
}

/// The records of one parsed file under the scan root `root`, in declaration
/// order.
pub fn process_file(root: &str, file: &str, repo_id: &str, source: &ParsedSource) -> (r: Vec<
    OutputRecord,
>)
    ensures
        record_views(r@) == file_records(
            source.items@,
            file_context(root@, file@, repo_id@, source.content@),
        ),
        all_hex_ids(r@),
        forall|i: int|
            0 <= i < r@.len() ==> (#[trigger] r@[i]).payload.path@ == relative_or_whole(
                root@,
                file@,
            ),
        is_rooted(root@) && is_rooted(file@) && path_diff(file@, root@) is Some ==> forall|i: int|
            0 <= i < r@.len() ==> !is_rooted((#[trigger] r@[i]).payload.path@),
{
    let mod_path = rel_module_path(root, file);
    let rel_path = relative_path_text(root, file);
    let ghost ctx = file_context(root@, file@, repo_id@, source.content@);
    let content = source.content.as_str();
    let mut records: Vec<OutputRecord> = Vec::new();
    let mut i: usize = 0;
    assert(record_views(records@) =~= Seq::<RecordView>::empty());
    while i < source.items.len()
        invariant
            i <= source.items@.len(),
            ctx == file_context(root@, file@, repo_id@, source.content@),
            ctx.repo_id == repo_id@,
            ctx.rel_path == rel_path@,
            ctx.mod_path == mod_path@,
            ctx.content == content@,
            record_views(records@) == file_records(source.items@.take(i as int), ctx),
            all_hex_ids(records@),
        decreases source.items@.len() - i,
    {
        let ghost before = record_views(records@);
        match &source.items[i] {
            ItemSyntax::Struct(s) => {
                let rec = struct_record_exec(s, repo_id, &rel_path, &mod_path, content, Ghost(ctx));
                proof {
                    lemma_hex_ids_push(records@, rec);
                }
                records.push(rec);
                assert(record_views(records@) =~= before + seq![rec@]);
            },
            ItemSyntax::Impl(im) => {
                impl_records_exec(im, repo_id, &rel_path, &mod_path, &mut records, Ghost(ctx));
            },
            ItemSyntax::Fn(f) => {
                let rec = fn_record_exec(f, repo_id, &rel_path, &mod_path, Ghost(ctx));
                proof {
                    lemma_hex_ids_push(records@, rec);
                }
                records.push(rec);
                assert(record_views(records@) =~= before + seq![rec@]);
            },
            ItemSyntax::Other => {
                assert(record_views(records@) =~= before + Seq::<RecordView>::empty());
            },
        }
        assert(source.items@.take(i + 1).drop_last() =~= source.items@.take(i as int));
        i = i + 1;
    }
    assert(source.items@.take(source.items@.len() as int) =~= source.items@);
    proof {
        lemma_file_records_shape(source.items@, ctx);
        assert forall|i: int| 0 <= i < records@.len() implies (#[trigger] records@[i]).payload.path@
            == relative_or_whole(root@, file@) by {
            assert(record_views(records@)[i] == records@[i]@);
        }
    }
    records
}

// ---------------------------------------------------------------------------
// The scan
// ---------------------------------------------------------------------------

/// `path` is the record path of `file` under `root`: relative to the root,
/// and not rooted where both are rooted and a relative path exists.
pub open spec fn is_record_path(path: Seq<char>, root: Seq<char>, file: Seq<char>) -> bool {
    &&& path == relative_or_whole(root, file)
    &&& is_rooted(root) && is_rooted(file) && path_diff(file, root) is Some ==> !is_rooted(path)
}

/// Every record carries the record path of one of the units' files.
pub open spec fn paths_from_units(v: Seq<OutputRecord>, root: Seq<char>, units: Seq<SourceUnit>) -> bool {
    forall|i: int|
        0 <= i < v.len() ==> exists|j: int|
            0 <= j < units.len() && is_record_path((#[trigger] v[i]).payload.path@, root, units[j].path@)
}

/// The records that one unit contributes: those of its file where it parsed,
/// none where it did not.
pub open spec fn unit_records(u: SourceUnit, root: Seq<char>, repo_id: Seq<char>) -> Seq<RecordView> {
    match u.source {
        Ok(p) => file_records(p.items@, file_context(root, u.path@, repo_id, p.content@)),
        Err(_) => Seq::empty(),
    }
}

/// The records of a scan: those of each unit, in order.
pub open spec fn scan_records(units: Seq<SourceUnit>, root: Seq<char>, repo_id: Seq<char>) -> Seq<
    RecordView,
>
    decreases units.len(),
{
    if units.len() == 0 {
        Seq::empty()
    } else {
        scan_records(units.drop_last(), root, repo_id) + unit_records(units.last(), root, repo_id)
    }
}

/// The warnings of a scan: the path and reason of each unit that did not
/// parse, in order.
pub open spec fn scan_warnings(units: Seq<SourceUnit>) -> Seq<(Seq<char>, Seq<char>)>
    decreases units.len(),
{
    if units.len() == 0 {
        Seq::empty()
    } else {
        scan_warnings(units.drop_last()) + match units.last().source {
            Ok(_) => Seq::empty(),
            Err(reason) => seq![(units.last().path@, reason@)],
        }
    }
}

/// The views of a sequence of warnings.
pub open spec fn warning_views(v: Seq<ScanWarning>) -> Seq<(Seq<char>, Seq<char>)> {
    v.map_values(|w: ScanWarning| (w.path@, w.reason@))
}

/// Runs the symbol extractor over every unit: the records of the files that
/// parsed, in order, and a warning naming each file that did not. A failing
/// file never stops the scan.
pub fn analyze_project(cfg: &AnalyzeConfig, units: &Vec<SourceUnit>) -> (r: ScanReport)
    ensures
        record_views(r.records@) == scan_records(units@, cfg.path@, cfg.repo_id@),
        warning_views(r.warnings@) == scan_warnings(units@),
        forall|i: int| 0 <= i < r.records@.len() ==> is_record_kind(#[trigger] r.records@[i]@.kind),
        all_hex_ids(r.records@),
        paths_from_units(r.records@, cfg.path@, units@),
{
    let mut records: Vec<OutputRecord> = Vec::new();
    let mut warnings: Vec<ScanWarning> = Vec::new();
    let mut i: usize = 0;
    assert(record_views(records@) =~= Seq::<RecordView>::empty());
    assert(warning_views(warnings@) =~= Seq::<(Seq<char>, Seq<char>)>::empty());
    while i < units.len()
        invariant
            i <= units@.len(),
            record_views(records@) == scan_records(units@.take(i as int), cfg.path@, cfg.repo_id@),
            warning_views(warnings@) == scan_warnings(units@.take(i as int)),
            all_hex_ids(records@),
            paths_from_units(records@, cfg.path@, units@),
        decreases units@.len() - i,
    {
        let unit = &units[i];
        let ghost before = record_views(records@);
        let ghost warned = warning_views(warnings@);
        match &unit.source {
            Ok(parsed) => {
                let mut found = process_file(
                    cfg.path.as_str(),
                    unit.path.as_str(),
                    cfg.repo_id.as_str(),
                    parsed,
                );
                let ghost added = record_views(found@);
                proof {
                    lemma_hex_ids_append(records@, found@);
                    let both = records@ + found@;
                    assert forall|k: int| 0 <= k < both.len() implies exists|j: int|
                        0 <= j < units@.len() && is_record_path(
                            (#[trigger] both[k]).payload.path@,
                            cfg.path@,
                            units@[j].path@,
                        ) by {
                        if k < records@.len() {
                            assert(both[k] == records@[k]);
                        } else {
                            assert(both[k] == found@[k - records@.len()]);
                            assert(units@[i as int] == *unit);
                        }
                    }
                }
                records.append(&mut found);
                assert(record_views(records@) =~= before + added);
                assert(warning_views(warnings@) =~= warned + Seq::<(Seq<char>, Seq<char>)>::empty());
            },
            Err(reason) => {
                warnings.push(ScanWarning { path: unit.path.clone(), reason: reason.clone() });
                assert(warning_views(warnings@) =~= warned + seq![(unit.path@, reason@)]);
                assert(record_views(records@) =~= before + Seq::<RecordView>::empty());
            },
        }
        assert(units@.take(i + 1).drop_last() =~= units@.take(i as int));
        i = i + 1;
    }
    assert(units@.take(units@.len() as int) =~= units@);
    proof {
        lemma_scan_records_shape(units@, cfg.path@, cfg.repo_id@);
        assert forall|i: int| 0 <= i < records@.len() implies is_record_kind(
            #[trigger] records@[i]@.kind,
        ) by {
            assert(record_views(records@)[i] == records@[i]@);
        }
    }
    ScanReport { records, warnings }
}

/// Every record of a file has one of the three kinds, and carries the file's
/// repository and relative path.
pub proof fn lemma_file_records_shape(items: Seq<ItemSyntax>, ctx: FileContext)
    ensures
        forall|i: int|
            0 <= i < file_records(items, ctx).len() ==> {
                let rec = #[trigger] file_records(items, ctx)[i];
                is_record_kind(rec.kind) && rec.path == ctx.rel_path && rec.repo_id == ctx.repo_id
            },
    decreases items.len(),
{
    if items.len() > 0 {
        lemma_file_records_shape(items.drop_last(), ctx);
        let prev = file_records(items.drop_last(), ctx);
        let last = item_records(items.last(), ctx);
        match items.last() {
            ItemSyntax::Impl(im) => lemma_method_records_shape(im.methods@, im.self_ty@, ctx),
            _ => {},
        }
        assert forall|i: int| 0 <= i < file_records(items, ctx).len() implies {
            let rec = #[trigger] file_records(items, ctx)[i];
            is_record_kind(rec.kind) && rec.path == ctx.rel_path && rec.repo_id == ctx.repo_id
        } by {
            if i < prev.len() {
                assert(file_records(items, ctx)[i] == prev[i]);
            } else {
                assert(file_records(items, ctx)[i] == last[i - prev.len()]);
            }
        }
    }
}

proof fn lemma_method_records_shape(methods: Seq<MethodSyntax>, self_ty: Seq<char>, ctx: FileContext)
    ensures
        forall|i: int|
            0 <= i < method_records(methods, self_ty, ctx).len() ==> {
                let rec = #[trigger] method_records(methods, self_ty, ctx)[i];
                rec.kind == "fn"@ && rec.path == ctx.rel_path && rec.repo_id == ctx.repo_id
            },
        method_records(methods, self_ty, ctx).len() == methods.len(),
    decreases methods.len(),
{
    if methods.len() > 0 {
        lemma_method_records_shape(methods.drop_last(), self_ty, ctx);
    }
}

/// Every record of a scan has one of the three kinds `struct`, `impl` and
/// `fn`, carries the scan's repository, and carries the path of the file it
/// came from relative to the scan root.
pub proof fn lemma_scan_records_shape(units: Seq<SourceUnit>, root: Seq<char>, repo_id: Seq<char>)
    ensures
        forall|i: int|
            0 <= i < scan_records(units, root, repo_id).len() ==> {
                let rec = #[trigger] scan_records(units, root, repo_id)[i];
                &&& is_record_kind(rec.kind)
                &&& rec.repo_id == repo_id
                &&& exists|j: int|
                    0 <= j < units.len() && rec.path == relative_or_whole(root, units[j].path@)
            },
    decreases units.len(),
{
    if units.len() > 0 {
        let rest = units.drop_last();
        lemma_scan_records_shape(rest, root, repo_id);
        let prev = scan_records(rest, root, repo_id);
        let last = unit_records(units.last(), root, repo_id);
        match units.last().source {
            Ok(p) => lemma_file_records_shape(
                p.items@,
                file_context(root, units.last().path@, repo_id, p.content@),
            ),
            Err(_) => {},
        }
        assert forall|i: int| 0 <= i < scan_records(units, root, repo_id).len() implies {
            let rec = #[trigger] scan_records(units, root, repo_id)[i];
            &&& is_record_kind(rec.kind)
            &&& rec.repo_id == repo_id
            &&& exists|j: int|
                0 <= j < units.len() && rec.path == relative_or_whole(root, units[j].path@)
        } by {
            let rec = scan_records(units, root, repo_id)[i];
            if i < prev.len() {
                assert(rec == prev[i]);
                let j = choose|j: int|
                    0 <= j < rest.len() && prev[i].path == relative_or_whole(root, rest[j].path@);
                assert(units[j] == rest[j]);
            } else {
                assert(rec == last[i - prev.len()]);
                assert(units[units.len() - 1] == units.last());
            }
        }
    }
}

} // verus!
