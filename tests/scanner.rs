use rust_copartner::analyzer::locate::locate_item_text;
use rust_copartner::analyzer::scanner::{
    analyze_project, is_candidate, is_excluded, process_file, AnalyzeConfig, SourceUnit,
};
use rust_copartner::analyzer::util::sha256_id;
use rust_copartner::analyzer::OutputRecord;
use serde_json::Value;
use rust_copartner::syntax::{
    AttrSyntax, FnSyntax, ImplSyntax, ItemSyntax, MethodSyntax, ParsedSource, SourceSpan,
    StructSyntax,
};

const POINT: &str = "//! Geometry primitives

/// A 2D point
pub struct Point {
    /// x coordinate
    pub x: i32,
    /// y coordinate
    pub y: i32,
}

/// Operations on `Point`
impl Point {
    /// Create a new Point
    pub fn new(x: i32, y: i32) -> Self {
        Self { x, y }
    }

    /// Sum coordinates
    pub fn sum(&self) -> i32 {
        self.x + self.y
    }
}

/// Free function example
pub fn origin() -> Point {
    Point { x: 0, y: 0 }
}
";

fn s(x: &str) -> String {
    x.to_string()
}

fn names(xs: &[&str]) -> Vec<String> {
    xs.iter().map(|x| x.to_string()).collect()
}

fn doc(text: &str) -> AttrSyntax {
    AttrSyntax { is_doc: true, tokens: format!("# [doc = \"{}\"]", text) }
}

fn span(start: usize, end: usize) -> SourceSpan {
    SourceSpan { start_line: start, start_column: 0, end_line: end, end_column: 1 }
}

fn point_source() -> ParsedSource {
    let point = StructSyntax {
        name: s("Point"),
        attrs: vec![doc(" A 2D point")],
        tokens: s("# [doc = \" A 2D point\"] pub struct Point { # [doc = \" x coordinate\"] pub x : i32 , # [doc = \" y coordinate\"] pub y : i32 , }"),
        idents: names(&["Point", "x", "i32", "y", "i32"]),
    };
    let new = MethodSyntax {
        name: s("new"),
        attrs: vec![doc(" Create a new Point")],
        signature: s("fn new (x : i32 , y : i32) -> Self"),
        tokens: s("# [doc = \" Create a new Point\"] pub fn new (x : i32 , y : i32) -> Self { Self { x , y } }"),
        block: s("{ Self { x , y } }"),
        has_statements: true,
        idents: names(&["new", "x", "i32", "y", "i32", "Self", "Self", "x", "y"]),
        span: span(13, 16),
    };
    let sum = MethodSyntax {
        name: s("sum"),
        attrs: vec![doc(" Sum coordinates")],
        signature: s("fn sum (& self) -> i32"),
        tokens: s("# [doc = \" Sum coordinates\"] pub fn sum (& self) -> i32 { self . x + self . y }"),
        block: s("{ self . x + self . y }"),
        has_statements: true,
        idents: names(&["sum", "self", "i32", "self", "x", "self", "y"]),
        span: span(18, 21),
    };
    let imp = ImplSyntax {
        self_ty: s("Point"),
        trait_ref: None,
        where_clause: None,
        attrs: vec![doc(" Operations on `Point`")],
        tokens: s("# [doc = \" Operations on `Point`\"] impl Point { # [doc = \" Create a new Point\"] pub fn new (x : i32 , y : i32) -> Self { Self { x , y } } # [doc = \" Sum coordinates\"] pub fn sum (& self) -> i32 { self . x + self . y } }"),
        idents: names(&["Point", "new", "x", "i32", "y", "sum"]),
        span: span(11, 22),
        methods: vec![new, sum],
    };
    let origin = FnSyntax {
        name: s("origin"),
        attrs: vec![doc(" Free function example")],
        signature: s("fn origin () -> Point"),
        tokens: s("# [doc = \" Free function example\"] pub fn origin () -> Point { Point { x : 0 , y : 0 } }"),
        block: s("{ Point { x : 0 , y : 0 } }"),
        idents: names(&["origin", "Point", "Point", "x", "y"]),
        span: span(24, 27),
    };
    ParsedSource {
        content: s(POINT),
        items: vec![
            ItemSyntax::Struct(point),
            ItemSyntax::Impl(imp),
            ItemSyntax::Fn(origin),
            ItemSyntax::Other,
        ],
    }
}

fn record_json(rec: &OutputRecord) -> Value {
    let v = &rec.vector_fields;
    let p = &rec.payload;
    let mut fields = serde_json::Map::new();
    fields.insert(s("signature"), Value::String(v.signature.clone()));
    fields.insert(s("identifiers"), Value::String(v.identifiers.clone()));
    fields.insert(s("code_body"), Value::String(v.code_body.clone()));
    fields.insert(s("doc_comment"), Value::String(v.doc_comment.clone()));
    let mut payload = serde_json::Map::new();
    payload.insert(s("repo_id"), Value::String(p.repo_id.clone()));
    payload.insert(s("path"), Value::String(p.path.clone()));
    payload.insert(s("kind"), Value::String(p.kind.clone()));
    payload.insert(s("qual_symbol"), Value::String(p.qual_symbol.clone()));
    payload.insert(s("start_line"), Value::from(p.start_line));
    payload.insert(s("end_line"), Value::from(p.end_line));
    payload.insert(s("text"), Value::String(p.text.clone()));
    let mut top = serde_json::Map::new();
    top.insert(s("id"), Value::String(rec.id.clone()));
    top.insert(s("vector_fields"), Value::Object(fields));
    top.insert(s("payload"), Value::Object(payload));
    Value::Object(top)
}

fn is_hex64(x: &str) -> bool {
    x.len() == 64 && x.chars().all(|c| c.is_ascii_digit() || ('a'..='f').contains(&c))
}

#[test]
fn fixture_yields_struct_impl_and_fn_records() {
    let records = process_file("/work/src", "/work/src/point.rs", "test/repo", &point_source());
    assert_eq!(records.len(), 5);
    let kinds: Vec<&str> = records.iter().map(|r| r.payload.kind.as_str()).collect();
    assert_eq!(kinds, vec!["struct", "impl", "fn", "fn", "fn"]);
    for rec in &records {
        assert!(is_hex64(&rec.id), "id must be 64-char hex");
        assert!(!rec.vector_fields.signature.is_empty(), "signature non-empty");
        assert!(!rec.vector_fields.doc_comment.is_empty(), "doc_comment populated");
        assert_eq!(rec.payload.repo_id, "test/repo");
        assert_eq!(rec.payload.path, "point.rs");
    }
    let quals: Vec<&str> = records.iter().map(|r| r.payload.qual_symbol.as_str()).collect();
    assert_eq!(
        quals,
        vec![
            "crate::point::Point",
            "crate::point::Point",
            "crate::point::Point::new",
            "crate::point::Point::sum",
            "crate::point::origin",
        ]
    );
    let st = &records[0];
    assert_eq!(st.payload.start_line, 4);
    assert_eq!(st.payload.end_line, 9);
    assert!(st.payload.text.starts_with("struct Point {"));
    assert!(st.payload.text.ends_with("}"));
    assert_eq!(st.vector_fields.doc_comment, " A 2D point");
    assert_eq!(st.vector_fields.identifiers, "Point x i32 y");
    assert_eq!(
        st.vector_fields.code_body,
        "struct Point { pub x: i32, pub y: i32, }"
    );
    assert_eq!(st.id, sha256_id("test/repo", "point.rs", "crate::point::Point"));
    assert_eq!(
        st.id,
        "9e1c5c473be1f5bba203615f4525d18093ba349dcf1945891f6d0f7d97b86865"
    );
    let im = &records[1];
    assert_eq!(im.vector_fields.signature, "impl Point");
    assert_eq!(im.payload.start_line, 11);
    assert_eq!(im.payload.end_line, 22);
    assert!(im.payload.text.starts_with("# [doc = \" Operations on `Point`\"] impl Point {"));
    assert!(im.payload.text.ends_with("self . x + self . y } }"));
    assert!(im.vector_fields.code_body.contains("pub fn sum (& self) -> i32"));
    assert_eq!(records[2].vector_fields.code_body, "{ Self { x , y } }");
    assert_eq!(records[2].payload.start_line, 13);
    assert_eq!(records[4].vector_fields.signature, "fn origin () -> Point");
    assert_eq!(records[4].vector_fields.identifiers, "origin Point x y");
}

#[test]
fn emits_valid_ndjson_and_metadata() {
    let cfg = AnalyzeConfig { path: s("/tmp/fixture/src"), repo_id: s("test/repo") };
    let units = vec![SourceUnit { path: s("/tmp/fixture/src/point.rs"), source: Ok(point_source()) }];
    let records = analyze_project(&cfg, &units).records;
    assert!(!records.is_empty(), "should produce records");
    let mut kinds = std::collections::HashSet::new();
    for rec in &records {
        let value = record_json(rec);
        let line = serde_json::to_string(&value).unwrap();
        let back: Value = serde_json::from_str(&line).unwrap();
        assert_eq!(back, value);
        assert_eq!(back["payload"]["start_line"].as_u64(), Some(rec.payload.start_line as u64));
        assert_eq!(back["vector_fields"]["code_body"].as_str(), Some(rec.vector_fields.code_body.as_str()));
        assert!(is_hex64(&rec.id), "id must be 64-char hex");
        assert!(!rec.vector_fields.signature.is_empty(), "signature non-empty");
        assert!(
            !rec.vector_fields.doc_comment.is_empty(),
            "doc_comment should be populated for annotated items"
        );
        kinds.insert(rec.payload.kind.clone());
    }
    assert!(kinds.contains("struct"));
    assert!(kinds.contains("impl"));
    assert!(kinds.contains("fn"));
}

#[test]
fn impl_of_trait_keeps_its_block_text() {
    let imp = ImplSyntax {
        self_ty: s("B"),
        trait_ref: Some(rust_copartner::syntax::TraitRef { negative: false, path: s("A") }),
        where_clause: None,
        attrs: vec![],
        tokens: s("impl A for B { }"),
        idents: names(&["A", "B"]),
        span: span(1, 1),
        methods: vec![],
    };
    let src = ParsedSource { content: s("impl A for B {}"), items: vec![ItemSyntax::Impl(imp)] };
    let records = process_file("/w", "/w/x.rs", "r", &src);
    assert_eq!(records.len(), 1);
    assert_eq!(records[0].payload.text, "impl A for B { }");
    assert_eq!(records[0].vector_fields.code_body, "impl A for B { }");
    assert_eq!(records[0].vector_fields.signature, "impl A for B");
    assert_eq!(records[0].payload.qual_symbol, "crate::x::B");
}

#[test]
fn broken_file_is_skipped_with_a_warning() {
    let cfg = AnalyzeConfig { path: s("/work/src"), repo_id: s("test/repo") };
    let units = vec![
        SourceUnit { path: s("/work/src/broken.rs"), source: Err(s("expected item")) },
        SourceUnit { path: s("/work/src/point.rs"), source: Ok(point_source()) },
    ];
    let report = analyze_project(&cfg, &units);
    assert_eq!(report.records.len(), 5);
    assert_eq!(report.warnings.len(), 1);
    assert_eq!(report.warnings[0].path, "/work/src/broken.rs");
    assert_eq!(report.warnings[0].reason, "expected item");
    for rec in &report.records {
        assert!(["struct", "impl", "fn"].contains(&rec.payload.kind.as_str()));
        assert!(!rec.payload.path.starts_with("/work"));
    }
}

#[test]
fn empty_scan() {
    let cfg = AnalyzeConfig { path: s("/work"), repo_id: s("r") };
    let report = analyze_project(&cfg, &vec![]);
    assert!(report.records.is_empty());
    assert!(report.warnings.is_empty());
}

#[test]
fn module_path_follows_directories() {
    let mut src = point_source();
    src.items = vec![src.items.remove(2)];
    let records = process_file("/work", "/work/src/geo/mod.rs", "r", &src);
    assert_eq!(records.len(), 1);
    assert_eq!(records[0].payload.qual_symbol, "crate::geo::origin");
    assert_eq!(records[0].payload.path, "src/geo/mod.rs");
}

#[test]
fn locate_braced_declaration() {
    let content = "// x\nstruct Unit;\nstruct P {\n  a: u8,\n  b: Q { }\n}\n";
    let (start, end, text) = locate_item_text(content, "P", "struct");
    assert_eq!((start, end), (3, 6));
    assert_eq!(text, "struct P {\n  a: u8,\n  b: Q { }\n}");
}

#[test]
fn locate_unit_declaration() {
    let content = "// x\nstruct Unit;\nstruct P {\n}\n";
    assert_eq!(locate_item_text(content, "Unit", "struct"), (2, 2, s("struct Unit;")));
}

#[test]
fn locate_missing_and_unbalanced() {
    assert_eq!(locate_item_text("fn main() {}", "P", "struct"), (1, 1, s("")));
    assert_eq!(locate_item_text("\nstruct Open {\n a", "Open", "struct"), (2, 1, s("")));
}

#[test]
fn locate_drifts_to_earlier_mention() {
    let content = "// struct P is below\nstruct P { }";
    let (start, end, text) = locate_item_text(content, "P", "struct");
    assert_eq!((start, end), (1, 2));
    assert_eq!(text, "struct P is below\nstruct P { }");
}

#[test]
fn candidate_files() {
    assert!(is_candidate("/r/src/a.rs", "a.rs", false));
    assert!(!is_candidate("/r/src/a", "a", true));
    assert!(!is_candidate("/r/target/debug/x.rs", "x.rs", false));
    assert!(!is_candidate("/r/src/x.generated.rs", "x.generated.rs", false));
    assert!(!is_candidate("/r/src/x.txt", "x.txt", false));
    assert!(!is_candidate("/r/src/.rs", ".rs", false));
    assert!(is_excluded("/r/target/x"));
    assert!(!is_excluded("/r/targets/x"));
}

#[test]
fn trait_impl_text_comes_from_its_tokens() {
    let content = "struct P;\nimpl Clone for P {\n    fn clone(&self) -> P { P }\n    fn noop(&self) {}\n}\n";
    let clone = MethodSyntax {
        name: s("clone"),
        attrs: vec![],
        signature: s("fn clone (& self) -> P"),
        tokens: s("fn clone (& self) -> P { P }"),
        block: s("{ P }"),
        has_statements: true,
        idents: names(&["clone", "self", "P", "P"]),
        span: span(3, 3),
    };
    let noop = MethodSyntax {
        name: s("noop"),
        attrs: vec![],
        signature: s("fn noop (& self)"),
        tokens: s("fn noop (& self) { }"),
        block: s("{ }"),
        has_statements: false,
        idents: names(&["noop", "self"]),
        span: span(4, 4),
    };
    let imp = ImplSyntax {
        self_ty: s("P"),
        trait_ref: Some(rust_copartner::syntax::TraitRef { negative: false, path: s("Clone") }),
        where_clause: None,
        attrs: vec![],
        tokens: s("impl Clone for P { fn clone (& self) -> P { P } fn noop (& self) { } }"),
        idents: names(&["Clone", "P", "clone", "self", "P", "P", "noop", "self"]),
        span: span(2, 5),
        methods: vec![clone, noop],
    };
    let unit = StructSyntax { name: s("P"), attrs: vec![], tokens: s("struct P ;"), idents: names(&["P"]) };
    let src = ParsedSource {
        content: s(content),
        items: vec![ItemSyntax::Struct(unit), ItemSyntax::Impl(imp)],
    };
    let records = process_file("/w", "/w/lib.rs", "r", &src);
    assert_eq!(records.len(), 4);
    assert_eq!(records[0].payload.text, "struct P;");
    assert_eq!((records[0].payload.start_line, records[0].payload.end_line), (1, 1));
    assert_eq!(records[0].payload.qual_symbol, "crate::P");
    assert_eq!(records[1].vector_fields.signature, "impl Clone for P");
    assert_eq!(
        records[1].payload.text,
        "impl Clone for P { fn clone (& self) -> P { P } fn noop (& self) { } }"
    );
    assert_eq!(
        records[1].vector_fields.code_body,
        "impl Clone for P { fn clone (& self) -> P { P } fn noop (& self) { } }"
    );
    assert_eq!((records[1].payload.start_line, records[1].payload.end_line), (2, 5));
    assert_eq!(records[1].vector_fields.identifiers, "Clone P clone self noop");
    assert_eq!(records[1].vector_fields.doc_comment, "");
    assert_eq!(records[2].payload.qual_symbol, "crate::P::clone");
    assert_eq!(records[2].vector_fields.code_body, "{ P }");
    assert_eq!(records[3].payload.qual_symbol, "crate::P::noop");
    assert_eq!(records[3].vector_fields.code_body, "");
    assert_eq!(records[0].id, records[1].id);
}
