use rust_copartner::analyzer::util::{
    collect_idents, compact_whitespace, file_stem, format_fn_signature, format_impl_signature,
    format_struct_signature, join_doc_literals, lower_hex, merge_doc_comments,
    mod_path_from_components, rel_module_path, relative_path_text, sha256_id, span_start_end,
    string_of_chars, strip_comments,
};
use rust_copartner::performance::{calculate_performance_impact, get_profiling_focus};
use rust_copartner::syntax::{
    AttrSyntax, BodyEvent, FnSyntax, FunctionSyntax, ImplSyntax, SourceSpan, StructSyntax,
    TraitRef,
};
use rust_copartner::text::{char_vec, join_strings};
use rust_copartner::{create_index, parse_rust_file, ComplexityAnalyzer};

fn s(x: &str) -> String {
    x.to_string()
}

fn names(xs: &[&str]) -> Vec<String> {
    xs.iter().map(|x| x.to_string()).collect()
}

fn span0() -> SourceSpan {
    SourceSpan { start_line: 0, start_column: 0, end_line: 0, end_column: 0 }
}

#[test]
fn id_is_sha256_hex_of_fields() {
    assert_eq!(
        sha256_id("test/repo", "point.rs", "crate::point::Point"),
        "9e1c5c473be1f5bba203615f4525d18093ba349dcf1945891f6d0f7d97b86865"
    );
    assert_eq!(
        sha256_id("", "", ""),
        "b8c9e440ead3ddaccf7cc7e879d512a263272270df2d5504c0c3d1f85d16f9d9"
    );
}

#[test]
fn id_is_deterministic_and_field_sensitive() {
    let a = sha256_id("r", "a.rs", "crate::a::f");
    let b = sha256_id("r", "a.rs", "crate::a::f");
    assert_eq!(a, b);
    assert_eq!(a, "80738fd6406e253c7d4cf1b955f06b9b5cc96ebb3dc802428643502a5f3a36d0");
    assert_ne!(a, sha256_id("r", "b.rs", "crate::a::f"));
    assert_ne!(a, sha256_id("r", "a.rs", "crate::a::g"));
}

#[test]
fn hex_and_chars() {
    assert_eq!(lower_hex(&vec![0x00, 0xab, 0x1f, 0xff]), "00ab1fff");
    assert_eq!(lower_hex(&vec![]), "");
    assert_eq!(char_vec("añb"), vec!['a', 'ñ', 'b']);
    assert_eq!(string_of_chars(&vec!['x', 'é']), "xé");
    assert_eq!(join_strings(&names(&["a", "b", "c"]), "::"), "a::b::c");
    assert_eq!(join_strings(&names(&[]), "::"), "");
}

#[test]
fn whitespace_is_compacted() {
    assert_eq!(compact_whitespace("  a \n\t b  c "), "a b c");
    assert_eq!(compact_whitespace(""), "");
    assert_eq!(compact_whitespace("x"), "x");
}

#[test]
fn comments_are_stripped() {
    assert_eq!(strip_comments("a // c\nb /* x */ c"), "a \nb  c");
    assert_eq!(strip_comments("/* a\n * b */x/**/y"), "xy");
    assert_eq!(strip_comments("keep"), "keep");
    assert_eq!(compact_whitespace(&strip_comments("fn f() { // t\n  1 /* two */ }")), "fn f() { 1 }");
}

#[test]
fn doc_comments_are_merged() {
    let attrs = vec![
        AttrSyntax { is_doc: true, tokens: s("# [doc = \" First line\"]") },
        AttrSyntax { is_doc: false, tokens: s("# [derive (Debug)]") },
        AttrSyntax { is_doc: true, tokens: s("# [doc = \" Second\"]") },
        AttrSyntax { is_doc: true, tokens: s("# [doc (hidden)]") },
    ];
    assert_eq!(merge_doc_comments(&attrs), " First line\n Second");
    assert_eq!(merge_doc_comments(&vec![]), "");
    assert_eq!(
        join_doc_literals(&vec![Some(s("")), Some(s("a")), None, Some(s("b"))]),
        "\na\nb"
    );
    assert_eq!(join_doc_literals(&vec![Some(s("")), Some(s("x"))]), "\nx");
    assert_eq!(join_doc_literals(&vec![None, Some(s("x"))]), "x");
    let leading_blank = vec![
        AttrSyntax { is_doc: true, tokens: s("# [doc = \"\"]") },
        AttrSyntax { is_doc: true, tokens: s("# [doc = \" x\"]") },
    ];
    assert_eq!(merge_doc_comments(&leading_blank), "\n x");
}

#[test]
fn identifiers_keep_first_appearance() {
    assert_eq!(collect_idents(&names(&["a", "b", "a", "c", "b"])), "a b c");
    assert_eq!(collect_idents(&names(&[])), "");
}

#[test]
fn module_paths() {
    assert_eq!(rel_module_path("/r/x", "/r/x/point.rs"), "crate::point");
    assert_eq!(rel_module_path("/r", "/r/src/a/mod.rs"), "crate::a");
    assert_eq!(rel_module_path("/r", "/r/src/lib.rs"), "crate");
    assert_eq!(rel_module_path("/r", "/r/src/a/b/c.rs"), "crate::a::b::c");
    assert_eq!(rel_module_path("/r", "/r/tools/main.rs"), "crate::tools");
    assert_eq!(relative_path_text("/r", "/r/src/a.rs"), "src/a.rs");
    assert_eq!(relative_path_text("/r", "rel/a.rs"), "rel/a.rs");
    assert_eq!(mod_path_from_components(&names(&["src"])), "crate");
    assert_eq!(mod_path_from_components(&names(&[])), "crate");
    assert_eq!(mod_path_from_components(&names(&["a", ".."])), "crate::a");
    assert_eq!(mod_path_from_components(&names(&["x.tar.gz"])), "crate::x.tar");
}

#[test]
fn file_stems() {
    assert_eq!(file_stem(&s("a.rs")), Some(s("a")));
    assert_eq!(file_stem(&s("a.tar.gz")), Some(s("a.tar")));
    assert_eq!(file_stem(&s(".hidden")), Some(s(".hidden")));
    assert_eq!(file_stem(&s("plain")), Some(s("plain")));
    assert_eq!(file_stem(&s("..")), None);
    assert_eq!(file_stem(&s("")), None);
}

#[test]
fn signatures() {
    let mut im = ImplSyntax {
        self_ty: s("Point"),
        trait_ref: Some(TraitRef { negative: false, path: s("Display") }),
        where_clause: Some(s("where T : Clone")),
        attrs: vec![],
        tokens: s("impl Display for Point where T : Clone { }"),
        idents: vec![],
        span: span0(),
        methods: vec![],
    };
    assert_eq!(format_impl_signature(&im), "impl Display for Point where T : Clone");
    im.trait_ref = Some(TraitRef { negative: true, path: s("Send") });
    im.where_clause = None;
    assert_eq!(format_impl_signature(&im), "impl !Send for Point");
    im.trait_ref = None;
    assert_eq!(format_impl_signature(&im), "impl Point");
    let st = StructSyntax {
        name: s("P"),
        attrs: vec![],
        tokens: s("struct P ;"),
        idents: vec![],
    };
    assert_eq!(format_struct_signature(&st), "struct P ;");
    let f = FnSyntax {
        name: s("f"),
        attrs: vec![],
        signature: s("fn f ()"),
        tokens: s("fn f () { }"),
        block: s("{ }"),
        idents: vec![],
        span: span0(),
    };
    assert_eq!(format_fn_signature(&f), "fn f ()");
}

#[test]
fn spans() {
    let sp = SourceSpan { start_line: 3, start_column: 4, end_line: 7, end_column: 1 };
    assert_eq!(span_start_end(&sp), Some(((3, 4), (7, 1))));
    assert_eq!(span_start_end(&span0()), None);
}

#[test]
fn performance_scores() {
    let sibling = FunctionSyntax {
        name: s("sibling"),
        parameter_count: 0,
        generic_params: 0,
        start_line: 1,
        end_line: 3,
        body: vec![BodyEvent::If, BodyEvent::End, BodyEvent::Loop, BodyEvent::End],
    };
    let m = ComplexityAnalyzer::analyze_function(&sibling);
    // 3 * 5 + 4 * 3 + 1 * 15 + 1 * 8
    assert_eq!(calculate_performance_impact(&m), 50);
    assert_eq!(get_profiling_focus(&m), "Loop optimization");
    let empty = FunctionSyntax { body: vec![], name: s("e"), ..sibling };
    let m = ComplexityAnalyzer::analyze_function(&empty);
    assert_eq!(calculate_performance_impact(&m), 5);
    assert_eq!(get_profiling_focus(&m), "General performance profiling");
    let mut body = vec![];
    for _ in 0..6 {
        body.push(BodyEvent::Unsafe);
    }
    for _ in 0..11 {
        body.push(BodyEvent::Call { callee: None });
    }
    body.push(BodyEvent::Loop);
    let heavy = FunctionSyntax {
        name: s("h"),
        parameter_count: 9,
        generic_params: 0,
        start_line: 1,
        end_line: 2,
        body,
    };
    let m = ComplexityAnalyzer::analyze_function(&heavy);
    assert_eq!(calculate_performance_impact(&m), 100);
    assert_eq!(
        get_profiling_focus(&m),
        "Loop optimization, Call overhead, Memory access patterns, Branch prediction"
    );
}

#[test]
fn placeholder_index() {
    let idx = create_index("/some/project").unwrap();
    assert!(idx.fragments.is_empty());
    assert!(parse_rust_file("/some/file.rs").unwrap().is_empty());
}
