use hanzo_sdk::search::{
    build_query_string, get_context, get_semantic_context, is_context_kind,
    language_for_extension, select_language, MatchType,
};

#[test]
fn languages() {
    assert_eq!(language_for_extension(Some("mjs")), "javascript");
    assert_eq!(language_for_extension(Some("tsx")), "typescript");
    assert_eq!(language_for_extension(Some("cxx")), "cpp");
    assert_eq!(language_for_extension(Some("h")), "c");
    assert_eq!(language_for_extension(Some("java")), "java");
    assert_eq!(language_for_extension(Some("md")), "text");
    assert_eq!(language_for_extension(None), "text");
    assert_eq!(hanzo_sdk::search::detect_language("dir.v2/Makefile"), "text");
    assert_eq!(hanzo_sdk::search::detect_language(".rs"), "text");
    assert_eq!(hanzo_sdk::search::detect_language("a/b.c"), "c");
    assert_eq!(select_language(Some("go"), "x.rs"), "go");
    assert_eq!(select_language(None, "x.py"), "python");
    assert_ne!(MatchType::Ast, MatchType::Text);
}

#[test]
fn query_strings() {
    assert_eq!(
        build_query_string("function test", "rust"),
        "(function_item name: (identifier) @fn (#eq? @fn \"test\"))"
    );
    assert_eq!(
        build_query_string("function function  foo ", "typescript"),
        "(function_declaration name: (identifier) @fn (#eq? @fn \"foo\"))"
    );
    assert_eq!(
        build_query_string("function run", "python"),
        "(function_definition name: (identifier) @fn (#eq? @fn \"run\"))"
    );
    assert_eq!(
        build_query_string("function run", "go"),
        "(identifier) @id (#eq? @id \"run\")"
    );
    assert_eq!(
        build_query_string("class Point", "rust"),
        "(struct_item name: (type_identifier) @struct (#eq? @struct \"Point\"))"
    );
    assert_eq!(
        build_query_string("class Point\u{3000}", "javascript"),
        "(class_declaration name: (identifier) @class (#eq? @class \"Point\"))"
    );
    assert_eq!(
        build_query_string("class P", "python"),
        "(class_definition name: (identifier) @class (#eq? @class \"P\"))"
    );
    assert_eq!(
        build_query_string("foo.*", "rust"),
        "(identifier) @id (#match? @id \"foo.*\")"
    );
}

#[test]
fn context_lines() {
    let src = "l0\nl1\r\nl2\nl3\nl4\nl5\n";
    let (before, after) = get_context(src, 3, 3, 2);
    assert_eq!(before, vec!["l1".to_string(), "l2".to_string()]);
    assert_eq!(after, vec!["l4".to_string(), "l5".to_string()]);
    let (before, after) = get_context(src, 0, 5, 3);
    assert!(before.is_empty());
    assert!(after.is_empty());
}

#[test]
fn semantic_context() {
    assert_eq!(get_semantic_context("identifier", 9, 4, None), "identifier at 10:4");
    assert_eq!(
        get_semantic_context("identifier", 0, 12, Some("fn main() {\n    x\n}")),
        "identifier at 1:12 in fn main() {"
    );
    assert_eq!(get_semantic_context("x", 0, 0, Some("")), "x at 1:0 in ");
    assert!(is_context_kind("impl_item"));
    assert!(is_context_kind("method_definition"));
    assert!(!is_context_kind("identifier"));
}
