use hanzo_sdk::ast::{
    enclosing_context, extend_results, limit_results, parse_source, run_query, search_nodes_by_text,
    search_parsed, search_source, AstSearchError, Grammar, SyntaxNode,
};

const ALL_GRAMMARS: [Grammar; 8] = [
    Grammar::Rust,
    Grammar::JavaScript,
    Grammar::TypeScript,
    Grammar::Python,
    Grammar::Go,
    Grammar::Java,
    Grammar::Cpp,
    Grammar::C,
];

fn node(kind: &str, text: &str, row: usize, column: usize, end_row: usize, parent: Option<usize>) -> SyntaxNode {
    SyntaxNode {
        kind: kind.to_string(),
        text: text.to_string(),
        start_row: row,
        start_column: column,
        end_row,
        parent,
    }
}

/// Parse a snippet and check that the tree is sane: its root has the expected kind, has
/// children, holds no error node, starts at the beginning and covers the whole source.
fn assert_parses_clean(grammar: Grammar, source: &str, expected_root: &str) {
    let nodes = parse_source(grammar, source).expect("parser produced no tree");
    let root = &nodes[0];
    assert_eq!(root.kind, expected_root, "unexpected root kind");
    assert_eq!(root.parent, None);
    assert!(nodes.iter().any(|n| n.parent == Some(0)), "root has no children");
    assert!(nodes.iter().all(|n| n.kind != "ERROR"), "tree contains error nodes");
    assert_eq!((root.start_row, root.start_column), (0, 0), "root does not start at byte 0");
    assert_eq!(root.text, source, "root does not cover whole source");
}

#[test]
fn test_searcher_loads_all_grammars() {
    let loaded = ALL_GRAMMARS.iter().filter(|g| parse_source(**g, "").is_some()).count();
    assert_eq!(loaded, ALL_GRAMMARS.len());
}

#[test]
fn test_parse_c_snippet() {
    assert_parses_clean(Grammar::C, "int add(int a, int b) { return a + b; }\n", "translation_unit");
}

#[test]
fn test_parse_rust_snippet() {
    assert_parses_clean(Grammar::Rust, "fn add(a: i32, b: i32) -> i32 { a + b }\n", "source_file");
}

#[test]
fn grammar_names_round_trip() {
    for g in ALL_GRAMMARS {
        assert_eq!(Grammar::from_language(g.name()), Some(g));
    }
    assert_eq!(Grammar::from_language("text"), None);
}

#[test]
fn parents_come_before_children() {
    let nodes = parse_source(Grammar::Python, "def f(x):\n    return x\n").unwrap();
    for (i, n) in nodes.iter().enumerate() {
        if let Some(p) = n.parent {
            assert!(p < i);
        }
    }
    assert_eq!(nodes[0].kind, "module");
}

#[test]
fn query_finds_a_rust_function_by_name() {
    let source = "fn add(a: i32, b: i32) -> i32 { a + b }\nfn test() {}\n";
    let found = search_source(Grammar::Rust, source, "function add", "rust").unwrap().unwrap();
    assert_eq!(found.len(), 1);
    let m = &found[0];
    assert_eq!((m.line_number, m.column), (1, 3));
    assert_eq!(m.match_text, "add");
    assert_eq!(m.node_type, "identifier");
    assert!(m.from_query);
    assert!(m.context_before.is_empty());
    assert_eq!(m.context_after, vec!["fn test() {}".to_string()]);
    assert_eq!(m.semantic_context, "identifier at 1:3 in fn add(a: i32, b: i32) -> i32 { a + b }");
}

#[test]
fn query_with_no_capture_gives_no_match() {
    let source = "fn add(a: i32, b: i32) -> i32 { a + b }\n";
    let found = search_source(Grammar::Rust, source, "function missing", "rust").unwrap().unwrap();
    assert!(found.is_empty());
}

#[test]
fn refused_query_falls_back_to_node_text() {
    // A lone quote cannot stand inside the generated query, so the text of the nodes is searched.
    let source = "x = \"hi\"\n";
    let found = search_source(Grammar::Python, source, "\"", "python").unwrap().unwrap();
    assert!(!found.is_empty());
    assert!(found.iter().all(|m| !m.from_query && m.match_text.contains('"')));
    assert!(found.iter().all(|m| m.context_before.is_empty() && m.context_after.is_empty()));
    assert_eq!(found[0].node_type, "module");
    assert_eq!((found[0].line_number, found[0].column), (1, 0));
}

#[test]
fn run_query_gives_captured_positions() {
    let source = "fn add(a: i32) -> i32 { a }\n";
    let nodes = parse_source(Grammar::Rust, source).unwrap();
    let caps = run_query(Grammar::Rust, source, "(function_item name: (identifier) @fn)").unwrap();
    assert_eq!(caps.len(), 1);
    assert_eq!(nodes[caps[0]].kind, "identifier");
    assert_eq!(nodes[caps[0]].text, "add");
    assert_eq!(run_query(Grammar::Rust, source, "(no_such_kind) @x"), None);
}

#[test]
fn enclosing_context_climbs_to_a_definition() {
    let nodes = vec![
        node("source_file", "fn f() { x }", 0, 0, 0, None),
        node("function_item", "fn f() { x }", 0, 0, 0, Some(0)),
        node("block", "{ x }", 0, 7, 0, Some(1)),
        node("identifier", "x", 0, 9, 0, Some(2)),
    ];
    assert_eq!(enclosing_context(&nodes, 3), Some(1));
    assert_eq!(enclosing_context(&nodes, 1), None);
    assert_eq!(enclosing_context(&nodes, 0), None);
}

#[test]
fn text_search_over_given_nodes() {
    let nodes = vec![
        node("module", "class A:\n  pass", 0, 0, 1, None),
        node("class_definition", "class A:\n  pass", 0, 0, 1, Some(0)),
        node("identifier", "A", 0, 6, 0, Some(1)),
        node("pass_statement", "pass", 1, 2, 1, Some(1)),
    ];
    let found = search_nodes_by_text(&nodes, "pass");
    assert_eq!(found.len(), 3);
    assert_eq!(found[0].semantic_context, "module at 1:0");
    assert_eq!(found[1].semantic_context, "class_definition at 1:0");
    assert_eq!(found[2].semantic_context, "pass_statement at 2:2 in class A:");
    assert_eq!((found[2].line_number, found[2].column), (2, 2));
    assert!(found.iter().all(|m| !m.from_query));
}

#[test]
fn captures_take_three_lines_of_context() {
    let source = "a\nb\nc\nd\ne\nf\ng\nh\n";
    let nodes = vec![
        node("module", source, 0, 0, 8, None),
        node("identifier", "e", 4, 0, 4, Some(0)),
    ];
    let found = search_parsed(&nodes, Some(vec![1]), source, "e").unwrap();
    assert_eq!(found.len(), 1);
    assert_eq!(found[0].context_before, vec!["b", "c", "d"]);
    assert_eq!(found[0].context_after, vec!["f", "g", "h"]);
    assert_eq!(found[0].line_number, 5);
    assert!(found[0].from_query);
}

#[test]
fn capture_past_the_last_line_is_an_error() {
    let source = "a\n";
    let nodes = vec![node("module", source, 0, 0, 1, None)];
    assert_eq!(search_parsed(&nodes, Some(vec![0]), source, "a").unwrap_err(), AstSearchError::ContextOutOfRange);
    assert_eq!(search_parsed(&nodes, Some(vec![5]), source, "a").unwrap_err(), AstSearchError::ContextOutOfRange);
}

#[test]
fn results_stop_and_truncate_at_the_limit() {
    let mut results = vec![1, 2];
    assert!(!extend_results(&mut results, vec![3], 5));
    assert!(extend_results(&mut results, vec![4, 5, 6], 5));
    assert_eq!(results, vec![1, 2, 3, 4, 5, 6]);
    limit_results(&mut results, 5);
    assert_eq!(results, vec![1, 2, 3, 4, 5]);
    limit_results(&mut results, 10);
    assert_eq!(results.len(), 5);
}
