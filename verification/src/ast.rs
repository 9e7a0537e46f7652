//! AST search with tree-sitter: the syntax tree of a source as plain nodes in pre-order, the
//! nodes that a query captures, and the matches that a search pattern finds in them.
use vstd::prelude::*;

use tree_sitter::StreamingIterator;

use crate::search::{
    build_query_string, context_after_end, context_before_start, get_context, get_semantic_context,
    is_context_kind, is_context_kind_spec, query_for_pattern, semantic_context_text,
};
use crate::text::{contains_text, lines, lines_of, str_eq, strings_view, text_contains};

verus! {

/// The grammars the searcher can parse with.
#[derive(Debug, Clone, Copy, PartialEq, Eq, Structural)]
pub enum Grammar {
    Rust,
    JavaScript,
    TypeScript,
    Python,
    Go,
    Java,
    Cpp,
    C,
}

/// The language name of a grammar.
pub open spec fn grammar_name(g: Grammar) -> Seq<char> {
    match g {
        Grammar::Rust => "rust"@,
        Grammar::JavaScript => "javascript"@,
        Grammar::TypeScript => "typescript"@,
        Grammar::Python => "python"@,
        Grammar::Go => "go"@,
        Grammar::Java => "java"@,
        Grammar::Cpp => "cpp"@,
        Grammar::C => "c"@,
    }
}

/// The grammar for a language name, if the searcher has one.
pub open spec fn grammar_of_language(lang: Seq<char>) -> Option<Grammar> {
    if lang == "rust"@ {
        Some(Grammar::Rust)
    } else if lang == "javascript"@ {
        Some(Grammar::JavaScript)
    } else if lang == "typescript"@ {
        Some(Grammar::TypeScript)
    } else if lang == "python"@ {
        Some(Grammar::Python)
    } else if lang == "go"@ {
        Some(Grammar::Go)
    } else if lang == "java"@ {
        Some(Grammar::Java)
    } else if lang == "cpp"@ {
        Some(Grammar::Cpp)
    } else if lang == "c"@ {
        Some(Grammar::C)
    } else {
        None
    }
}

impl Grammar {
    /// The grammar for a language name, if the searcher has one.
    pub fn from_language(lang: &str) -> (r: Option<Grammar>)
        ensures
            r == grammar_of_language(lang@),
    {
        if str_eq(lang, "rust") {
            Some(Grammar::Rust)
        } else if str_eq(lang, "javascript") {
            Some(Grammar::JavaScript)
        } else if str_eq(lang, "typescript") {
            Some(Grammar::TypeScript)
        } else if str_eq(lang, "python") {
            Some(Grammar::Python)
        } else if str_eq(lang, "go") {
            Some(Grammar::Go)
        } else if str_eq(lang, "java") {
            Some(Grammar::Java)
        } else if str_eq(lang, "cpp") {
            Some(Grammar::Cpp)
        } else if str_eq(lang, "c") {
            Some(Grammar::C)
        } else {
            None
        }
    }

    /// The language name of the grammar.
    pub fn name(&self) -> (r: &'static str)
        ensures
            r@ == grammar_name(*self),
    {
        match self {
            Grammar::Rust => "rust",
            Grammar::JavaScript => "javascript",
            Grammar::TypeScript => "typescript",
            Grammar::Python => "python",
            Grammar::Go => "go",
            Grammar::Java => "java",
            Grammar::Cpp => "cpp",
            Grammar::C => "c",
        }
    }
}

/// A node of a syntax tree: its kind, its text, where it starts and ends (0-based rows and
/// columns) and the position of its parent in the pre-order list of the tree's nodes.
#[derive(Debug, Clone, PartialEq, Eq)]
pub struct SyntaxNode {
    pub kind: String,
    pub text: String,
    pub start_row: usize,
    pub start_column: usize,
    pub end_row: usize,
    pub parent: Option<usize>,
}

/// A node as plain values: kind, text, start row, start column, end row, parent position.
pub type NodeTuple = (Seq<char>, Seq<char>, nat, nat, nat, Option<nat>);

/// The plain values of a node.
pub open spec fn node_view(n: SyntaxNode) -> NodeTuple {
    (
        n.kind@,
        n.text@,
        n.start_row as nat,
        n.start_column as nat,
        n.end_row as nat,
        match n.parent {
            Some(p) => Some(p as nat),
            None => None,
        },
    )
}

/// The plain values of a list of nodes.
pub open spec fn nodes_view(v: Seq<SyntaxNode>) -> Seq<NodeTuple> {
    v.map_values(|n: SyntaxNode| node_view(n))
}

/// The plain values of an optional list of nodes.
pub open spec fn opt_nodes_view(r: Option<Vec<SyntaxNode>>) -> Option<Seq<NodeTuple>> {
    match r {
        Some(v) => Some(nodes_view(v@)),
        None => None,
    }
}

/// The nodes, in pre-order, of the tree that tree-sitter's parser builds for `source` with
/// the grammar named `grammar`; `None` where no tree is built (the grammar does not load into
/// the parser, or the parser gives none).
pub uninterp spec fn syntax_nodes(grammar: Seq<char>, source: Seq<char>) -> Option<Seq<NodeTuple>>;

/// The pre-order positions of the nodes that tree-sitter's query `query` captures in the tree
/// of `source` with the grammar named `grammar`, capture after capture and match after match;
/// `None` where the query is refused.
pub uninterp spec fn query_captures(grammar: Seq<char>, source: Seq<char>, query: Seq<char>) -> Option<
    Seq<nat>,
>;

/// Every node's parent comes before it.
pub open spec fn parents_ok(ns: Seq<NodeTuple>) -> bool {
    forall|i: int|
        0 <= i < ns.len() ==> match #[trigger] ns[i].5 {
            Some(p) => p < i,
            None => true,
        }
}

#[verifier::external_type_specification]
#[verifier::external_body]
pub struct ExLanguage(tree_sitter::Language);

#[verifier::external_type_specification]
#[verifier::external_body]
pub struct ExTree(tree_sitter::Tree);

/// Loads the tree-sitter grammar of `grammar` (the `LANGUAGE` constant of that grammar's
/// crate, one arm per grammar) into a `Parser` (`Parser::set_language`) and parses `source`
/// (`Parser::parse`, no old tree). Claimed: a tree comes back exactly where `syntax_nodes`
/// gives nodes for this grammar and source. Nothing is claimed of the tree itself.
#[verifier::external_body]
fn parse_tree(grammar: Grammar, source: &str) -> (r: Option<(tree_sitter::Language, tree_sitter::Tree)>)
    ensures
        r is Some <==> syntax_nodes(grammar_name(grammar), source@) is Some,
{
    let language: tree_sitter::Language = match grammar {
        Grammar::Rust => tree_sitter_rust::LANGUAGE,
        Grammar::JavaScript => tree_sitter_javascript::LANGUAGE,
        Grammar::TypeScript => tree_sitter_typescript::LANGUAGE_TYPESCRIPT,
        Grammar::Python => tree_sitter_python::LANGUAGE,
        Grammar::Go => tree_sitter_go::LANGUAGE,
        Grammar::Java => tree_sitter_java::LANGUAGE,
        Grammar::Cpp => tree_sitter_cpp::LANGUAGE,
        Grammar::C => tree_sitter_c::LANGUAGE,
    }.into();
    let mut parser = tree_sitter::Parser::new();
    parser.set_language(&language).ok()?;
    let tree = parser.parse(source, None)?;
    Some((language, tree))
}

/// A source together with the tree that tree-sitter parsed from it with a grammar. Only
/// `SourceTree::parse` builds one, so `tree` is always the parse of `source` with `grammar`.
struct SourceTree {
    grammar: Grammar,
    source: String,
    language: tree_sitter::Language,
    tree: tree_sitter::Tree,
}

/// Lists the nodes of the parsed tree in pre-order (`Node::descendant_count`,
/// `TreeCursor::goto_descendant`), each with its kind (`Node::kind`), its text (the source
/// at `Node::byte_range`), its start and end position and the pre-order position of its
/// parent (`TreeCursor::goto_parent`, `TreeCursor::descendant_index`). Claimed: the list is
/// `syntax_nodes` of the tree's grammar and source, and every parent comes before its
/// children. What the list holds rests on `SourceTree` holding the parse of its source.
#[verifier::external_body]
fn tree_nodes(st: &SourceTree) -> (r: Vec<SyntaxNode>)
    ensures
        syntax_nodes(grammar_name(st.grammar), st.source@) == Some(nodes_view(r@)),
        parents_ok(nodes_view(r@)),
{
    let root = st.tree.root_node();
    let (mut c, mut out) = (root.walk(), Vec::new());
    for i in 0..root.descendant_count() {
        c.goto_descendant(i);
        let (n, s) = (c.node(), c.node().start_position());
        let parent = if c.goto_parent() { Some(c.descendant_index()) } else { None };
        out.push(SyntaxNode { kind: n.kind().into(), text: st.source[n.byte_range()].into(), start_row: s.row, start_column: s.column, end_row: n.end_position().row, parent });
    }
    out
}

/// Compiles `query` for the tree's grammar (`Query::new`) and runs it over the whole tree
/// (`QueryCursor::matches`), giving for each capture of each match, in order, the pre-order
/// position of the captured node. Claimed: the result is `query_captures` of the tree's
/// grammar and source and of `query`; `None` where `Query::new` refuses the query.
#[verifier::external_body]
fn tree_query(st: &SourceTree, query: &str) -> (r: Option<Vec<usize>>)
    ensures
        query_captures(grammar_name(st.grammar), st.source@, query@) == opt_positions(r),
{
    let q = tree_sitter::Query::new(&st.language, query).ok()?;
    let root = st.tree.root_node();
    let (mut c, mut ids, mut out) = (root.walk(), Vec::new(), Vec::new());
    for i in 0..root.descendant_count() { c.goto_descendant(i); ids.push(c.node().id()); }
    let mut qc = tree_sitter::QueryCursor::new();
    let mut ms = qc.matches(&q, root, st.source.as_bytes());
    while let Some(m) = ms.next() {
        for cap in m.captures() { out.push(ids.iter().position(|&k| k == cap.node.id())?); }
    }
    Some(out)
}

/// Optional positions as plain values.
pub open spec fn opt_positions(r: Option<Vec<usize>>) -> Option<Seq<nat>> {
    match r {
        Some(v) => Some(positions_view(v@)),
        None => None,
    }
}

/// Positions as plain values.
pub open spec fn positions_view(v: Seq<usize>) -> Seq<nat> {
    v.map_values(|k: usize| k as nat)
}

impl SourceTree {
    /// Parses `source` with `grammar`; `None` where tree-sitter builds no tree.
    fn parse(grammar: Grammar, source: &str) -> (r: Option<SourceTree>)
        ensures
            r is Some <==> syntax_nodes(grammar_name(grammar), source@) is Some,
            r matches Some(st) ==> st.grammar == grammar && st.source@ == source@,
    {
        match parse_tree(grammar, source) {
            Some((language, tree)) => Some(SourceTree { grammar, source: source.to_owned(), language, tree }),
            None => None,
        }
    }
}

/// The nodes, in pre-order, of the tree that tree-sitter builds for `source` with `grammar`;
/// `None` where it builds none.
pub fn parse_source(grammar: Grammar, source: &str) -> (r: Option<Vec<SyntaxNode>>)
    ensures
        opt_nodes_view(r) == syntax_nodes(grammar_name(grammar), source@),
        r matches Some(v) ==> parents_ok(nodes_view(v@)),
{
    match SourceTree::parse(grammar, source) {
        Some(st) => Some(tree_nodes(&st)),
        None => None,
    }
}

/// The pre-order positions of the nodes that `query` captures in the tree of `source`, match
/// after match; `None` where tree-sitter builds no tree or refuses the query.
pub fn run_query(grammar: Grammar, source: &str, query: &str) -> (r: Option<Vec<usize>>)
    ensures
        syntax_nodes(grammar_name(grammar), source@) is None ==> r is None,
        syntax_nodes(grammar_name(grammar), source@) is Some ==> opt_positions(r)
            == query_captures(grammar_name(grammar), source@, query@),
{
    match SourceTree::parse(grammar, source) {
        Some(st) => tree_query(&st, query),
        None => None,
    }
}

/// A match of an AST search: where it starts (line counted from 1, column from 0), its text,
/// the lines around it, the kind of its node, a description of where it stands, and whether a
/// tree-sitter query found it (else it was found by its text).
#[derive(Debug, Clone)]
pub struct AstMatch {
    pub line_number: usize,
    pub column: usize,
    pub match_text: String,
    pub context_before: Vec<String>,
    pub context_after: Vec<String>,
    pub node_type: String,
    pub semantic_context: String,
    pub from_query: bool,
}

/// A match as plain values.
pub struct MatchView {
    pub line_number: nat,
    pub column: nat,
    pub match_text: Seq<char>,
    pub context_before: Seq<Seq<char>>,
    pub context_after: Seq<Seq<char>>,
    pub node_type: Seq<char>,
    pub semantic_context: Seq<char>,
    pub from_query: bool,
}

/// The plain values of a match.
pub open spec fn match_view(m: AstMatch) -> MatchView {
    MatchView {
        line_number: m.line_number as nat,
        column: m.column as nat,
        match_text: m.match_text@,
        context_before: strings_view(m.context_before@),
        context_after: strings_view(m.context_after@),
        node_type: m.node_type@,
        semantic_context: m.semantic_context@,
        from_query: m.from_query,
    }
}

/// The plain values of a list of matches.
pub open spec fn matches_view(v: Seq<AstMatch>) -> Seq<MatchView> {
    v.map_values(|m: AstMatch| match_view(m))
}

/// Why an AST search cannot describe a match.
#[derive(Debug, Clone, Copy, PartialEq, Eq, Structural)]
pub enum AstSearchError {
    /// A match's line cannot be counted from 1, or the lines around it lie outside the source.
    ContextOutOfRange,
}

/// The position of the nearest ancestor of node `i` that is a function, method, struct,
/// class or impl definition, going up by parent positions.
pub open spec fn nearest_context_ancestor(ns: Seq<NodeTuple>, i: int) -> Option<nat>
    decreases i,
{
    if 0 <= i < ns.len() {
        match ns[i].5 {
            Some(p) => if p < i {
                if is_context_kind_spec(ns[p as int].0) {
                    Some(p)
                } else {
                    nearest_context_ancestor(ns, p as int)
                }
            } else {
                None
            },
            None => None,
        }
    } else {
        None
    }
}

/// The description of node `i`: its kind and start, and the first line of its nearest
/// enclosing definition.
pub open spec fn node_context(ns: Seq<NodeTuple>, i: int) -> Seq<char> {
    semantic_context_text(
        ns[i].0,
        ns[i].2,
        ns[i].3,
        match nearest_context_ancestor(ns, i) {
            Some(p) => Some(ns[p as int].1),
            None => None,
        },
    )
}

/// The match that node `i` gives when its text contains the pattern.
pub open spec fn text_match(ns: Seq<NodeTuple>, i: int) -> MatchView {
    MatchView {
        line_number: ns[i].2 + 1,
        column: ns[i].3,
        match_text: ns[i].1,
        context_before: Seq::empty(),
        context_after: Seq::empty(),
        node_type: ns[i].0,
        semantic_context: node_context(ns, i),
        from_query: false,
    }
}

/// The text matches among the first `k` nodes, in pre-order.
pub open spec fn text_matches_upto(ns: Seq<NodeTuple>, pattern: Seq<char>, k: int) -> Seq<MatchView>
    decreases k,
{
    if k <= 0 {
        Seq::empty()
    } else if contains_text(ns[k - 1].1, pattern) {
        text_matches_upto(ns, pattern, k - 1).push(text_match(ns, k - 1))
    } else {
        text_matches_upto(ns, pattern, k - 1)
    }
}

/// One match for every node whose text contains the pattern, in pre-order.
pub open spec fn text_matches(ns: Seq<NodeTuple>, pattern: Seq<char>) -> Seq<MatchView> {
    text_matches_upto(ns, pattern, ns.len() as int)
}

/// Every node whose text contains the pattern starts on a line that can be counted from 1.
pub open spec fn text_rows_fit(ns: Seq<NodeTuple>, pattern: Seq<char>) -> bool {
    forall|i: int|
        0 <= i < ns.len() && contains_text(#[trigger] ns[i].1, pattern) ==> ns[i].2 < usize::MAX
}

/// The match that a query gives for the captured node `k`, with up to three lines of the
/// source before and after it.
pub open spec fn query_match(ns: Seq<NodeTuple>, k: int, source_lines: Seq<Seq<char>>) -> MatchView {
    MatchView {
        line_number: ns[k].2 + 1,
        column: ns[k].3,
        match_text: ns[k].1,
        context_before: source_lines.subrange(context_before_start(ns[k].2 as int, 3), ns[k].2 as int),
        context_after: source_lines.subrange(
            ns[k].4 + 1int,
            context_after_end(ns[k].4 as int, 3, source_lines.len() as int),
        ),
        node_type: ns[k].0,
        semantic_context: node_context(ns, k),
        from_query: true,
    }
}

/// One match per capture, in order.
pub open spec fn query_matches(ns: Seq<NodeTuple>, caps: Seq<nat>, source_lines: Seq<Seq<char>>) -> Seq<MatchView> {
    caps.map_values(|k: nat| query_match(ns, k as int, source_lines))
}

/// The captured node `k` exists, its line can be counted from 1, and the lines around it
/// can be taken from a source of `line_count` lines.
pub open spec fn capture_fits(ns: Seq<NodeTuple>, k: nat, line_count: nat) -> bool {
    &&& k < ns.len()
    &&& ns[k as int].2 < usize::MAX
    &&& ns[k as int].2 <= line_count
    &&& ns[k as int].4 < line_count
    &&& ns[k as int].4 + 3 + 1 <= usize::MAX
}

/// Every capture fits.
pub open spec fn captures_fit(ns: Seq<NodeTuple>, caps: Seq<nat>, line_count: nat) -> bool {
    forall|j: int| 0 <= j < caps.len() ==> capture_fits(ns, #[trigger] caps[j], line_count)
}

/// What a search of a parsed source gives: with the query's captures, one match per capture;
/// where the query was refused, one match per node whose text contains the pattern. `None`
/// where a match cannot be described.
pub open spec fn search_outcome(
    ns: Seq<NodeTuple>,
    caps: Option<Seq<nat>>,
    source: Seq<char>,
    pattern: Seq<char>,
) -> Option<Seq<MatchView>> {
    match caps {
        Some(c) => if captures_fit(ns, c, lines_of(source).len()) {
            Some(query_matches(ns, c, lines_of(source)))
        } else {
            None
        },
        None => if text_rows_fit(ns, pattern) {
            Some(text_matches(ns, pattern))
        } else {
            None
        },
    }
}

/// A position as a plain value.
pub open spec fn opt_position(r: Option<usize>) -> Option<nat> {
    match r {
        Some(p) => Some(p as nat),
        None => None,
    }
}

/// The nearest enclosing definition of a node comes before it.
proof fn lemma_ancestor_before(ns: Seq<NodeTuple>, i: int)
    ensures
        nearest_context_ancestor(ns, i) matches Some(p) ==> 0 <= p < i,
    decreases i,
{
    if 0 <= i < ns.len() {
        if let Some(p) = ns[i].5 {
            if p < i && !is_context_kind_spec(ns[p as int].0) {
                lemma_ancestor_before(ns, p as int);
            }
        }
    }
}

/// Node `a` is an ancestor of node `i`: it is reached from `i` by going up parent positions
/// (each parent coming before its child).
pub open spec fn is_ancestor(ns: Seq<NodeTuple>, a: int, i: int) -> bool
    decreases i,
{
    if 0 <= i < ns.len() {
        match ns[i].5 {
            Some(p) => p < i && (p == a || is_ancestor(ns, a, p as int)),
            None => false,
        }
    } else {
        false
    }
}

/// An ancestor comes before its descendant.
proof fn lemma_ancestor_lt(ns: Seq<NodeTuple>, a: int, i: int)
    ensures
        is_ancestor(ns, a, i) ==> 0 <= a < i,
    decreases i,
{
    if 0 <= i < ns.len() {
        if let Some(p) = ns[i].5 {
            if p < i {
                lemma_ancestor_lt(ns, a, p as int);
            }
        }
    }
}

/// The enclosing definition of a node is the first function, method, struct, class or impl
/// definition met going up from it: an ancestor of that kind such that no ancestor below it
/// (between it and the node) is of such a kind. A node with no such ancestor has none.
pub proof fn law_enclosing_context_is_nearest(ns: Seq<NodeTuple>, i: int)
    requires
        0 <= i < ns.len(),
    ensures
        match nearest_context_ancestor(ns, i) {
            Some(p) => {
                &&& is_ancestor(ns, p as int, i)
                &&& is_context_kind_spec(ns[p as int].0)
                &&& forall|q: int|
                    #[trigger] is_ancestor(ns, q, i) && p < q ==> !is_context_kind_spec(ns[q].0)
            },
            None => forall|q: int| #[trigger] is_ancestor(ns, q, i) ==> !is_context_kind_spec(ns[q].0),
        },
    decreases i,
{
    match ns[i].5 {
        Some(par) => {
            if par < i {
                let pi = par as int;
                assert forall|q: int| #[trigger] is_ancestor(ns, q, i) && q != pi implies is_ancestor(
                    ns,
                    q,
                    pi,
                ) by {}
                if is_context_kind_spec(ns[pi].0) {
                    assert forall|q: int| #[trigger] is_ancestor(ns, q, i) && pi < q implies !is_context_kind_spec(
                        ns[q].0,
                    ) by {
                        lemma_ancestor_lt(ns, q, pi);
                    }
                } else {
                    law_enclosing_context_is_nearest(ns, pi);
                }
            }
        },
        None => {},
    }
}

/// The position of the nearest enclosing function, method, struct, class or impl definition
/// of node `i`, going up from parent to parent.
pub fn enclosing_context(nodes: &Vec<SyntaxNode>, i: usize) -> (r: Option<usize>)
    requires
        i < nodes.len(),
    ensures
        opt_position(r) == nearest_context_ancestor(nodes_view(nodes@), i as int),
{
    let ghost ns = nodes_view(nodes@);
    let mut cur = i;
    loop
        invariant
            cur < nodes.len(),
            ns == nodes_view(nodes@),
            nearest_context_ancestor(ns, i as int) == nearest_context_ancestor(ns, cur as int),
        decreases cur,
    {
        proof {
            assert(ns[cur as int] == node_view(nodes@[cur as int]));
        }
        match nodes[cur].parent {
            None => {
                return None;
            },
            Some(p) => {
                if p >= cur {
                    return None;
                }
                proof {
                    assert(ns[p as int] == node_view(nodes@[p as int]));
                }
                if is_context_kind(nodes[p].kind.as_str()) {
                    return Some(p);
                }
                cur = p;
            },
        }
    }
}

/// The description of node `i`.
fn node_description(nodes: &Vec<SyntaxNode>, i: usize) -> (r: String)
    requires
        i < nodes.len(),
        nodes@[i as int].start_row < usize::MAX,
    ensures
        r@ == node_context(nodes_view(nodes@), i as int),
{
    let ghost ns = nodes_view(nodes@);
    proof {
        assert(ns[i as int] == node_view(nodes@[i as int]));
        lemma_ancestor_before(ns, i as int);
    }
    let parent = enclosing_context(nodes, i);
    let n = &nodes[i];
    match parent {
        Some(p) => {
            proof {
                assert(ns[p as int] == node_view(nodes@[p as int]));
            }
            get_semantic_context(n.kind.as_str(), n.start_row, n.start_column, Some(nodes[p].text.as_str()))
        },
        None => get_semantic_context(n.kind.as_str(), n.start_row, n.start_column, None),
    }
}

/// The plain values of a list with one more match.
proof fn lemma_matches_push(v: Seq<AstMatch>, m: AstMatch)
    ensures
        matches_view(v.push(m)) == matches_view(v).push(match_view(m)),
{
    assert(matches_view(v.push(m)) =~= matches_view(v).push(match_view(m)));
}

/// One match for every node whose text contains `pattern`, in pre-order, with no context
/// lines.
pub fn search_nodes_by_text(nodes: &Vec<SyntaxNode>, pattern: &str) -> (r: Vec<AstMatch>)
    requires
        text_rows_fit(nodes_view(nodes@), pattern@),
    ensures
        matches_view(r@) == text_matches(nodes_view(nodes@), pattern@),
{
    let ghost ns = nodes_view(nodes@);
    let mut out: Vec<AstMatch> = Vec::new();
    let mut k: usize = 0;
    while k < nodes.len()
        invariant
            k <= nodes.len(),
            ns == nodes_view(nodes@),
            text_rows_fit(ns, pattern@),
            matches_view(out@) == text_matches_upto(ns, pattern@, k as int),
        decreases nodes.len() - k,
    {
        proof {
            assert(ns[k as int] == node_view(nodes@[k as int]));
        }
        let n = &nodes[k];
        if text_contains(n.text.as_str(), pattern) {
            proof {
                assert(contains_text(ns[k as int].1, pattern@));
            }
            let m = AstMatch {
                line_number: n.start_row + 1,
                column: n.start_column,
                match_text: n.text.clone(),
                context_before: Vec::new(),
                context_after: Vec::new(),
                node_type: n.kind.clone(),
                semantic_context: node_description(nodes, k),
                from_query: false,
            };
            proof {
                lemma_matches_push(out@, m);
                assert(strings_view(m.context_before@) =~= Seq::<Seq<char>>::empty());
                assert(strings_view(m.context_after@) =~= Seq::<Seq<char>>::empty());
                assert(match_view(m) == text_match(ns, k as int));
            }
            out.push(m);
        }
        k = k + 1;
    }
    out
}

/// The match that a query gives for the captured node `k`.
fn query_match_at(nodes: &Vec<SyntaxNode>, k: usize, source: &str) -> (r: AstMatch)
    requires
        capture_fits(nodes_view(nodes@), k as nat, lines_of(source@).len()),
    ensures
        match_view(r) == query_match(nodes_view(nodes@), k as int, lines_of(source@)),
{
    let ghost ns = nodes_view(nodes@);
    proof {
        assert(ns[k as int] == node_view(nodes@[k as int]));
    }
    let n = &nodes[k];
    let (before, after) = get_context(source, n.start_row, n.end_row, 3);
    AstMatch {
        line_number: n.start_row + 1,
        column: n.start_column,
        match_text: n.text.clone(),
        context_before: before,
        context_after: after,
        node_type: n.kind.clone(),
        semantic_context: node_description(nodes, k),
        from_query: true,
    }
}

/// The matches of a parsed source: with the query's `captures` (pre-order positions), one
/// match per capture with three lines of context on each side; where the query was refused
/// (`None`), one match per node whose text contains `pattern`.
pub fn search_parsed(
    nodes: &Vec<SyntaxNode>,
    captures: Option<Vec<usize>>,
    source: &str,
    pattern: &str,
) -> (r: Result<Vec<AstMatch>, AstSearchError>)
    ensures
        match r {
            Ok(v) => search_outcome(nodes_view(nodes@), opt_positions(captures), source@, pattern@)
                == Some(matches_view(v@)),
            Err(e) => search_outcome(nodes_view(nodes@), opt_positions(captures), source@, pattern@)
                is None && e == AstSearchError::ContextOutOfRange,
        },
{
    let ghost ns = nodes_view(nodes@);
    match captures {
        Some(caps) => {
            let ghost c = positions_view(caps@);
            let line_count = lines(source).len();
            let mut j: usize = 0;
            while j < caps.len()
                invariant
                    j <= caps.len(),
                    ns == nodes_view(nodes@),
                    c == positions_view(caps@),
                    opt_positions(captures) == Some(c),
                    line_count == lines_of(source@).len(),
                    forall|jj: int| 0 <= jj < j ==> capture_fits(ns, #[trigger] c[jj], line_count as nat),
                decreases caps.len() - j,
            {
                let k = caps[j];
                proof {
                    assert(c[j as int] == k as nat);
                }
                if k >= nodes.len() {
                    proof {
                        assert(!capture_fits(ns, c[j as int], line_count as nat));
                    }
                    return Err(AstSearchError::ContextOutOfRange);
                }
                proof {
                    assert(ns[k as int] == node_view(nodes@[k as int]));
                }
                let n = &nodes[k];
                if n.start_row == usize::MAX || n.start_row > line_count || n.end_row >= line_count
                    || n.end_row > usize::MAX - 4 {
                    proof {
                        assert(!capture_fits(ns, c[j as int], line_count as nat));
                    }
                    return Err(AstSearchError::ContextOutOfRange);
                }
                j = j + 1;
            }
            let mut out: Vec<AstMatch> = Vec::new();
            let mut j: usize = 0;
            while j < caps.len()
                invariant
                    j <= caps.len(),
                    ns == nodes_view(nodes@),
                    c == positions_view(caps@),
                    captures_fit(ns, c, lines_of(source@).len()),
                    matches_view(out@) =~= query_matches(ns, c, lines_of(source@)).subrange(0, j as int),
                decreases caps.len() - j,
            {
                let k = caps[j];
                proof {
                    assert(c[j as int] == k as nat);
                }
                let m = query_match_at(nodes, k, source);
                proof {
                    lemma_matches_push(out@, m);
                }
                out.push(m);
                j = j + 1;
            }
            Ok(out)
        },
        None => {
            let mut k: usize = 0;
            while k < nodes.len()
                invariant
                    k <= nodes.len(),
                    ns == nodes_view(nodes@),
                    captures is None,
                    forall|i: int|
                        0 <= i < k && contains_text(#[trigger] ns[i].1, pattern@) ==> ns[i].2 < usize::MAX,
                decreases nodes.len() - k,
            {
                proof {
                    assert(ns[k as int] == node_view(nodes@[k as int]));
                }
                if nodes[k].start_row == usize::MAX && text_contains(nodes[k].text.as_str(), pattern) {
                    proof {
                        assert(contains_text(ns[k as int].1, pattern@) && ns[k as int].2 == usize::MAX);
                        assert(!text_rows_fit(ns, pattern@));
                    }
                    return Err(AstSearchError::ContextOutOfRange);
                }
                k = k + 1;
            }
            Ok(search_nodes_by_text(nodes, pattern))
        },
    }
}

/// Searches `source`, parsed with `grammar`, for `pattern`: the query that `pattern` stands
/// for in `language` (see `build_query_string`) where tree-sitter accepts it, else the nodes
/// whose text contains `pattern`. `Ok(None)` where tree-sitter builds no tree.
pub fn search_source(grammar: Grammar, source: &str, pattern: &str, language: &str) -> (r: Result<
    Option<Vec<AstMatch>>,
    AstSearchError,
>)
    ensures
        match syntax_nodes(grammar_name(grammar), source@) {
            None => r matches Ok(None),
            Some(ns) => {
                let outcome = search_outcome(
                    ns,
                    query_captures(grammar_name(grammar), source@, query_for_pattern(pattern@, language@)),
                    source@,
                    pattern@,
                );
                match r {
                    Ok(Some(v)) => outcome == Some(matches_view(v@)),
                    Ok(None) => false,
                    Err(e) => outcome is None && e == AstSearchError::ContextOutOfRange,
                }
            },
        },
{
    let st = match SourceTree::parse(grammar, source) {
        Some(st) => st,
        None => {
            return Ok(None);
        },
    };
    let nodes = tree_nodes(&st);
    let query = build_query_string(pattern, language);
    let captures = tree_query(&st, query.as_str());
    match search_parsed(&nodes, captures, source, pattern) {
        Ok(v) => Ok(Some(v)),
        Err(e) => Err(e),
    }
}

/// Adds the matches of one more file to `results` and says whether `max_results` is reached.
pub fn extend_results<T>(results: &mut Vec<T>, more: Vec<T>, max_results: usize) -> (stop: bool)
    ensures
        final(results)@ == old(results)@ + more@,
        stop == (final(results)@.len() >= max_results),
{
    let mut more = more;
    results.append(&mut more);
    results.len() >= max_results
}

/// Keeps the first `max_results` results.
pub fn limit_results<T>(results: &mut Vec<T>, max_results: usize)
    ensures
        final(results)@ == if old(results)@.len() > max_results {
            old(results)@.subrange(0, max_results as int)
        } else {
            old(results)@
        },
{
    results.truncate(max_results);
}

} // verus!
