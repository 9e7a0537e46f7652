//! The decisions of AST code search: which language a file is in, which tree-sitter query a
//! search pattern becomes, which source lines surround a match and how a match is described.
use vstd::prelude::*;

use crate::did::opt_view;
use crate::text::{
    concat, decimal, decimal_text, lines, lines_of, starts_with, str_eq, strings_view,
    strip_all_prefix, strip_all_prefix_text, text_starts_with, trim, trim_text,
};

verus! {

/// Match type of a search result.
#[derive(Debug, Clone, Copy, PartialEq, Eq, Structural)]
pub enum MatchType {
    Text,
    Ast,
    Symbol,
    Vector,
    Memory,
    File,
}

/// The extension of a path as `std::path::Path::extension` computes it (the part of the file
/// name after its last `.`, when there is one and the name is not a bare dot-file), as text.
pub uninterp spec fn extension_of(path: Seq<char>) -> Option<Seq<char>>;

/// The part of `s` after its last `c`, or all of `s` when it holds no `c`.
pub open spec fn after_last(s: Seq<char>, c: char) -> Seq<char>
    decreases s.len(),
{
    if s.len() == 0 {
        s
    } else if s.last() == c {
        Seq::empty()
    } else {
        after_last(s.drop_last(), c).push(s.last())
    }
}

/// The extension of a file name: what follows its last `.`; none when it has no `.`, or
/// when its only `.` is its first character.
pub open spec fn name_extension(name: Seq<char>) -> Option<Seq<char>> {
    let e = after_last(name, '.');
    if e.len() + 1 < name.len() {
        Some(e)
    } else {
        None
    }
}

/// A path whose file name is the text after its last `/`: that text is not empty, `.` or
/// `..`, and the path holds no `\` or `:` (no other separator or drive prefix).
pub open spec fn plain_file_path(path: Seq<char>) -> bool {
    let name = after_last(path, '/');
    &&& name.len() > 0
    &&& name != seq!['.']
    &&& name != seq!['.', '.']
    &&& !path.contains('\\')
    &&& !path.contains(':')
}

/// Calls `std::path::Path::extension` on the path and reads the result as text. Its result is
/// named `extension_of` of the path's characters. For a path whose file name is the text after
/// its last `/`, it is, as std documents, the part of that name after its last `.`, with none
/// when the name has no `.` or begins with its only `.`.
#[verifier::external_body]
fn path_extension(path: &str) -> (r: Option<String>)
    ensures
        opt_view(r) == extension_of(path@),
        plain_file_path(path@) ==> opt_view(r) == name_extension(after_last(path@, '/')),
{
    match std::path::Path::new(path).extension() {
        Some(e) => match e.to_str() {
            Some(t) => Some(t.to_owned()),
            None => None,
        },
        None => None,
    }
}

/// The language a file extension stands for; `text` when none is known.
pub open spec fn language_of_extension(ext: Option<Seq<char>>) -> Seq<char> {
    match ext {
        Some(e) => if e == "rs"@ {
            "rust"@
        } else if e == "js"@ || e == "mjs"@ {
            "javascript"@
        } else if e == "ts"@ || e == "tsx"@ {
            "typescript"@
        } else if e == "py"@ {
            "python"@
        } else if e == "go"@ {
            "go"@
        } else if e == "java"@ {
            "java"@
        } else if e == "cpp"@ || e == "cc"@ || e == "cxx"@ {
            "cpp"@
        } else if e == "c"@ || e == "h"@ {
            "c"@
        } else {
            "text"@
        },
        None => "text"@,
    }
}

/// The language a file extension stands for; `text` when none is known.
pub fn language_for_extension(ext: Option<&str>) -> (r: &'static str)
    ensures
        r@ == language_of_extension(match ext {
            Some(e) => Some(e@),
            None => None,
        }),
{
    match ext {
        Some(e) => if str_eq(e, "rs") {
            "rust"
        } else if str_eq(e, "js") || str_eq(e, "mjs") {
            "javascript"
        } else if str_eq(e, "ts") || str_eq(e, "tsx") {
            "typescript"
        } else if str_eq(e, "py") {
            "python"
        } else if str_eq(e, "go") {
            "go"
        } else if str_eq(e, "java") {
            "java"
        } else if str_eq(e, "cpp") || str_eq(e, "cc") || str_eq(e, "cxx") {
            "cpp"
        } else if str_eq(e, "c") || str_eq(e, "h") {
            "c"
        } else {
            "text"
        },
        None => "text",
    }
}

/// Detect the language of a file from its path's extension.
pub fn detect_language(path: &str) -> (r: &'static str)
    ensures
        r@ == language_of_extension(extension_of(path@)),
        plain_file_path(path@) ==> r@ == language_of_extension(
            name_extension(after_last(path@, '/')),
        ),
{
    let ext = path_extension(path);
    match ext {
        Some(e) => language_for_extension(Some(e.as_str())),
        None => language_for_extension(None),
    }
}

/// The language to search a file in: the forced one if given, else the detected one.
pub fn select_language(forced: Option<&str>, path: &str) -> (r: String)
    ensures
        r@ == match forced {
            Some(l) => l@,
            None => language_of_extension(extension_of(path@)),
        },
        forced is None && plain_file_path(path@) ==> r@ == language_of_extension(
            name_extension(after_last(path@, '/')),
        ),
{
    match forced {
        Some(l) => l.to_owned(),
        None => detect_language(path).to_owned(),
    }
}

/// `(identifier) @id (#eq? @id "NAME")`: any identifier spelled `name`.
pub open spec fn identifier_eq_query(name: Seq<char>) -> Seq<char> {
    "(identifier) @id (#eq? @id \""@ + name + "\")"@
}

/// The query that finds a function called `name` in `language`.
pub open spec fn function_query(language: Seq<char>, name: Seq<char>) -> Seq<char> {
    if language == "rust"@ {
        "(function_item name: (identifier) @fn (#eq? @fn \""@ + name + "\"))"@
    } else if language == "javascript"@ || language == "typescript"@ {
        "(function_declaration name: (identifier) @fn (#eq? @fn \""@ + name + "\"))"@
    } else if language == "python"@ {
        "(function_definition name: (identifier) @fn (#eq? @fn \""@ + name + "\"))"@
    } else {
        identifier_eq_query(name)
    }
}

/// The query that finds a class (a struct in Rust) called `name` in `language`.
pub open spec fn class_query(language: Seq<char>, name: Seq<char>) -> Seq<char> {
    if language == "rust"@ {
        "(struct_item name: (type_identifier) @struct (#eq? @struct \""@ + name + "\"))"@
    } else if language == "javascript"@ || language == "typescript"@ {
        "(class_declaration name: (identifier) @class (#eq? @class \""@ + name + "\"))"@
    } else if language == "python"@ {
        "(class_definition name: (identifier) @class (#eq? @class \""@ + name + "\"))"@
    } else {
        identifier_eq_query(name)
    }
}

/// The tree-sitter query for a search pattern: `function NAME` and `class NAME` look for
/// definitions of NAME, anything else for identifiers that match the pattern.
pub open spec fn query_for_pattern(pattern: Seq<char>, language: Seq<char>) -> Seq<char> {
    if starts_with(pattern, "function "@) {
        function_query(language, trim(strip_all_prefix(pattern, "function "@)))
    } else if starts_with(pattern, "class "@) {
        class_query(language, trim(strip_all_prefix(pattern, "class "@)))
    } else {
        "(identifier) @id (#match? @id \""@ + pattern + "\")"@
    }
}

/// `before`, then `name`, then `after`.
fn wrap(before: &str, name: &str, after: &str) -> (r: String)
    ensures
        r@ == before@ + name@ + after@,
{
    let a = concat(before, name);
    concat(a.as_str(), after)
}

/// Build the tree-sitter query string for a search pattern in a language.
pub fn build_query_string(pattern: &str, language: &str) -> (r: String)
    ensures
        r@ == query_for_pattern(pattern@, language@),
{
    if text_starts_with(pattern, "function ") {
        let stripped = strip_all_prefix_text(pattern, "function ");
        let name = trim_text(stripped.as_str());
        let n = name.as_str();
        if str_eq(language, "rust") {
            wrap("(function_item name: (identifier) @fn (#eq? @fn \"", n, "\"))")
        } else if str_eq(language, "javascript") || str_eq(language, "typescript") {
            wrap("(function_declaration name: (identifier) @fn (#eq? @fn \"", n, "\"))")
        } else if str_eq(language, "python") {
            wrap("(function_definition name: (identifier) @fn (#eq? @fn \"", n, "\"))")
        } else {
            wrap("(identifier) @id (#eq? @id \"", n, "\")")
        }
    } else if text_starts_with(pattern, "class ") {
        let stripped = strip_all_prefix_text(pattern, "class ");
        let name = trim_text(stripped.as_str());
        let n = name.as_str();
        if str_eq(language, "rust") {
            wrap("(struct_item name: (type_identifier) @struct (#eq? @struct \"", n, "\"))")
        } else if str_eq(language, "javascript") || str_eq(language, "typescript") {
            wrap("(class_declaration name: (identifier) @class (#eq? @class \"", n, "\"))")
        } else if str_eq(language, "python") {
            wrap("(class_definition name: (identifier) @class (#eq? @class \"", n, "\"))")
        } else {
            wrap("(identifier) @id (#eq? @id \"", n, "\")")
        }
    } else {
        wrap("(identifier) @id (#match? @id \"", pattern, "\")")
    }
}

/// The number of context lines kept before a match: those from `start - n` (at least 0)
/// up to the line the match starts on.
pub open spec fn context_before_start(start_line: int, n: int) -> int {
    if start_line >= n {
        start_line - n
    } else {
        0
    }
}

/// The end (exclusive) of the context lines kept after a match.
pub open spec fn context_after_end(end_line: int, n: int, count: int) -> int {
    if end_line + n + 1 <= count {
        end_line + n + 1
    } else {
        count
    }
}

/// Copies of the strings of `v` from `from` (inclusive) to `to` (exclusive).
fn copy_range(v: &Vec<String>, from: usize, to: usize) -> (r: Vec<String>)
    requires
        from <= to <= v.len(),
    ensures
        strings_view(r@) == strings_view(v@).subrange(from as int, to as int),
{
    let mut out: Vec<String> = Vec::new();
    let mut i = from;
    while i < to
        invariant
            from <= i <= to <= v.len(),
            strings_view(out@) == strings_view(v@).subrange(from as int, i as int),
        decreases to - i,
    {
        let c = v[i].clone();
        let ghost prev = out@;
        out.push(c);
        proof {
            assert(out@ == prev.push(v@[i as int]));
            assert(strings_view(out@) == strings_view(prev).push(v@[i as int]@));
            assert(strings_view(out@) =~= strings_view(v@).subrange(from as int, i + 1));
        }
        i = i + 1;
    }
    out
}

/// The lines of `source` around a match spanning lines `start_line`..=`end_line` (0-based):
/// up to `context_lines` lines before it and up to `context_lines` lines after it.
pub fn get_context(source: &str, start_line: usize, end_line: usize, context_lines: usize) -> (r: (
    Vec<String>,
    Vec<String>,
))
    requires
        start_line <= lines_of(source@).len(),
        end_line < lines_of(source@).len(),
        end_line + context_lines + 1 <= usize::MAX,
    ensures
        strings_view(r.0@) == lines_of(source@).subrange(
            context_before_start(start_line as int, context_lines as int),
            start_line as int,
        ),
        strings_view(r.1@) == lines_of(source@).subrange(
            end_line + 1,
            context_after_end(end_line as int, context_lines as int, lines_of(source@).len() as int),
        ),
{
    let all = lines(source);
    let before_start = if start_line >= context_lines {
        start_line - context_lines
    } else {
        0
    };
    let after_end = if end_line + context_lines + 1 <= all.len() {
        end_line + context_lines + 1
    } else {
        all.len()
    };
    proof {
        assert(all@.len() == lines_of(source@).len());
    }
    let before = copy_range(&all, before_start, start_line);
    let after = copy_range(&all, end_line + 1, after_end);
    (before, after)
}

/// The first line of a text, or nothing when it has no line.
pub open spec fn first_line(t: Seq<char>) -> Seq<char> {
    if lines_of(t).len() > 0 {
        lines_of(t)[0]
    } else {
        Seq::empty()
    }
}

/// The description of a match: `KIND at ROW:COLUMN` (the row counted from 1), followed by
/// ` in ` and the first line of the enclosing definition when there is one.
pub open spec fn semantic_context_text(
    kind: Seq<char>,
    row: nat,
    column: nat,
    parent: Option<Seq<char>>,
) -> Seq<char> {
    kind + " at "@ + decimal(row + 1) + ":"@ + decimal(column) + match parent {
        Some(t) => " in "@ + first_line(t),
        None => Seq::empty(),
    }
}

/// Describe a match of kind `kind` at 0-based `row` and `column`, within the definition
/// whose text is `parent_text`, if any.
pub fn get_semantic_context(kind: &str, row: usize, column: usize, parent_text: Option<&str>) -> (r:
    String)
    requires
        row + 1 <= usize::MAX,
    ensures
        r@ == semantic_context_text(
            kind@,
            row as nat,
            column as nat,
            match parent_text {
                Some(t) => Some(t@),
                None => None,
            },
        ),
{
    let row_text = decimal_text(row + 1);
    let col_text = decimal_text(column);
    let a = concat(kind, " at ");
    let b = concat(a.as_str(), row_text.as_str());
    let c = concat(b.as_str(), ":");
    let mut d = concat(c.as_str(), col_text.as_str());
    let ghost head = d@;
    match parent_text {
        Some(t) => {
            let ls = lines(t);
            let first = if ls.len() > 0 {
                ls[0].clone()
            } else {
                String::new()
            };
            proof {
                if ls.len() > 0 {
                    assert(strings_view(ls@)[0] == ls@[0]@);
                }
            }
            let tail = concat(" in ", first.as_str());
            d = concat(d.as_str(), tail.as_str());
            proof {
                assert(d@ =~= head + (" in "@ + first_line(t@)));
            }
        },
        None => {
            proof {
                assert(d@ =~= head + Seq::<char>::empty());
            }
        },
    }
    d
}

/// The kinds of syntax node that give a match its context: function, method, struct,
/// class and impl definitions.
pub open spec fn is_context_kind_spec(kind: Seq<char>) -> bool {
    kind == "function_item"@ || kind == "function_declaration"@ || kind == "function_definition"@
        || kind == "method_definition"@ || kind == "struct_item"@ || kind == "class_declaration"@
        || kind == "class_definition"@ || kind == "impl_item"@
}

/// Whether a node of this kind gives a match its context.
pub fn is_context_kind(kind: &str) -> (r: bool)
    ensures
        r == is_context_kind_spec(kind@),
{
    str_eq(kind, "function_item") || str_eq(kind, "function_declaration") || str_eq(
        kind,
        "function_definition",
    ) || str_eq(kind, "method_definition") || str_eq(kind, "struct_item") || str_eq(
        kind,
        "class_declaration",
    ) || str_eq(kind, "class_definition") || str_eq(kind, "impl_item")
}

/// The lines kept before a match starting on line `start_line` are the `min(start_line, n)`
/// lines just before it: every line before the match is kept, up to `n` of them.
pub proof fn law_context_before_lines(source: Seq<char>, start_line: int, n: int)
    requires
        0 <= start_line <= lines_of(source).len(),
        0 <= n,
    ensures
        ({
            let kept = if start_line < n { start_line } else { n };
            &&& lines_of(source).subrange(context_before_start(start_line, n), start_line).len() == kept
            &&& lines_of(source).subrange(context_before_start(start_line, n), start_line)
                == lines_of(source).subrange(start_line - kept, start_line)
        }),
{
}

/// The lines kept after a match ending on line `end_line` are the `min(n, lines after it)`
/// lines just after it: every line after the match is kept, up to `n` of them.
pub proof fn law_context_after_lines(source: Seq<char>, end_line: int, n: int)
    requires
        0 <= end_line < lines_of(source).len(),
        0 <= n,
    ensures
        ({
            let rest = lines_of(source).len() - end_line - 1;
            let kept = if rest < n { rest } else { n };
            &&& lines_of(source).subrange(
                end_line + 1,
                context_after_end(end_line, n, lines_of(source).len() as int),
            ).len() == kept
            &&& lines_of(source).subrange(
                end_line + 1,
                context_after_end(end_line, n, lines_of(source).len() as int),
            ) == lines_of(source).subrange(end_line + 1, end_line + 1 + kept)
        }),
{
}

/// JavaScript and TypeScript are searched with the same query, whatever the pattern.
pub proof fn law_javascript_typescript_same_query(pattern: Seq<char>)
    ensures
        query_for_pattern(pattern, "javascript"@) == query_for_pattern(pattern, "typescript"@),
{
    reveal_strlit("rust");
    reveal_strlit("javascript");
    reveal_strlit("typescript");
    reveal_strlit("python");
    assert("javascript"@[0] != "typescript"@[0]);
    assert("python"@.len() != "rust"@.len() && "python"@.len() != "javascript"@.len()
        && "python"@.len() != "typescript"@.len());
}

/// `function NAME` looks for function definitions called NAME (the pattern's rest, trimmed):
/// `function_item` in Rust, `function_declaration` in JavaScript and TypeScript,
/// `function_definition` in Python, any identifier NAME in the other languages.
pub proof fn law_function_pattern_query(pattern: Seq<char>, language: Seq<char>)
    requires
        starts_with(pattern, "function "@),
    ensures
        ({
            let name = trim(strip_all_prefix(pattern, "function "@));
            &&& language == "rust"@ ==> query_for_pattern(pattern, language)
                == "(function_item name: (identifier) @fn (#eq? @fn \""@ + name + "\"))"@
            &&& (language == "javascript"@ || language == "typescript"@) ==> query_for_pattern(
                pattern,
                language,
            ) == "(function_declaration name: (identifier) @fn (#eq? @fn \""@ + name + "\"))"@
            &&& language == "python"@ ==> query_for_pattern(pattern, language)
                == "(function_definition name: (identifier) @fn (#eq? @fn \""@ + name + "\"))"@
            &&& (language != "rust"@ && language != "javascript"@ && language != "typescript"@
                && language != "python"@) ==> query_for_pattern(pattern, language)
                == "(identifier) @id (#eq? @id \""@ + name + "\")"@
        }),
{
    reveal_strlit("rust");
    reveal_strlit("javascript");
    reveal_strlit("typescript");
    reveal_strlit("python");
    assert("javascript"@[0] != "typescript"@[0]);
    assert("python"@.len() != "rust"@.len() && "python"@.len() != "javascript"@.len()
        && "python"@.len() != "typescript"@.len());
}

/// `class NAME` looks for class definitions called NAME (the pattern's rest, trimmed):
/// `struct_item` in Rust, `class_declaration` in JavaScript and TypeScript,
/// `class_definition` in Python, any identifier NAME in the other languages.
pub proof fn law_class_pattern_query(pattern: Seq<char>, language: Seq<char>)
    requires
        starts_with(pattern, "class "@),
    ensures
        ({
            let name = trim(strip_all_prefix(pattern, "class "@));
            &&& language == "rust"@ ==> query_for_pattern(pattern, language)
                == "(struct_item name: (type_identifier) @struct (#eq? @struct \""@ + name + "\"))"@
            &&& (language == "javascript"@ || language == "typescript"@) ==> query_for_pattern(
                pattern,
                language,
            ) == "(class_declaration name: (identifier) @class (#eq? @class \""@ + name + "\"))"@
            &&& language == "python"@ ==> query_for_pattern(pattern, language)
                == "(class_definition name: (identifier) @class (#eq? @class \""@ + name + "\"))"@
            &&& (language != "rust"@ && language != "javascript"@ && language != "typescript"@
                && language != "python"@) ==> query_for_pattern(pattern, language)
                == "(identifier) @id (#eq? @id \""@ + name + "\")"@
        }),
{
    reveal_strlit("rust");
    reveal_strlit("javascript");
    reveal_strlit("typescript");
    reveal_strlit("python");
    assert("javascript"@[0] != "typescript"@[0]);
    assert("python"@.len() != "rust"@.len() && "python"@.len() != "javascript"@.len()
        && "python"@.len() != "typescript"@.len());
    reveal_strlit("function ");
    reveal_strlit("class ");
    assert("function "@[0] != "class "@[0]);
}

/// Any other pattern is matched, as a regular expression, against every identifier.
pub proof fn law_other_pattern_query(pattern: Seq<char>, language: Seq<char>)
    requires
        !starts_with(pattern, "function "@),
        !starts_with(pattern, "class "@),
    ensures
        query_for_pattern(pattern, language) == "(identifier) @id (#match? @id \""@ + pattern + "\")"@,
{
}

} // verus!
