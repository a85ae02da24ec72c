//! Extraction of entities and relations from one TypeScript source file.
//!
//! The grammar and its query engine are tree-sitter's. A query hands back
//! its matches as plain values; everything that is made of them (nodes,
//! edges, the list of import specifiers) is computed here.

use vstd::prelude::*;
use vstd::string::*;
use tree_sitter::{Parser, Query, QueryCursor, StreamingIterator};
use tree_sitter_typescript::LANGUAGE_TYPESCRIPT;
use crate::error::Error;
use crate::model::{Edge, EdgeType, EdgeView, Node, NodeType, NodeView, edge_views, node_views};
use crate::text::{decimal, push_digits, slice_text, str_eq, text_between, texts};

verus! {

/// One syntax node that a query captured: the capture's name in the query,
/// the bytes of the source that the node spans, and the rows (from 0) on
/// which it starts and ends.
#[derive(Debug)]
pub struct Capture {
    pub name: String,
    pub start_byte: usize,
    pub end_byte: usize,
    pub start_row: usize,
    pub end_row: usize,
}

/// What a capture holds, as mathematical values.
pub struct CaptureView {
    pub name: Seq<char>,
    pub start_byte: usize,
    pub end_byte: usize,
    pub start_row: usize,
    pub end_row: usize,
}

impl View for Capture {
    type V = CaptureView;

    open spec fn view(&self) -> CaptureView {
        CaptureView {
            name: self.name@,
            start_byte: self.start_byte,
            end_byte: self.end_byte,
            start_row: self.start_row,
            end_row: self.end_row,
        }
    }
}

impl Capture {
    /// A capture with the given name, byte range and rows.
    pub fn new(name: &str, start_byte: usize, end_byte: usize, start_row: usize, end_row: usize) -> (c:
        Capture)
        ensures
            c@ == (CaptureView {
                name: name@,
                start_byte: start_byte,
                end_byte: end_byte,
                start_row: start_row,
                end_row: end_row,
            }),
    {
        Capture { name: name.to_owned(), start_byte, end_byte, start_row, end_row }
    }
}

/// The captures of one match, in the order in which the query gave them.
pub open spec fn match_view(m: Vec<Capture>) -> Seq<CaptureView> {
    m@.map_values(|c: Capture| c@)
}

/// The matches of one query, in the order in which the query gave them.
pub open spec fn match_views(ms: Seq<Vec<Capture>>) -> Seq<Seq<CaptureView>> {
    ms.map_values(|m: Vec<Capture>| match_view(m))
}

/// The matches that tree-sitter finds for the query `pattern` in the tree
/// that its TypeScript grammar builds for `content`; nothing where the
/// parser does not take the grammar, builds no tree, or the pattern is no
/// query.
pub uninterp spec fn ts_matches(content: Seq<char>, pattern: Seq<char>) -> Option<
    Seq<Seq<CaptureView>>,
>;

/// Gives a new `tree_sitter::Parser` the grammar of
/// `tree_sitter_typescript` with `set_language`, parses `content` with
/// `Parser::parse`, compiles `pattern` with `tree_sitter::Query::new` and
/// walks `tree_sitter::QueryCursor::matches` over the root node of the
/// tree. Each capture of each match is handed out with its name among the
/// query's `capture_names` and the byte range and rows of its node. The
/// contract names the result; it claims nothing else of it.
#[verifier::external_body]
fn query_source(content: &str, pattern: &str) -> (found: Option<Vec<Vec<Capture>>>)
    ensures
        match found {
            Some(ms) => ts_matches(content@, pattern@) == Some(match_views(ms@)),
            None => ts_matches(content@, pattern@) is None,
        },
{
    let language = LANGUAGE_TYPESCRIPT.into();
    let mut parser = Parser::new();
    parser.set_language(&language).ok()?;
    let tree = parser.parse(content, None)?;
    let query = Query::new(&language, pattern).ok()?;
    let names = query.capture_names();
    let mut cursor = QueryCursor::new();
    let matches = cursor.matches(&query, tree.root_node(), content.as_bytes());
    Some(matches.map_deref(|m| m.captures().iter().map(|c| Capture::new(
        names[c.index as usize],
        c.node.start_byte(),
        c.node.end_byte(),
        c.node.start_position().row,
        c.node.end_position().row,
    )).collect()).collect())
}

/// The first capture of a match that has the given name.
pub open spec fn find_capture(m: Seq<CaptureView>, name: Seq<char>) -> Option<CaptureView>
    decreases m.len(),
{
    if m.len() == 0 {
        None
    } else if m[0].name == name {
        Some(m[0])
    } else {
        find_capture(m.drop_first(), name)
    }
}

/// The source text that a capture spans, where its byte range lies in the
/// source on character boundaries.
pub open spec fn capture_text(content: Seq<char>, c: CaptureView) -> Option<Seq<char>> {
    text_between(content, c.start_byte as int, c.end_byte as int)
}

/// The first capture of `m` named `name`, if there is one.
pub fn capture_named<'a>(m: &'a Vec<Capture>, name: &str) -> (found: Option<&'a Capture>)
    ensures
        match found {
            Some(c) => find_capture(match_view(*m), name@) == Some(c@),
            None => find_capture(match_view(*m), name@) is None,
        },
{
    let n = m.len();
    let mut i: usize = 0;
    let ghost whole = match_view(*m);
    assert(whole.skip(0) =~= whole);
    while i < n
        invariant
            n == m@.len(),
            i <= n,
            whole == match_view(*m),
            find_capture(whole, name@) == find_capture(whole.skip(i as int), name@),
        decreases n - i,
    {
        proof {
            assert(whole.skip(i as int).drop_first() =~= whole.skip(i as int + 1));
            assert(whole.skip(i as int)[0] == m@[i as int]@);
        }
        if str_eq(m[i].name.as_str(), name) {
            return Some(&m[i]);
        }
        i = i + 1;
    }
    None
}

/// The text of the first capture of `m` named `name`, where the match has
/// such a capture and its byte range holds whole characters of the source.
pub open spec fn named_text(content: Seq<char>, m: Seq<CaptureView>, name: Seq<char>) -> Option<
    Seq<char>,
> {
    match find_capture(m, name) {
        Some(c) => capture_text(content, c),
        None => None,
    }
}

/// The text of the first capture of `m` named `name`.
pub fn text_named<'a>(content: &'a str, m: &Vec<Capture>, name: &str) -> (text: Option<&'a str>)
    ensures
        match text {
            Some(t) => named_text(content@, match_view(*m), name@) == Some(t@),
            None => named_text(content@, match_view(*m), name@) is None,
        },
{
    match capture_named(m, name) {
        Some(c) => slice_text(content, c.start_byte, c.end_byte),
        None => None,
    }
}

/// A row as a line number of a node: its low 32 bits.
pub open spec fn row_line(row: usize) -> u32 {
    (row as int % 0x1_0000_0000) as u32
}

fn line_of_row(row: usize) -> (line: u32)
    ensures
        line == row_line(row),
{
    ((row as u64) % 0x1_0000_0000u64) as u32
}

/// The entity that a match of an entity query stands for: the capture named
/// `outer` spans the declaration and gives body and lines, the capture
/// `name` gives the name. A match that lacks one of the two, or whose byte
/// ranges do not hold whole characters of the source, stands for none.
pub open spec fn entity_of(
    kind: NodeType,
    path: Seq<char>,
    content: Seq<char>,
    m: Seq<CaptureView>,
    outer: Seq<char>,
) -> Option<NodeView> {
    match (find_capture(m, outer), named_text(content, m, "name"@)) {
        (Some(whole), Some(name)) => match capture_text(content, whole) {
            Some(body) => Some(
                NodeView::fresh(kind, name, path).with_body(body).with_lines(
                    row_line(whole.start_row),
                    row_line(whole.end_row),
                ),
            ),
            None => None,
        },
        _ => None,
    }
}

/// The entities that the matches of an entity query stand for, in order.
pub open spec fn entities_of(
    kind: NodeType,
    path: Seq<char>,
    content: Seq<char>,
    ms: Seq<Seq<CaptureView>>,
    outer: Seq<char>,
) -> Seq<NodeView>
    decreases ms.len(),
{
    if ms.len() == 0 {
        Seq::empty()
    } else {
        let before = entities_of(kind, path, content, ms.drop_last(), outer);
        match entity_of(kind, path, content, ms.last(), outer) {
            Some(node) => before.push(node),
            None => before,
        }
    }
}

/// Appends to `nodes` the entities that `matches` stand for.
pub fn push_entities(
    kind: NodeType,
    path: &str,
    content: &str,
    matches: &Vec<Vec<Capture>>,
    outer: &str,
    nodes: &mut Vec<Node>,
)
    ensures
        node_views(final(nodes)@) == node_views(old(nodes)@) + entities_of(
            kind,
            path@,
            content@,
            match_views(matches@),
            outer@,
        ),
{
    let ghost ms = match_views(matches@);
    let ghost start = node_views(nodes@);
    let n = matches.len();
    let mut i: usize = 0;
    assert(node_views(nodes@) =~= start + entities_of(kind, path@, content@, ms.take(0), outer@));
    while i < n
        invariant
            n == matches@.len(),
            i <= n,
            ms == match_views(matches@),
            node_views(nodes@) == start + entities_of(
                kind,
                path@,
                content@,
                ms.take(i as int),
                outer@,
            ),
        decreases n - i,
    {
        proof {
            assert(ms.take(i as int + 1).drop_last() =~= ms.take(i as int));
            assert(ms.take(i as int + 1).last() == match_view(matches@[i as int]));
        }
        let m = &matches[i];
        let ghost before = nodes@;
        match (capture_named(m, outer), text_named(content, m, "name")) {
            (Some(whole), Some(name)) => {
                match slice_text(content, whole.start_byte, whole.end_byte) {
                    Some(body) => {
                        let node = Node::new(kind, name.to_owned(), path.to_owned()).with_body(
                            body.to_owned(),
                        ).with_lines(line_of_row(whole.start_row), line_of_row(whole.end_row));
                        nodes.push(node);
                        assert(node_views(nodes@) =~= node_views(before).push(node@));
                    },
                    None => {},
                }
            },
            _ => {},
        }
        i = i + 1;
    }
    assert(ms.take(n as int) =~= ms);
}

/// The query for function declarations and for variables that are bound to
/// an arrow function or a function expression.
pub const FUNCTIONS_QUERY: &'static str =
    "(function_declaration name: (identifier) @name) @function (lexical_declaration (variable_declarator name: (identifier) @name value: [(arrow_function) (function_expression)])) @function";

/// The query for class declarations.
pub const CLASSES_QUERY: &'static str =
    "(class_declaration name: (type_identifier) @name) @class";

/// The query for interface declarations.
pub const INTERFACES_QUERY: &'static str =
    "(interface_declaration name: (type_identifier) @name) @interface";

/// The query for import statements with a string literal as their source.
pub const IMPORTS_QUERY: &'static str =
    "(import_statement source: (string (string_fragment) @source_path)) @import";

/// The query for calls of an identifier and calls of a member.
pub const CALLS_QUERY: &'static str =
    "(call_expression function: (identifier) @callee) (call_expression function: (member_expression property: (property_identifier) @method_name))";

/// The query for `new` expressions on an identifier or on a member.
pub const CONSTRUCTOR_CALLS_QUERY: &'static str =
    "(new_expression constructor: [(identifier) @class_name (member_expression property: (property_identifier) @nested_class)])";

/// The query for the `extends` and `implements` clauses of classes and the
/// `extends` clauses of interfaces.
pub const HERITAGE_QUERY: &'static str =
    "(class_declaration name: (type_identifier) @class_name (class_heritage (extends_clause value: (identifier) @extends_target))) (class_declaration name: (type_identifier) @class_name_impl (class_heritage (implements_clause (type_identifier) @implements_target))) (interface_declaration name: (type_identifier) @interface_name (extends_type_clause (type_identifier) @interface_extends_target))";

/// Whether `res` is the failure to parse the file `path`.
pub open spec fn parse_failure<T>(res: Result<T, Error>, path: Seq<char>) -> bool {
    res matches Err(Error::Parse(p)) && p@ == path
}

/// The function nodes of a source: what the matches of the function query
/// stand for.
pub open spec fn function_nodes(path: Seq<char>, content: Seq<char>, ms: Seq<Seq<CaptureView>>) -> Seq<
    NodeView,
> {
    entities_of(NodeType::Function, path, content, ms, "function"@)
}

/// Appends to `nodes` one `Function` node for each function of `content`.
/// Fails, and leaves `nodes` as they are, where the grammar gives no tree.
pub fn extract_functions(path: &str, content: &str, nodes: &mut Vec<Node>) -> (res: Result<(), Error>)
    ensures
        match ts_matches(content@, FUNCTIONS_QUERY@) {
            Some(ms) => res is Ok && node_views(final(nodes)@) == node_views(old(nodes)@)
                + function_nodes(path@, content@, ms),
            None => parse_failure(res, path@) && final(nodes)@ == old(nodes)@,
        },
{
    match query_source(content, FUNCTIONS_QUERY) {
        Some(matches) => {
            push_entities(NodeType::Function, path, content, &matches, "function", nodes);
            Ok(())
        },
        None => Err(Error::Parse(path.to_owned())),
    }
}

/// The class nodes of a source: what the matches of the class query stand
/// for.
pub open spec fn class_nodes(path: Seq<char>, content: Seq<char>, ms: Seq<Seq<CaptureView>>) -> Seq<
    NodeView,
> {
    entities_of(NodeType::Class, path, content, ms, "class"@)
}

/// The interface nodes of a source: what the matches of the interface query
/// stand for.
pub open spec fn interface_nodes(
    path: Seq<char>,
    content: Seq<char>,
    ms: Seq<Seq<CaptureView>>,
) -> Seq<NodeView> {
    entities_of(NodeType::Interface, path, content, ms, "interface"@)
}

/// Appends to `nodes` one `Class` node for each class of `content`. Fails,
/// and leaves `nodes` as they are, where the grammar gives no tree.
pub fn extract_classes(path: &str, content: &str, nodes: &mut Vec<Node>) -> (res: Result<(), Error>)
    ensures
        match ts_matches(content@, CLASSES_QUERY@) {
            Some(ms) => res is Ok && node_views(final(nodes)@) == node_views(old(nodes)@)
                + class_nodes(path@, content@, ms),
            None => parse_failure(res, path@) && final(nodes)@ == old(nodes)@,
        },
{
    match query_source(content, CLASSES_QUERY) {
        Some(matches) => {
            push_entities(NodeType::Class, path, content, &matches, "class", nodes);
            Ok(())
        },
        None => Err(Error::Parse(path.to_owned())),
    }
}

/// Appends to `nodes` one `Interface` node for each interface of `content`.
/// Fails, and leaves `nodes` as they are, where the grammar gives no tree.
pub fn extract_interfaces(path: &str, content: &str, nodes: &mut Vec<Node>) -> (res: Result<
    (),
    Error,
>)
    ensures
        match ts_matches(content@, INTERFACES_QUERY@) {
            Some(ms) => res is Ok && node_views(final(nodes)@) == node_views(old(nodes)@)
                + interface_nodes(path@, content@, ms),
            None => parse_failure(res, path@) && final(nodes)@ == old(nodes)@,
        },
{
    match query_source(content, INTERFACES_QUERY) {
        Some(matches) => {
            push_entities(NodeType::Interface, path, content, &matches, "interface", nodes);
            Ok(())
        },
        None => Err(Error::Parse(path.to_owned())),
    }
}

/// The import specifiers of a source, in order: for each match of the
/// import query the text of its capture `source_path`.
pub open spec fn import_sources(content: Seq<char>, ms: Seq<Seq<CaptureView>>) -> Seq<Seq<char>>
    decreases ms.len(),
{
    if ms.len() == 0 {
        Seq::empty()
    } else {
        let before = import_sources(content, ms.drop_last());
        match named_text(content, ms.last(), "source_path"@) {
            Some(source) => before.push(source),
            None => before,
        }
    }
}

/// The import specifiers that `matches` hold.
pub fn import_specifiers(content: &str, matches: &Vec<Vec<Capture>>) -> (sources: Vec<String>)
    ensures
        texts(sources@) == import_sources(content@, match_views(matches@)),
{
    let ghost ms = match_views(matches@);
    let mut sources: Vec<String> = Vec::new();
    let n = matches.len();
    let mut i: usize = 0;
    assert(texts(sources@) =~= import_sources(content@, ms.take(0)));
    while i < n
        invariant
            n == matches@.len(),
            i <= n,
            ms == match_views(matches@),
            texts(sources@) == import_sources(content@, ms.take(i as int)),
        decreases n - i,
    {
        proof {
            assert(ms.take(i as int + 1).drop_last() =~= ms.take(i as int));
            assert(ms.take(i as int + 1).last() == match_view(matches@[i as int]));
        }
        let ghost before = sources@;
        match text_named(content, &matches[i], "source_path") {
            Some(source) => {
                let owned = source.to_owned();
                sources.push(owned);
                assert(texts(sources@) =~= texts(before).push(owned@));
            },
            None => {},
        }
        i = i + 1;
    }
    assert(ms.take(n as int) =~= ms);
    sources
}

/// The name of the node that sums up the imports of a file.
pub open spec fn import_summary_name(count: nat) -> Seq<char> {
    decimal(count as int) + " imports"@
}

/// The node that sums up the imports of a file: none where the file has no
/// import, else one `Import` node named after their number.
pub open spec fn import_summary(path: Seq<char>, count: nat) -> Seq<NodeView> {
    if count == 0 {
        Seq::empty()
    } else {
        seq![NodeView::fresh(NodeType::Import, import_summary_name(count), path)]
    }
}

/// Appends to `nodes` the node that sums up `count` imports of `path`.
pub fn push_import_summary(path: &str, count: usize, nodes: &mut Vec<Node>)
    ensures
        node_views(final(nodes)@) == node_views(old(nodes)@) + import_summary(path@, count as nat),
{
    if count > 0 {
        let mut name = String::new();
        push_digits(&mut name, count as u64);
        name.append(" imports");
        assert(name@ =~= import_summary_name(count as nat));
        let node = Node::new(NodeType::Import, name, path.to_owned());
        nodes.push(node);
        assert(node_views(nodes@) =~= node_views(old(nodes)@) + import_summary(
            path@,
            count as nat,
        ));
    } else {
        assert(node_views(nodes@) =~= node_views(old(nodes)@) + import_summary(
            path@,
            count as nat,
        ));
    }
}

/// Appends to `nodes` the node that sums up the imports of `content`, and
/// returns their specifiers in source order. Fails, and leaves `nodes` as
/// they are, where the grammar gives no tree.
pub fn extract_imports(path: &str, content: &str, nodes: &mut Vec<Node>) -> (res: Result<
    Vec<String>,
    Error,
>)
    ensures
        match ts_matches(content@, IMPORTS_QUERY@) {
            Some(ms) => {
                &&& res matches Ok(sources)
                &&& texts(sources@) == import_sources(content@, ms)
                &&& node_views(final(nodes)@) == node_views(old(nodes)@) + import_summary(
                    path@,
                    import_sources(content@, ms).len(),
                )
            },
            None => parse_failure(res, path@) && final(nodes)@ == old(nodes)@,
        },
{
    match query_source(content, IMPORTS_QUERY) {
        Some(matches) => {
            let sources = import_specifiers(content, &matches);
            assert(texts(sources@).len() == sources@.len());
            push_import_summary(path, sources.len(), nodes);
            Ok(sources)
        },
        None => Err(Error::Parse(path.to_owned())),
    }
}

/// Whether a node has both lines and `line` lies between them, ends
/// included.
pub open spec fn spans_line(node: NodeView, line: int) -> bool {
    match (node.start_line, node.end_line) {
        (Some(start), Some(end)) => start <= line <= end,
        _ => false,
    }
}

/// The function that contains a line: the first of `functions`, in their
/// order, whose lines span it. Of nested functions that is the one that
/// comes first in the list, which need not be the innermost.
pub open spec fn containing_function(line: int, functions: Seq<NodeView>) -> Option<NodeView>
    decreases functions.len(),
{
    if functions.len() == 0 {
        None
    } else if spans_line(functions[0], line) {
        Some(functions[0])
    } else {
        containing_function(line, functions.drop_first())
    }
}

/// The first of `nodes`, in their order, that has the given name.
pub open spec fn first_named(nodes: Seq<NodeView>, name: Seq<char>) -> Option<NodeView>
    decreases nodes.len(),
{
    if nodes.len() == 0 {
        None
    } else if nodes[0].name == name {
        Some(nodes[0])
    } else {
        first_named(nodes.drop_first(), name)
    }
}

/// The first of `functions` whose lines span `line`.
pub fn find_containing_function(line: usize, functions: &[Node]) -> (found: Option<&Node>)
    ensures
        match found {
            Some(f) => containing_function(line as int, node_views(functions@)) == Some(f@),
            None => containing_function(line as int, node_views(functions@)) is None,
        },
{
    let ghost all = node_views(functions@);
    let n = functions.len();
    let mut i: usize = 0;
    assert(all.skip(0) =~= all);
    while i < n
        invariant
            n == functions@.len(),
            i <= n,
            all == node_views(functions@),
            containing_function(line as int, all) == containing_function(
                line as int,
                all.skip(i as int),
            ),
        decreases n - i,
    {
        proof {
            assert(all.skip(i as int).drop_first() =~= all.skip(i as int + 1));
            assert(all.skip(i as int)[0] == functions@[i as int]@);
        }
        let f = &functions[i];
        let inside = match (f.start_line, f.end_line) {
            (Some(start), Some(end)) => start as u64 <= line as u64 && line as u64 <= end as u64,
            _ => false,
        };
        if inside {
            return Some(f);
        }
        i = i + 1;
    }
    None
}

/// The first of `nodes` named `name`.
pub fn find_named<'a>(nodes: &'a [Node], name: &str) -> (found: Option<&'a Node>)
    ensures
        match found {
            Some(f) => first_named(node_views(nodes@), name@) == Some(f@),
            None => first_named(node_views(nodes@), name@) is None,
        },
{
    let ghost all = node_views(nodes@);
    let n = nodes.len();
    let mut i: usize = 0;
    assert(all.skip(0) =~= all);
    while i < n
        invariant
            n == nodes@.len(),
            i <= n,
            all == node_views(nodes@),
            first_named(all, name@) == first_named(all.skip(i as int), name@),
        decreases n - i,
    {
        proof {
            assert(all.skip(i as int).drop_first() =~= all.skip(i as int + 1));
            assert(all.skip(i as int)[0] == nodes@[i as int]@);
        }
        if str_eq(nodes[i].name.as_str(), name) {
            return Some(&nodes[i]);
        }
        i = i + 1;
    }
    None
}

/// The nodes of kind `a` or of kind `b` among `nodes`, in their order.
pub open spec fn of_kinds(nodes: Seq<NodeView>, a: NodeType, b: NodeType) -> Seq<NodeView>
    decreases nodes.len(),
{
    if nodes.len() == 0 {
        Seq::empty()
    } else {
        let before = of_kinds(nodes.drop_last(), a, b);
        if nodes.last().node_type == a || nodes.last().node_type == b {
            before.push(nodes.last())
        } else {
            before
        }
    }
}

/// Copies of the nodes of kind `a` or of kind `b` among `nodes`.
pub fn nodes_of_kinds(nodes: &Vec<Node>, a: NodeType, b: NodeType) -> (chosen: Vec<Node>)
    ensures
        node_views(chosen@) == of_kinds(node_views(nodes@), a, b),
{
    let ghost all = node_views(nodes@);
    let mut chosen: Vec<Node> = Vec::new();
    let n = nodes.len();
    let mut i: usize = 0;
    assert(node_views(chosen@) =~= of_kinds(all.take(0), a, b));
    while i < n
        invariant
            n == nodes@.len(),
            i <= n,
            all == node_views(nodes@),
            node_views(chosen@) == of_kinds(all.take(i as int), a, b),
        decreases n - i,
    {
        proof {
            assert(all.take(i as int + 1).drop_last() =~= all.take(i as int));
            assert(all.take(i as int + 1).last() == nodes@[i as int]@);
        }
        let ghost before = chosen@;
        if nodes[i].node_type == a || nodes[i].node_type == b {
            let copy = nodes[i].duplicate();
            chosen.push(copy);
            assert(node_views(chosen@) =~= node_views(before).push(copy@));
        }
        i = i + 1;
    }
    assert(all.take(n as int) =~= all);
    chosen
}

/// The name that a call site gives to what it calls: the text of the
/// capture `first`, or else that of the capture `second`.
pub open spec fn call_target(
    content: Seq<char>,
    m: Seq<CaptureView>,
    first: Seq<char>,
    second: Seq<char>,
) -> Option<Seq<char>> {
    match named_text(content, m, first) {
        Some(name) => Some(name),
        None => named_text(content, m, second),
    }
}

/// The edge that a call site stands for: from the one of `callers` that
/// contains the row of the match's first capture to the first of `callees`
/// with the called name. A site outside every caller, or one that names no
/// callee, stands for none.
pub open spec fn call_edge_of(
    content: Seq<char>,
    m: Seq<CaptureView>,
    first: Seq<char>,
    second: Seq<char>,
    callers: Seq<NodeView>,
    callees: Seq<NodeView>,
) -> Option<EdgeView> {
    match call_target(content, m, first, second) {
        Some(name) => match (
            containing_function(m[0].start_row as int, callers),
            first_named(callees, name),
        ) {
            (Some(caller), Some(callee)) => Some(
                EdgeView { from_id: caller.id, to_id: callee.id, edge_type: EdgeType::Calls },
            ),
            _ => None,
        },
        None => None,
    }
}

/// The edges that the call sites `ms` stand for, in order.
pub open spec fn call_edges_of(
    content: Seq<char>,
    ms: Seq<Seq<CaptureView>>,
    first: Seq<char>,
    second: Seq<char>,
    callers: Seq<NodeView>,
    callees: Seq<NodeView>,
) -> Seq<EdgeView>
    decreases ms.len(),
{
    if ms.len() == 0 {
        Seq::empty()
    } else {
        let before = call_edges_of(content, ms.drop_last(), first, second, callers, callees);
        match call_edge_of(content, ms.last(), first, second, callers, callees) {
            Some(edge) => before.push(edge),
            None => before,
        }
    }
}

/// The edges that the call sites `matches` stand for.
pub fn call_edges(
    content: &str,
    matches: &Vec<Vec<Capture>>,
    first: &str,
    second: &str,
    callers: &[Node],
    callees: &[Node],
) -> (edges: Vec<Edge>)
    ensures
        edge_views(edges@) == call_edges_of(
            content@,
            match_views(matches@),
            first@,
            second@,
            node_views(callers@),
            node_views(callees@),
        ),
{
    let ghost ms = match_views(matches@);
    let ghost from = node_views(callers@);
    let ghost to = node_views(callees@);
    let mut edges: Vec<Edge> = Vec::new();
    let n = matches.len();
    let mut i: usize = 0;
    assert(edge_views(edges@) =~= call_edges_of(content@, ms.take(0), first@, second@, from, to));
    while i < n
        invariant
            n == matches@.len(),
            i <= n,
            ms == match_views(matches@),
            from == node_views(callers@),
            to == node_views(callees@),
            edge_views(edges@) == call_edges_of(
                content@,
                ms.take(i as int),
                first@,
                second@,
                from,
                to,
            ),
        decreases n - i,
    {
        proof {
            assert(ms.take(i as int + 1).drop_last() =~= ms.take(i as int));
            assert(ms.take(i as int + 1).last() == match_view(matches@[i as int]));
        }
        let m = &matches[i];
        let target = match text_named(content, m, first) {
            Some(name) => Some(name),
            None => text_named(content, m, second),
        };
        let ghost before = edges@;
        match target {
            Some(name) => {
                assert(m@.len() > 0) by {
                    assert(match_view(*m).len() == m@.len());
                }
                assert(match_view(*m)[0] == m@[0]@);
                match (find_containing_function(m[0].start_row, callers), find_named(callees, name)) {
                    (Some(caller), Some(callee)) => {
                        let edge = Edge {
                            from_id: caller.id.clone(),
                            to_id: callee.id.clone(),
                            edge_type: EdgeType::Calls,
                        };
                        edges.push(edge);
                        assert(edge_views(edges@) =~= edge_views(before).push(edge@));
                    },
                    _ => {},
                }
            },
            None => {},
        }
        i = i + 1;
    }
    assert(ms.take(n as int) =~= ms);
    edges
}

/// The `Calls` edges between functions of one source: for each call of an
/// identifier or of a member, from the function that contains the call to
/// the function of that name.
pub open spec fn function_call_edges(
    content: Seq<char>,
    ms: Seq<Seq<CaptureView>>,
    functions: Seq<NodeView>,
) -> Seq<EdgeView> {
    call_edges_of(content, ms, "callee"@, "method_name"@, functions, functions)
}

/// The `Calls` edges from functions to classes of one source: for each
/// `new` expression, from the function that contains it to the class of
/// that name.
pub open spec fn constructor_call_edges(
    content: Seq<char>,
    ms: Seq<Seq<CaptureView>>,
    functions: Seq<NodeView>,
    classes: Seq<NodeView>,
) -> Seq<EdgeView> {
    call_edges_of(content, ms, "class_name"@, "nested_class"@, functions, classes)
}

/// The `Calls` edges between the given functions of `content`. Fails
/// where the grammar gives no tree.
pub fn extract_calls(path: &str, content: &str, functions: &[Node]) -> (res: Result<Vec<Edge>, Error>)
    ensures
        match ts_matches(content@, CALLS_QUERY@) {
            Some(ms) => res matches Ok(edges) && edge_views(edges@) == function_call_edges(
                content@,
                ms,
                node_views(functions@),
            ),
            None => parse_failure(res, path@),
        },
{
    match query_source(content, CALLS_QUERY) {
        Some(matches) => Ok(
            call_edges(content, &matches, "callee", "method_name", functions, functions),
        ),
        None => Err(Error::Parse(path.to_owned())),
    }
}

/// The `Calls` edges from the given functions of `content` to the given
/// classes that they instantiate. Fails where the grammar gives no tree.
pub fn extract_constructor_calls(
    path: &str,
    content: &str,
    functions: &[Node],
    classes: &[Node],
) -> (res: Result<Vec<Edge>, Error>)
    ensures
        match ts_matches(content@, CONSTRUCTOR_CALLS_QUERY@) {
            Some(ms) => res matches Ok(edges) && edge_views(edges@) == constructor_call_edges(
                content@,
                ms,
                node_views(functions@),
                node_views(classes@),
            ),
            None => parse_failure(res, path@),
        },
{
    match query_source(content, CONSTRUCTOR_CALLS_QUERY) {
        Some(matches) => Ok(
            call_edges(content, &matches, "class_name", "nested_class", functions, classes),
        ),
        None => Err(Error::Parse(path.to_owned())),
    }
}

/// The edge that one pair of captures of a heritage match stands for: from
/// the first of `nodes` named by the capture `sub` to the first named by
/// the capture `sup`, where the match has both captures and `nodes` holds
/// both names. `extends` and `implements` alike give an `Implements` edge.
pub open spec fn heritage_edge(
    content: Seq<char>,
    m: Seq<CaptureView>,
    sub: Seq<char>,
    sup: Seq<char>,
    nodes: Seq<NodeView>,
) -> Seq<EdgeView> {
    match (named_text(content, m, sub), named_text(content, m, sup)) {
        (Some(child), Some(parent)) => match (first_named(nodes, child), first_named(nodes, parent)) {
            (Some(from), Some(to)) => seq![
                EdgeView { from_id: from.id, to_id: to.id, edge_type: EdgeType::Implements },
            ],
            _ => Seq::empty(),
        },
        _ => Seq::empty(),
    }
}

/// The edges of one heritage match: that of a class that extends, that of
/// a class that implements, that of an interface that extends.
pub open spec fn heritage_edges_of_match(
    content: Seq<char>,
    m: Seq<CaptureView>,
    nodes: Seq<NodeView>,
) -> Seq<EdgeView> {
    heritage_edge(content, m, "class_name"@, "extends_target"@, nodes) + heritage_edge(
        content,
        m,
        "class_name_impl"@,
        "implements_target"@,
        nodes,
    ) + heritage_edge(content, m, "interface_name"@, "interface_extends_target"@, nodes)
}

/// The `Implements` edges of one source, in the order of the matches.
pub open spec fn heritage_edges_of(
    content: Seq<char>,
    ms: Seq<Seq<CaptureView>>,
    nodes: Seq<NodeView>,
) -> Seq<EdgeView>
    decreases ms.len(),
{
    if ms.len() == 0 {
        Seq::empty()
    } else {
        heritage_edges_of(content, ms.drop_last(), nodes) + heritage_edges_of_match(
            content,
            ms.last(),
            nodes,
        )
    }
}

fn push_heritage_edge(
    content: &str,
    m: &Vec<Capture>,
    sub: &str,
    sup: &str,
    nodes: &[Node],
    edges: &mut Vec<Edge>,
)
    ensures
        edge_views(final(edges)@) == edge_views(old(edges)@) + heritage_edge(
            content@,
            match_view(*m),
            sub@,
            sup@,
            node_views(nodes@),
        ),
{
    let ghost before = edges@;
    let ghost wanted = edge_views(before) + heritage_edge(
        content@,
        match_view(*m),
        sub@,
        sup@,
        node_views(nodes@),
    );
    match (text_named(content, m, sub), text_named(content, m, sup)) {
        (Some(child), Some(parent)) => {
            match (find_named(nodes, child), find_named(nodes, parent)) {
                (Some(from), Some(to)) => {
                    let edge = Edge {
                        from_id: from.id.clone(),
                        to_id: to.id.clone(),
                        edge_type: EdgeType::Implements,
                    };
                    edges.push(edge);
                    assert(edge_views(edges@) =~= wanted);
                },
                _ => {
                    assert(edge_views(edges@) =~= wanted);
                },
            }
        },
        _ => {
            assert(edge_views(edges@) =~= wanted);
        },
    }
}

/// The `Implements` edges that the heritage matches stand for among the
/// given classes and interfaces.
pub fn heritage_edges(content: &str, matches: &Vec<Vec<Capture>>, nodes: &[Node]) -> (edges: Vec<
    Edge,
>)
    ensures
        edge_views(edges@) == heritage_edges_of(
            content@,
            match_views(matches@),
            node_views(nodes@),
        ),
{
    let ghost ms = match_views(matches@);
    let ghost among = node_views(nodes@);
    let mut edges: Vec<Edge> = Vec::new();
    let n = matches.len();
    let mut i: usize = 0;
    assert(edge_views(edges@) =~= heritage_edges_of(content@, ms.take(0), among));
    while i < n
        invariant
            n == matches@.len(),
            i <= n,
            ms == match_views(matches@),
            among == node_views(nodes@),
            edge_views(edges@) == heritage_edges_of(content@, ms.take(i as int), among),
        decreases n - i,
    {
        proof {
            assert(ms.take(i as int + 1).drop_last() =~= ms.take(i as int));
            assert(ms.take(i as int + 1).last() == match_view(matches@[i as int]));
        }
        let m = &matches[i];
        let ghost before = edge_views(edges@);
        push_heritage_edge(content, m, "class_name", "extends_target", nodes, &mut edges);
        push_heritage_edge(content, m, "class_name_impl", "implements_target", nodes, &mut edges);
        push_heritage_edge(
            content,
            m,
            "interface_name",
            "interface_extends_target",
            nodes,
            &mut edges,
        );
        assert(edge_views(edges@) =~= before + heritage_edges_of_match(
            content@,
            match_view(*m),
            among,
        ));
        i = i + 1;
    }
    assert(ms.take(n as int) =~= ms);
    edges
}

/// The `Implements` edges among the given classes and interfaces of
/// `content`. Fails where the grammar gives no tree.
pub fn extract_extends_implements(
    path: &str,
    content: &str,
    classes_and_interfaces: &[Node],
) -> (res: Result<Vec<Edge>, Error>)
    ensures
        match ts_matches(content@, HERITAGE_QUERY@) {
            Some(ms) => res matches Ok(edges) && edge_views(edges@) == heritage_edges_of(
                content@,
                ms,
                node_views(classes_and_interfaces@),
            ),
            None => parse_failure(res, path@),
        },
{
    match query_source(content, HERITAGE_QUERY) {
        Some(matches) => Ok(heritage_edges(content, &matches, classes_and_interfaces)),
        None => Err(Error::Parse(path.to_owned())),
    }
}

/// What the parser extracts from one file.
#[derive(Debug)]
pub struct ParsedFile {
    /// The functions, classes and interfaces of the file, in this order of
    /// kinds, and after them the node that sums up its imports.
    pub nodes: Vec<Node>,
    /// The edges between nodes of the file: calls, constructor calls,
    /// extends and implements, in this order.
    pub edges: Vec<Edge>,
    /// The pairs (importing file, imported file) of the imports that were
    /// found on disk. The parser leaves the list empty: it is filled once
    /// the specifiers have been looked up.
    pub import_edges: Vec<(String, String)>,
    /// The specifiers of the file's imports, in source order.
    pub import_specifiers: Vec<String>,
}

/// What a parsed file holds, as mathematical values.
pub struct ParsedView {
    pub nodes: Seq<NodeView>,
    pub edges: Seq<EdgeView>,
    pub import_edges: Seq<(Seq<char>, Seq<char>)>,
    pub import_specifiers: Seq<Seq<char>>,
}

/// The texts of a list of pairs of strings, in order.
pub open spec fn pair_views(pairs: Seq<(String, String)>) -> Seq<(Seq<char>, Seq<char>)> {
    pairs.map_values(|p: (String, String)| (p.0@, p.1@))
}

impl View for ParsedFile {
    type V = ParsedView;

    open spec fn view(&self) -> ParsedView {
        ParsedView {
            nodes: node_views(self.nodes@),
            edges: edge_views(self.edges@),
            import_edges: pair_views(self.import_edges@),
            import_specifiers: texts(self.import_specifiers@),
        }
    }
}

/// The nodes of a file, from the matches of the four entity queries.
pub open spec fn parsed_nodes(
    path: Seq<char>,
    content: Seq<char>,
    functions: Seq<Seq<CaptureView>>,
    classes: Seq<Seq<CaptureView>>,
    interfaces: Seq<Seq<CaptureView>>,
    imports: Seq<Seq<CaptureView>>,
) -> Seq<NodeView> {
    function_nodes(path, content, functions) + class_nodes(path, content, classes)
        + interface_nodes(path, content, interfaces) + import_summary(
        path,
        import_sources(content, imports).len(),
    )
}

/// The edges of a file, from its nodes and the matches of the three
/// relation queries.
pub open spec fn parsed_edges(
    content: Seq<char>,
    nodes: Seq<NodeView>,
    calls: Seq<Seq<CaptureView>>,
    constructions: Seq<Seq<CaptureView>>,
    heritage: Seq<Seq<CaptureView>>,
) -> Seq<EdgeView> {
    let functions = of_kinds(nodes, NodeType::Function, NodeType::Function);
    let classes = of_kinds(nodes, NodeType::Class, NodeType::Class);
    let types = of_kinds(nodes, NodeType::Class, NodeType::Interface);
    function_call_edges(content, calls, functions) + constructor_call_edges(
        content,
        constructions,
        functions,
        classes,
    ) + heritage_edges_of(content, heritage, types)
}

/// What parsing the file `path` with the text `content` gives: nothing
/// where the grammar gives no tree, else the nodes, edges and import
/// specifiers that the matches of the seven queries stand for.
pub open spec fn parse_of(path: Seq<char>, content: Seq<char>) -> Option<ParsedView> {
    match (
        ts_matches(content, FUNCTIONS_QUERY@),
        ts_matches(content, CLASSES_QUERY@),
        ts_matches(content, INTERFACES_QUERY@),
        ts_matches(content, IMPORTS_QUERY@),
        ts_matches(content, CALLS_QUERY@),
        ts_matches(content, CONSTRUCTOR_CALLS_QUERY@),
        ts_matches(content, HERITAGE_QUERY@),
    ) {
        (
            Some(functions),
            Some(classes),
            Some(interfaces),
            Some(imports),
            Some(calls),
            Some(constructions),
            Some(heritage),
        ) => {
            let nodes = parsed_nodes(path, content, functions, classes, interfaces, imports);
            Some(
                ParsedView {
                    nodes: nodes,
                    edges: parsed_edges(content, nodes, calls, constructions, heritage),
                    import_edges: Seq::empty(),
                    import_specifiers: import_sources(content, imports),
                },
            )
        },
        _ => None,
    }
}

/// Parses one TypeScript file and extracts its nodes, its edges and the
/// specifiers of its imports. Fails with the file's path where the grammar
/// gives no tree.
pub fn parse_typescript_file(path: &str, content: &str) -> (res: Result<ParsedFile, Error>)
    ensures
        match parse_of(path@, content@) {
            Some(parsed) => res matches Ok(file) && file@ == parsed,
            None => parse_failure(res, path@),
        },
{
    let mut nodes: Vec<Node> = Vec::new();
    assert(node_views(nodes@) =~= Seq::<NodeView>::empty());
    match extract_functions(path, content, &mut nodes) {
        Ok(_) => {},
        Err(e) => {
            return Err(e);
        },
    }
    match extract_classes(path, content, &mut nodes) {
        Ok(_) => {},
        Err(e) => {
            return Err(e);
        },
    }
    match extract_interfaces(path, content, &mut nodes) {
        Ok(_) => {},
        Err(e) => {
            return Err(e);
        },
    }
    let import_specifiers = match extract_imports(path, content, &mut nodes) {
        Ok(sources) => sources,
        Err(e) => {
            return Err(e);
        },
    };
    let functions = nodes_of_kinds(&nodes, NodeType::Function, NodeType::Function);
    let mut edges = match extract_calls(path, content, functions.as_slice()) {
        Ok(edges) => edges,
        Err(e) => {
            return Err(e);
        },
    };
    let classes = nodes_of_kinds(&nodes, NodeType::Class, NodeType::Class);
    let mut constructions = match extract_constructor_calls(
        path,
        content,
        functions.as_slice(),
        classes.as_slice(),
    ) {
        Ok(edges) => edges,
        Err(e) => {
            return Err(e);
        },
    };
    let types = nodes_of_kinds(&nodes, NodeType::Class, NodeType::Interface);
    let mut heritage = match extract_extends_implements(path, content, types.as_slice()) {
        Ok(edges) => edges,
        Err(e) => {
            return Err(e);
        },
    };
    let ghost calls = edge_views(edges@);
    let ghost news = edge_views(constructions@);
    let ghost supers = edge_views(heritage@);
    edges.append(&mut constructions);
    edges.append(&mut heritage);
    assert(edge_views(edges@) =~= calls + news + supers);
    let import_edges: Vec<(String, String)> = Vec::new();
    assert(pair_views(import_edges@) =~= Seq::<(Seq<char>, Seq<char>)>::empty());
    Ok(ParsedFile { nodes, edges, import_edges, import_specifiers })
}

/// Every entity that an entity query gives lies in the parsed file, is of
/// the query's kind and carries the id that belongs to its kind, name,
/// file and lines.
pub proof fn lemma_entities_belong_to_file(
    kind: NodeType,
    path: Seq<char>,
    content: Seq<char>,
    ms: Seq<Seq<CaptureView>>,
    outer: Seq<char>,
)
    ensures
        forall|i: int|
            0 <= i < entities_of(kind, path, content, ms, outer).len() ==> {
                let node = #[trigger] entities_of(kind, path, content, ms, outer)[i];
                &&& node.file == path
                &&& node.node_type == kind
                &&& node.has_derived_id()
                &&& node.start_line is Some
                &&& node.end_line is Some
            },
    decreases ms.len(),
{
    if ms.len() > 0 {
        lemma_entities_belong_to_file(kind, path, content, ms.drop_last(), outer);
    }
}

/// Every node of a parsed file lies in that file and carries the id that
/// belongs to its kind, name, file and lines.
pub proof fn lemma_parsed_nodes_belong_to_file(path: Seq<char>, content: Seq<char>)
    requires
        parse_of(path, content) is Some,
    ensures
        forall|i: int|
            0 <= i < parse_of(path, content)->0.nodes.len() ==> {
                let node = #[trigger] parse_of(path, content)->0.nodes[i];
                node.file == path && node.has_derived_id()
            },
{
    let functions = ts_matches(content, FUNCTIONS_QUERY@)->0;
    let classes = ts_matches(content, CLASSES_QUERY@)->0;
    let interfaces = ts_matches(content, INTERFACES_QUERY@)->0;
    let imports = ts_matches(content, IMPORTS_QUERY@)->0;
    lemma_entities_belong_to_file(NodeType::Function, path, content, functions, "function"@);
    lemma_entities_belong_to_file(NodeType::Class, path, content, classes, "class"@);
    lemma_entities_belong_to_file(NodeType::Interface, path, content, interfaces, "interface"@);
    let f = function_nodes(path, content, functions);
    let c = class_nodes(path, content, classes);
    let i = interface_nodes(path, content, interfaces);
    let s = import_summary(path, import_sources(content, imports).len());
    let nodes = parse_of(path, content)->0.nodes;
    assert(nodes == f + c + i + s);
    assert forall|k: int| 0 <= k < nodes.len() implies {
        let node = #[trigger] nodes[k];
        node.file == path && node.has_derived_id()
    } by {
        if k < f.len() {
            assert(nodes[k] == f[k]);
        } else if k < f.len() + c.len() {
            assert(nodes[k] == c[k - f.len()]);
        } else if k < f.len() + c.len() + i.len() {
            assert(nodes[k] == i[k - f.len() - c.len()]);
        } else {
            assert(nodes[k] == s[k - f.len() - c.len() - i.len()]);
        }
    }
}

/// Parsing is a function of the path and the text: two results for the
/// same file with the same text hold the same nodes, with the same ids in
/// the same order, and the same edges.
pub proof fn lemma_reparse_gives_same_ids(
    path: Seq<char>,
    content: Seq<char>,
    first: ParsedView,
    second: ParsedView,
)
    requires
        parse_of(path, content) == Some(first),
        parse_of(path, content) == Some(second),
    ensures
        first.nodes.len() == second.nodes.len(),
        forall|i: int| 0 <= i < first.nodes.len() ==> first.nodes[i].id == second.nodes[i].id,
        first.edges == second.edges,
{
}

} // verus!
