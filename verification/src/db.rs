//! The statements that are sent to the graph store, and the decoding of the
//! rows that it answers with.
//!
//! The store holds a node table `Node(id, node_type, name, file, body,
//! start_line, end_line)`, a node table `Metadata(key, value)` and a
//! relationship table `Edge(FROM Node TO Node, edge_type)`. Every string that
//! is written into a statement is escaped first.

use vstd::prelude::*;
use vstd::string::*;
use crate::model::{Edge, EdgeType, EdgeView, Node, NodeType, NodeView};
use crate::text::{decimal, push_char, push_decimal, texts};

verus! {

/// What one character becomes inside a quoted string of a statement.
pub open spec fn escape_char(c: char) -> Seq<char> {
    if c == '\\' {
        seq!['\\', '\\']
    } else if c == '\'' {
        seq!['\\', '\'']
    } else if c == '"' {
        seq!['\\', '"']
    } else if c == '\n' {
        seq!['\\', 'n']
    } else if c == '\r' {
        seq!['\\', 'r']
    } else if c == '\t' {
        seq!['\\', 't']
    } else {
        seq![c]
    }
}

/// A text with every character escaped, in order.
pub open spec fn escape_text(s: Seq<char>) -> Seq<char>
    decreases s.len(),
{
    if s.len() == 0 {
        Seq::empty()
    } else {
        escape_text(s.drop_last()) + escape_char(s.last())
    }
}

/// Escapes a string for a quoted position of a statement: a backslash goes
/// before each backslash, single quote and double quote, and a newline, a
/// carriage return and a tab become `\n`, `\r` and `\t`.
pub fn escape_kuzu_string(s: &str) -> (out: String)
    ensures
        out@ == escape_text(s@),
{
    let mut out = String::new();
    for c in iter: s.chars()
        invariant
            iter.seq() == s@,
            out@ == escape_text(s@.take(iter.index() as int)),
    {
        proof {
            let k = iter.index() as int;
            assert(s@.take(k + 1).drop_last() =~= s@.take(k));
            assert(s@.take(k + 1).last() == c);
        }
        let ghost before = out@;
        if c == '\\' {
            push_char(&mut out, '\\');
            push_char(&mut out, '\\');
        } else if c == '\'' {
            push_char(&mut out, '\\');
            push_char(&mut out, '\'');
        } else if c == '"' {
            push_char(&mut out, '\\');
            push_char(&mut out, '"');
        } else if c == '\n' {
            push_char(&mut out, '\\');
            push_char(&mut out, 'n');
        } else if c == '\r' {
            push_char(&mut out, '\\');
            push_char(&mut out, 'r');
        } else if c == '\t' {
            push_char(&mut out, '\\');
            push_char(&mut out, 't');
        } else {
            push_char(&mut out, c);
        }
        assert(out@ =~= before + escape_char(c));
    }
    assert(s@.take(s@.len() as int) =~= s@);
    out
}

/// The number under which a line is stored: the line itself, read as a
/// signed 32-bit value, or -1 where the node has none.
pub open spec fn wire_line(line: Option<u32>) -> int {
    match line {
        Some(l) => if l <= i32::MAX {
            l as int
        } else {
            l - 0x1_0000_0000
        },
        None => -1,
    }
}

/// The line that a stored number stands for: none where it is negative.
pub open spec fn line_of_wire(n: int) -> Option<u32> {
    if 0 <= n <= i32::MAX {
        Some(n as u32)
    } else {
        None
    }
}

fn line_on_wire(line: Option<u32>) -> (n: i32)
    ensures
        n == wire_line(line),
{
    match line {
        Some(l) => {
            if l <= 0x7fff_ffff {
                l as i32
            } else {
                let below: u32 = l - 0x8000_0000;
                let n: i32 = (below as i32) - 0x4000_0000 - 0x4000_0000;
                n
            }
        },
        None => -1,
    }
}

/// The query that succeeds exactly where the node table exists.
pub open spec fn schema_probe_text() -> Seq<char> {
    "MATCH (n:Node) RETURN count(n) LIMIT 1"@
}

pub open spec fn create_node_table_text() -> Seq<char> {
    "CREATE NODE TABLE Node(id STRING, node_type STRING, name STRING, file STRING, body STRING, start_line INT32, end_line INT32, PRIMARY KEY(id))"@
}

pub open spec fn create_metadata_table_text() -> Seq<char> {
    "CREATE NODE TABLE Metadata(key STRING, value STRING, PRIMARY KEY(key))"@
}

pub open spec fn create_edge_table_text() -> Seq<char> {
    "CREATE REL TABLE Edge(FROM Node TO Node, edge_type STRING)"@
}

pub open spec fn schema_version_text(version: int) -> Seq<char> {
    "CREATE (m:Metadata {key: 'schema_version', value: '"@ + decimal(version) + "'})"@
}

pub open spec fn insert_node_text(node: NodeView) -> Seq<char> {
    "CREATE (n:Node {id: '"@ + escape_text(node.id) + "', node_type: '"@ + node.node_type.name()
        + "', name: '"@ + escape_text(node.name) + "', file: '"@ + escape_text(node.file)
        + "', body: '"@ + escape_text(node.body) + "', start_line: "@ + decimal(
        wire_line(node.start_line),
    ) + ", end_line: "@ + decimal(wire_line(node.end_line)) + "})"@
}

pub open spec fn insert_edge_text(edge: EdgeView) -> Seq<char> {
    "MATCH (a:Node {id: '"@ + escape_text(edge.from_id) + "'}), (b:Node {id: '"@ + escape_text(
        edge.to_id,
    ) + "'}) CREATE (a)-[e:Edge {edge_type: '"@ + edge.edge_type.name() + "'}]->(b)"@
}

pub open spec fn count_nodes_text(kind: NodeType) -> Seq<char> {
    "MATCH (n:Node {node_type: '"@ + kind.name() + "'}) RETURN count(n) as count"@
}

pub open spec fn count_edges_text(kind: EdgeType) -> Seq<char> {
    "MATCH ()-[e:Edge {edge_type: '"@ + kind.name() + "'}]->() RETURN count(e) as count"@
}

pub open spec fn find_nodes_text(kind: NodeType) -> Seq<char> {
    "MATCH (n:Node {node_type: '"@ + kind.name()
        + "'}) RETURN n.id, n.node_type, n.name, n.file, n.body, n.start_line, n.end_line"@
}

pub open spec fn clear_text() -> Seq<char> {
    "MATCH (n:Node) DETACH DELETE n"@
}

/// The first step of the cascade: it deletes what the node `file_id`
/// reaches over an outgoing `Contains` edge, and over no other kind of edge.
pub open spec fn delete_symbols_text(file_id: Seq<char>) -> Seq<char> {
    "MATCH (f:Node {id: '"@ + escape_text(file_id)
        + "'})-[e:Edge {edge_type: 'Contains'}]->(s:Node) DETACH DELETE s"@
}

/// The second step of the cascade: it deletes the node `file_id` itself.
pub open spec fn delete_file_text(file_id: Seq<char>) -> Seq<char> {
    "MATCH (f:Node {id: '"@ + escape_text(file_id) + "'}) DETACH DELETE f"@
}

pub open spec fn get_metadata_text(key: Seq<char>) -> Seq<char> {
    "MATCH (m:Metadata {key: '"@ + escape_text(key) + "'}) RETURN m.value"@
}

pub open spec fn set_metadata_text(key: Seq<char>, value: Seq<char>) -> Seq<char> {
    "MERGE (m:Metadata {key: '"@ + escape_text(key) + "'}) SET m.value = '"@ + escape_text(value)
        + "'"@
}

/// The sentinel query of the schema check.
pub fn schema_probe_statement() -> (q: &'static str)
    ensures
        q@ == schema_probe_text(),
{
    "MATCH (n:Node) RETURN count(n) LIMIT 1"
}

/// The three statements that create the schema, in the order in which they
/// are to be run: the node table, the metadata table, the edge table.
pub fn create_schema_statements() -> (qs: Vec<String>)
    ensures
        qs@.len() == 3,
        qs@[0]@ == create_node_table_text(),
        qs@[1]@ == create_metadata_table_text(),
        qs@[2]@ == create_edge_table_text(),
{
    let mut qs: Vec<String> = Vec::new();
    qs.push(
        "CREATE NODE TABLE Node(id STRING, node_type STRING, name STRING, file STRING, body STRING, start_line INT32, end_line INT32, PRIMARY KEY(id))".to_owned(),
    );
    qs.push(
        "CREATE NODE TABLE Metadata(key STRING, value STRING, PRIMARY KEY(key))".to_owned(),
    );
    qs.push("CREATE REL TABLE Edge(FROM Node TO Node, edge_type STRING)".to_owned());
    qs
}

/// The statement that records the schema version in the metadata table.
pub fn schema_version_statement(version: i32) -> (q: String)
    ensures
        q@ == schema_version_text(version as int),
{
    let mut q = String::new();
    q.append("CREATE (m:Metadata {key: 'schema_version', value: '");
    push_decimal(&mut q, version as i64);
    q.append("'})");
    assert(q@ =~= schema_version_text(version as int));
    q
}

/// The statements that make sure the schema is there: none where the
/// sentinel query succeeded; where it failed, those that create the three
/// tables and the one that records version 1 of the schema.
pub open spec fn schema_setup_texts(schema_exists: bool) -> Seq<Seq<char>> {
    if schema_exists {
        Seq::empty()
    } else {
        seq![
            create_node_table_text(),
            create_metadata_table_text(),
            create_edge_table_text(),
            schema_version_text(1),
        ]
    }
}

/// The statements to run when the store is opened, in order.
/// `schema_exists` tells whether the sentinel query succeeded.
pub fn initialize_schema_statements(schema_exists: bool) -> (qs: Vec<String>)
    ensures
        texts(qs@) == schema_setup_texts(schema_exists),
{
    if schema_exists {
        let qs: Vec<String> = Vec::new();
        assert(texts(qs@) =~= schema_setup_texts(schema_exists));
        qs
    } else {
        let mut qs = create_schema_statements();
        assert(qs@.len() == 3);
        qs.push(schema_version_statement(1));
        assert(texts(qs@) =~= schema_setup_texts(schema_exists));
        qs
    }
}

/// The statement that creates one row of the node table.
pub fn insert_node_statement(node: &Node) -> (q: String)
    ensures
        q@ == insert_node_text(node@),
{
    let id = escape_kuzu_string(node.id.as_str());
    let name = escape_kuzu_string(node.name.as_str());
    let file = escape_kuzu_string(node.file.as_str());
    let body = escape_kuzu_string(node.body.as_str());
    let mut q = String::new();
    q.append("CREATE (n:Node {id: '");
    q.append(id.as_str());
    q.append("', node_type: '");
    q.append(node.node_type.as_str());
    q.append("', name: '");
    q.append(name.as_str());
    q.append("', file: '");
    q.append(file.as_str());
    q.append("', body: '");
    q.append(body.as_str());
    q.append("', start_line: ");
    push_decimal(&mut q, line_on_wire(node.start_line) as i64);
    q.append(", end_line: ");
    push_decimal(&mut q, line_on_wire(node.end_line) as i64);
    q.append("})");
    assert(q@ =~= insert_node_text(node@));
    q
}

/// The statement that creates one edge between two nodes that exist. Where
/// one of them does not, the statement matches nothing and creates nothing.
pub fn insert_edge_statement(edge: &Edge) -> (q: String)
    ensures
        q@ == insert_edge_text(edge@),
{
    let from = escape_kuzu_string(edge.from_id.as_str());
    let to = escape_kuzu_string(edge.to_id.as_str());
    let mut q = String::new();
    q.append("MATCH (a:Node {id: '");
    q.append(from.as_str());
    q.append("'}), (b:Node {id: '");
    q.append(to.as_str());
    q.append("'}) CREATE (a)-[e:Edge {edge_type: '");
    q.append(edge.edge_type.as_str());
    q.append("'}]->(b)");
    assert(q@ =~= insert_edge_text(edge@));
    q
}

/// The query that counts the nodes of one kind.
pub fn count_nodes_statement(node_type: &NodeType) -> (q: String)
    ensures
        q@ == count_nodes_text(*node_type),
{
    let mut q = String::new();
    q.append("MATCH (n:Node {node_type: '");
    q.append(node_type.as_str());
    q.append("'}) RETURN count(n) as count");
    assert(q@ =~= count_nodes_text(*node_type));
    q
}

/// The query that counts the edges of one kind.
pub fn count_edges_statement(edge_type: &EdgeType) -> (q: String)
    ensures
        q@ == count_edges_text(*edge_type),
{
    let mut q = String::new();
    q.append("MATCH ()-[e:Edge {edge_type: '");
    q.append(edge_type.as_str());
    q.append("'}]->() RETURN count(e) as count");
    assert(q@ =~= count_edges_text(*edge_type));
    q
}

/// The query that fetches the nodes of one kind, seven columns a row.
pub fn find_nodes_statement(node_type: &NodeType) -> (q: String)
    ensures
        q@ == find_nodes_text(*node_type),
{
    let mut q = String::new();
    q.append("MATCH (n:Node {node_type: '");
    q.append(node_type.as_str());
    q.append("'}) RETURN n.id, n.node_type, n.name, n.file, n.body, n.start_line, n.end_line");
    assert(q@ =~= find_nodes_text(*node_type));
    q
}

/// The statement that deletes every node with its edges.
pub fn clear_statement() -> (q: &'static str)
    ensures
        q@ == clear_text(),
{
    "MATCH (n:Node) DETACH DELETE n"
}

/// The two statements of the cascade that deletes a file and what it
/// contains, in the order in which they are to be run: first the nodes that
/// `file_id` reaches over a `Contains` edge, then the node itself.
pub fn delete_file_and_symbols_statements(file_id: &str) -> (qs: (String, String))
    ensures
        qs.0@ == delete_symbols_text(file_id@),
        qs.1@ == delete_file_text(file_id@),
{
    let id = escape_kuzu_string(file_id);
    let mut first = String::new();
    first.append("MATCH (f:Node {id: '");
    first.append(id.as_str());
    first.append("'})-[e:Edge {edge_type: 'Contains'}]->(s:Node) DETACH DELETE s");
    assert(first@ =~= delete_symbols_text(file_id@));
    let mut second = String::new();
    second.append("MATCH (f:Node {id: '");
    second.append(id.as_str());
    second.append("'}) DETACH DELETE f");
    assert(second@ =~= delete_file_text(file_id@));
    (first, second)
}

/// The query that fetches the value under one metadata key.
pub fn get_metadata_statement(key: &str) -> (q: String)
    ensures
        q@ == get_metadata_text(key@),
{
    let k = escape_kuzu_string(key);
    let mut q = String::new();
    q.append("MATCH (m:Metadata {key: '");
    q.append(k.as_str());
    q.append("'}) RETURN m.value");
    assert(q@ =~= get_metadata_text(key@));
    q
}

/// The statement that puts a value under one metadata key, whether or not
/// the key had one.
pub fn set_metadata_statement(key: &str, value: &str) -> (q: String)
    ensures
        q@ == set_metadata_text(key@, value@),
{
    let k = escape_kuzu_string(key);
    let v = escape_kuzu_string(value);
    let mut q = String::new();
    q.append("MERGE (m:Metadata {key: '");
    q.append(k.as_str());
    q.append("'}) SET m.value = '");
    q.append(v.as_str());
    q.append("'");
    assert(q@ =~= set_metadata_text(key@, value@));
    q
}

/// One cell of a row that the store answers with. Of the store's value
/// types it tells apart those that the library reads.
#[derive(Debug, Clone, PartialEq)]
pub enum Value {
    Null,
    Int32(i32),
    Int64(i64),
    String(String),
    /// A value of any other type.
    Other,
}

/// The text in column `i` of a row: empty where the row has no such column
/// or the column holds no string.
pub open spec fn cell_text(row: Seq<Value>, i: int) -> Seq<char> {
    if 0 <= i < row.len() {
        match row[i] {
            Value::String(s) => s@,
            _ => Seq::empty(),
        }
    } else {
        Seq::empty()
    }
}

/// The line in column `i` of a row: none where the row has no such column,
/// the column holds no 32-bit integer, or the integer is negative.
pub open spec fn cell_line(row: Seq<Value>, i: int) -> Option<u32> {
    if 0 <= i < row.len() {
        match row[i] {
            Value::Int32(n) => line_of_wire(n as int),
            _ => None,
        }
    } else {
        None
    }
}

/// The node that a row of seven columns (id, kind, name, file, body, start
/// line, end line) stands for, its kind being given. The row's own kind
/// column is not read. The node has no attributes.
pub open spec fn node_of_row(row: Seq<Value>, kind: NodeType) -> NodeView {
    NodeView {
        id: cell_text(row, 0),
        node_type: kind,
        name: cell_text(row, 2),
        file: cell_text(row, 3),
        body: cell_text(row, 4),
        start_line: cell_line(row, 5),
        end_line: cell_line(row, 6),
        meta: Map::empty(),
    }
}

/// The count that the rows of a count query hold: the 64-bit integer in the
/// first column of the first row that has one there, or 0 where no row has
/// one. A negative integer counts as 0, one beyond `usize` as its maximum.
pub open spec fn count_of_rows(rows: Seq<Vec<Value>>) -> int
    decreases rows.len(),
{
    if rows.len() == 0 {
        0
    } else if rows[0]@.len() > 0 && rows[0]@[0] is Int64 {
        let n = rows[0]@[0]->Int64_0;
        if n < 0 {
            0
        } else if n > usize::MAX {
            usize::MAX as int
        } else {
            n as int
        }
    } else {
        count_of_rows(rows.drop_first())
    }
}

/// The value that the rows of a metadata query hold: the string in the
/// first column of the first row, where there is a row and it has one.
pub open spec fn metadata_of_rows(rows: Seq<Vec<Value>>) -> Option<Seq<char>> {
    if rows.len() > 0 && rows[0]@.len() > 0 && rows[0]@[0] is String {
        Some(rows[0]@[0]->String_0@)
    } else {
        None
    }
}

/// The text in column `i` of `row`.
pub fn text_at(row: &[Value], i: usize) -> (text: String)
    ensures
        text@ == cell_text(row@, i as int),
{
    if i < row.len() {
        match &row[i] {
            Value::String(s) => s.clone(),
            _ => String::new(),
        }
    } else {
        String::new()
    }
}

/// The line in column `i` of `row`.
pub fn line_at(row: &[Value], i: usize) -> (line: Option<u32>)
    ensures
        line == cell_line(row@, i as int),
{
    if i < row.len() {
        match &row[i] {
            Value::Int32(n) => if *n >= 0 {
                Some(*n as u32)
            } else {
                None
            },
            _ => None,
        }
    } else {
        None
    }
}

/// Decodes one row of a fetch of nodes of the kind `node_type`.
pub fn node_from_row(row: &[Value], node_type: NodeType) -> (node: Node)
    ensures
        node@ == node_of_row(row@, node_type),
{
    Node {
        id: text_at(row, 0),
        node_type,
        name: text_at(row, 2),
        file: text_at(row, 3),
        body: text_at(row, 4),
        start_line: line_at(row, 5),
        end_line: line_at(row, 6),
        meta: Vec::new(),
    }
}

/// Decodes the rows of a fetch of nodes of the kind `node_type`, in order.
pub fn nodes_from_rows(rows: &Vec<Vec<Value>>, node_type: &NodeType) -> (nodes: Vec<Node>)
    ensures
        nodes@.len() == rows@.len(),
        forall|i: int|
            0 <= i < rows@.len() ==> (#[trigger] nodes@[i])@ == node_of_row(rows@[i]@, *node_type),
{
    let mut nodes: Vec<Node> = Vec::new();
    let n = rows.len();
    let mut i: usize = 0;
    while i < n
        invariant
            n == rows@.len(),
            i <= n,
            nodes@.len() == i,
            forall|j: int|
                0 <= j < i ==> (#[trigger] nodes@[j])@ == node_of_row(rows@[j]@, *node_type),
        decreases n - i,
    {
        nodes.push(node_from_row(rows[i].as_slice(), *node_type));
        i = i + 1;
    }
    nodes
}

/// Reads the answer to a count query.
pub fn count_from_rows(rows: &Vec<Vec<Value>>) -> (count: usize)
    ensures
        count == count_of_rows(rows@),
{
    let n = rows.len();
    let mut i: usize = 0;
    assert(rows@.skip(0) =~= rows@);
    while i < n
        invariant
            n == rows@.len(),
            i <= n,
            count_of_rows(rows@) == count_of_rows(rows@.skip(i as int)),
        decreases n - i,
    {
        proof {
            assert(rows@.skip(i as int).drop_first() =~= rows@.skip(i as int + 1));
        }
        if rows[i].len() > 0 {
            match &rows[i][0] {
                Value::Int64(c) => {
                    if *c < 0 {
                        return 0;
                    } else if *c as u64 > usize::MAX as u64 {
                        return usize::MAX;
                    } else {
                        return *c as usize;
                    }
                },
                _ => {},
            }
        }
        i = i + 1;
    }
    0
}

/// Reads the answer to a metadata query.
pub fn metadata_from_rows(rows: &Vec<Vec<Value>>) -> (value: Option<String>)
    ensures
        match value {
            Some(v) => metadata_of_rows(rows@) == Some(v@),
            None => metadata_of_rows(rows@) is None,
        },
{
    if rows.len() > 0 && rows[0].len() > 0 {
        match &rows[0][0] {
            Value::String(s) => Some(s.clone()),
            _ => None,
        }
    } else {
        None
    }
}

/// What the character after a backslash stands for in an escaped text.
pub open spec fn unescape_char(c: char) -> char {
    if c == 'n' {
        '\n'
    } else if c == 'r' {
        '\r'
    } else if c == 't' {
        '\t'
    } else {
        c
    }
}

/// The text that an escaped text stands for: a backslash and the character
/// after it stand for one character, every other character for itself.
pub open spec fn unescape_text(s: Seq<char>) -> Seq<char>
    decreases s.len(),
{
    if s.len() == 0 {
        Seq::empty()
    } else if s[0] == '\\' && s.len() >= 2 {
        seq![unescape_char(s[1])] + unescape_text(s.skip(2))
    } else {
        seq![s[0]] + unescape_text(s.skip(1))
    }
}

/// Escaping a text that is made of two parts escapes the parts.
pub proof fn lemma_escape_concat(a: Seq<char>, b: Seq<char>)
    ensures
        escape_text(a + b) == escape_text(a) + escape_text(b),
    decreases b.len(),
{
    if b.len() == 0 {
        assert(a + b =~= a);
        assert(escape_text(a) + escape_text(b) =~= escape_text(a));
    } else {
        assert((a + b).drop_last() =~= a + b.drop_last());
        lemma_escape_concat(a, b.drop_last());
        assert(escape_text(a + b) =~= escape_text(a) + escape_text(b));
    }
}

/// Escaping loses nothing: the escaped text stands for the text that was
/// escaped, so two texts with the same escaped form are the same text.
pub proof fn lemma_escape_round_trip(s: Seq<char>)
    ensures
        unescape_text(escape_text(s)) == s,
    decreases s.len(),
{
    if s.len() > 0 {
        let head = seq![s[0]];
        let tail = s.drop_first();
        assert(s =~= head + tail);
        lemma_escape_concat(head, tail);
        assert(head.drop_last() =~= Seq::<char>::empty());
        assert(head.last() == s[0]);
        assert(escape_text(head.drop_last()) =~= Seq::<char>::empty());
        assert(escape_text(head) =~= escape_text(head.drop_last()) + escape_char(head.last()));
        assert(escape_text(head) =~= escape_char(s[0]));
        lemma_escape_round_trip(tail);
        let e = escape_text(s);
        let first = escape_char(s[0]);
        assert(e == first + escape_text(tail));
        if first.len() == 2 {
            assert(e[0] == '\\');
            assert(e.skip(2) =~= escape_text(tail));
            assert(unescape_char(first[1]) == s[0]);
            assert(e[1] == first[1]);
        } else {
            assert(e[0] == s[0]);
            assert(e.skip(1) =~= escape_text(tail));
        }
        assert(unescape_text(e) =~= head + tail);
    }
}

/// An escaped text holds no line feed, carriage return or tab, and a
/// backslash stands before each of its quotes.
pub proof fn lemma_escaped_text_is_quotable(s: Seq<char>, i: int)
    requires
        0 <= i < escape_text(s).len(),
    ensures
        escape_text(s)[i] != '\n',
        escape_text(s)[i] != '\r',
        escape_text(s)[i] != '\t',
        escape_text(s)[i] == '\'' || escape_text(s)[i] == '"' ==> i > 0 && escape_text(s)[i - 1]
            == '\\',
    decreases s.len(),
{
    if s.len() > 0 {
        let before = escape_text(s.drop_last());
        let last = escape_char(s.last());
        if i < before.len() {
            lemma_escaped_text_is_quotable(s.drop_last(), i);
            assert(escape_text(s)[i] == before[i]);
            if i > 0 {
                assert(escape_text(s)[i - 1] == before[i - 1]);
            }
        } else {
            assert(escape_text(s)[i] == last[i - before.len()]);
            if i - before.len() == 1 {
                assert(escape_text(s)[i - 1] == last[0]);
            }
        }
    }
}

} // verus!
