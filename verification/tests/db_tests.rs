use cg_core::db::{
    clear_statement, count_edges_statement, count_from_rows, count_nodes_statement,
    create_schema_statements, delete_file_and_symbols_statements, escape_kuzu_string,
    find_nodes_statement, get_metadata_statement, initialize_schema_statements,
    insert_edge_statement, insert_node_statement,
    line_at, metadata_from_rows, node_from_row, nodes_from_rows, schema_probe_statement,
    schema_version_statement, set_metadata_statement, text_at, Value,
};
use cg_core::model::{Edge, EdgeType, Node, NodeType};

#[test]
fn escape_leaves_plain_text_alone() {
    assert_eq!(escape_kuzu_string(""), "");
    assert_eq!(escape_kuzu_string("hello world"), "hello world");
    assert_eq!(escape_kuzu_string("h\u{e9}llo \u{4e16}"), "h\u{e9}llo \u{4e16}");
}

#[test]
fn escape_each_special_character() {
    assert_eq!(escape_kuzu_string("\\"), "\\\\");
    assert_eq!(escape_kuzu_string("'"), "\\'");
    assert_eq!(escape_kuzu_string("\""), "\\\"");
    assert_eq!(escape_kuzu_string("\n"), "\\n");
    assert_eq!(escape_kuzu_string("\r"), "\\r");
    assert_eq!(escape_kuzu_string("\t"), "\\t");
}

#[test]
fn escape_quotes_in_source() {
    assert_eq!(
        escape_kuzu_string("function testQuotes() { return \"It's a 'test'\"; }"),
        "function testQuotes() { return \\\"It\\'s a \\'test\\'\\\"; }"
    );
    assert_eq!(escape_kuzu_string("C:\\src\\a.ts"), "C:\\\\src\\\\a.ts");
    assert_eq!(escape_kuzu_string("a\\n"), "a\\\\n");
    assert_eq!(escape_kuzu_string("a\nb\r\n\tc"), "a\\nb\\r\\n\\tc");
}

#[test]
fn escape_agrees_with_chained_replacement() {
    let samples = ["", "plain", "\\'\"\n\r\t", "a\\'b", "''", "\\\\", "x\\ny", "\u{1f600}'\\"];
    for s in samples {
        let chained = s
            .replace('\\', "\\\\")
            .replace('\'', "\\'")
            .replace('"', "\\\"")
            .replace('\n', "\\n")
            .replace('\r', "\\r")
            .replace('\t', "\\t");
        assert_eq!(escape_kuzu_string(s), chained);
    }
}

#[test]
fn schema_statements() {
    assert_eq!(schema_probe_statement(), "MATCH (n:Node) RETURN count(n) LIMIT 1");
    let create = create_schema_statements();
    assert_eq!(create.len(), 3);
    assert_eq!(create[0], "CREATE NODE TABLE Node(id STRING, node_type STRING, name STRING, file STRING, body STRING, start_line INT32, end_line INT32, PRIMARY KEY(id))");
    assert_eq!(create[1], "CREATE NODE TABLE Metadata(key STRING, value STRING, PRIMARY KEY(key))");
    assert_eq!(create[2], "CREATE REL TABLE Edge(FROM Node TO Node, edge_type STRING)");
    assert_eq!(
        schema_version_statement(1),
        "CREATE (m:Metadata {key: 'schema_version', value: '1'})"
    );
    assert_eq!(
        schema_version_statement(-12),
        "CREATE (m:Metadata {key: 'schema_version', value: '-12'})"
    );
    assert_eq!(
        schema_version_statement(i32::MIN),
        "CREATE (m:Metadata {key: 'schema_version', value: '-2147483648'})"
    );
}

fn plain_node() -> Node {
    Node {
        id: "abc".to_string(),
        node_type: NodeType::Function,
        name: "it's".to_string(),
        file: "C:\\a.ts".to_string(),
        body: "x\n\"y\"".to_string(),
        start_line: Some(10),
        end_line: Some(205),
        meta: Vec::new(),
    }
}

#[test]
fn insert_node_statement_is_escaped() {
    assert_eq!(
        insert_node_statement(&plain_node()),
        "CREATE (n:Node {id: 'abc', node_type: 'Function', name: 'it\\'s', file: 'C:\\\\a.ts', body: 'x\\n\\\"y\\\"', start_line: 10, end_line: 205})"
    );
}

#[test]
fn missing_lines_are_written_as_minus_one() {
    let mut node = plain_node();
    node.start_line = None;
    node.end_line = None;
    node.name = "f".to_string();
    node.file = "a.ts".to_string();
    node.body = String::new();
    assert_eq!(
        insert_node_statement(&node),
        "CREATE (n:Node {id: 'abc', node_type: 'Function', name: 'f', file: 'a.ts', body: '', start_line: -1, end_line: -1})"
    );
    node.start_line = Some(0);
    node.end_line = Some(i32::MAX as u32);
    assert_eq!(
        insert_node_statement(&node),
        "CREATE (n:Node {id: 'abc', node_type: 'Function', name: 'f', file: 'a.ts', body: '', start_line: 0, end_line: 2147483647})"
    );
}

#[test]
fn lines_beyond_32_signed_bits_wrap() {
    let mut node = plain_node();
    node.name = "f".to_string();
    node.file = "a.ts".to_string();
    node.body = String::new();
    node.start_line = Some(0x8000_0000);
    node.end_line = Some(u32::MAX);
    assert_eq!(
        insert_node_statement(&node),
        "CREATE (n:Node {id: 'abc', node_type: 'Function', name: 'f', file: 'a.ts', body: '', start_line: -2147483648, end_line: -1})"
    );
}

#[test]
fn insert_edge_statement_matches_both_ends() {
    let edge = Edge { from_id: "a'1".to_string(), to_id: "b2".to_string(), edge_type: EdgeType::Calls };
    assert_eq!(
        insert_edge_statement(&edge),
        "MATCH (a:Node {id: 'a\\'1'}), (b:Node {id: 'b2'}) CREATE (a)-[e:Edge {edge_type: 'Calls'}]->(b)"
    );
}

#[test]
fn count_and_find_statements() {
    assert_eq!(
        count_nodes_statement(&NodeType::Function),
        "MATCH (n:Node {node_type: 'Function'}) RETURN count(n) as count"
    );
    assert_eq!(
        count_edges_statement(&EdgeType::Imports),
        "MATCH ()-[e:Edge {edge_type: 'Imports'}]->() RETURN count(e) as count"
    );
    assert_eq!(
        find_nodes_statement(&NodeType::File),
        "MATCH (n:Node {node_type: 'File'}) RETURN n.id, n.node_type, n.name, n.file, n.body, n.start_line, n.end_line"
    );
    assert_eq!(clear_statement(), "MATCH (n:Node) DETACH DELETE n");
}

#[test]
fn cascade_follows_contains_edges_only() {
    let (symbols, file) = delete_file_and_symbols_statements("f'1");
    assert_eq!(
        symbols,
        "MATCH (f:Node {id: 'f\\'1'})-[e:Edge {edge_type: 'Contains'}]->(s:Node) DETACH DELETE s"
    );
    assert_eq!(file, "MATCH (f:Node {id: 'f\\'1'}) DETACH DELETE f");
    assert!(!symbols.contains("Imports"));
    assert!(!symbols.contains("Calls"));
}

#[test]
fn metadata_statements() {
    assert_eq!(
        get_metadata_statement("last_commit"),
        "MATCH (m:Metadata {key: 'last_commit'}) RETURN m.value"
    );
    assert_eq!(
        set_metadata_statement("last_commit", "0123'abc"),
        "MERGE (m:Metadata {key: 'last_commit'}) SET m.value = '0123\\'abc'"
    );
}

fn row(id: &str, kind: &str, name: &str, file: &str, body: &str, start: i32, end: i32) -> Vec<Value> {
    vec![
        Value::String(id.to_string()),
        Value::String(kind.to_string()),
        Value::String(name.to_string()),
        Value::String(file.to_string()),
        Value::String(body.to_string()),
        Value::Int32(start),
        Value::Int32(end),
    ]
}

#[test]
fn node_from_row_reads_the_columns() {
    let r = row("id1", "Class", "testFunction", "test.ts", "function testFunction() {}", 1, 3);
    let node = node_from_row(&r, NodeType::Function);
    assert_eq!(node.id, "id1");
    assert_eq!(node.node_type, NodeType::Function);
    assert_eq!(node.name, "testFunction");
    assert_eq!(node.file, "test.ts");
    assert_eq!(node.body, "function testFunction() {}");
    assert_eq!(node.start_line, Some(1));
    assert_eq!(node.end_line, Some(3));
    assert!(node.meta.is_empty());
}

#[test]
fn negative_lines_read_as_absent() {
    let r = row("id", "File", "n", "f", "", -1, 0);
    let node = node_from_row(&r, NodeType::File);
    assert_eq!(node.start_line, None);
    assert_eq!(node.end_line, Some(0));
    assert_eq!(line_at(&[Value::Int32(i32::MAX)], 0), Some(i32::MAX as u32));
    assert_eq!(line_at(&[Value::Int32(i32::MIN)], 0), None);
    assert_eq!(line_at(&[Value::Int64(4)], 0), None);
    assert_eq!(line_at(&[Value::Int32(4)], 1), None);
}

#[test]
fn cells_of_another_type_read_as_default() {
    let r = vec![Value::Null, Value::Other, Value::Int64(3)];
    let node = node_from_row(&r, NodeType::Var);
    assert_eq!(node.id, "");
    assert_eq!(node.name, "");
    assert_eq!(node.file, "");
    assert_eq!(node.body, "");
    assert_eq!(node.start_line, None);
    assert_eq!(node.end_line, None);
    assert_eq!(text_at(&r, 7), "");
    assert_eq!(text_at(&[Value::String("x".to_string())], 0), "x");
}

#[test]
fn nodes_from_rows_keeps_the_order() {
    let rows = vec![row("1", "x", "a", "f", "", 0, 1), row("2", "x", "b", "f", "", 2, 3)];
    let nodes = nodes_from_rows(&rows, &NodeType::Interface);
    assert_eq!(nodes.len(), 2);
    assert_eq!(nodes[0].name, "a");
    assert_eq!(nodes[1].name, "b");
    assert_eq!(nodes[1].node_type, NodeType::Interface);
    assert!(nodes_from_rows(&Vec::new(), &NodeType::Interface).is_empty());
}

#[test]
fn count_from_rows_reads_the_first_count() {
    assert_eq!(count_from_rows(&vec![vec![Value::Int64(1)]]), 1);
    assert_eq!(count_from_rows(&Vec::new()), 0);
    assert_eq!(count_from_rows(&vec![vec![]]), 0);
    assert_eq!(
        count_from_rows(&vec![vec![Value::Int32(9)], vec![Value::Int64(7)], vec![Value::Int64(8)]]),
        7
    );
    assert_eq!(count_from_rows(&vec![vec![Value::Int64(-5)]]), 0);
    assert_eq!(count_from_rows(&vec![vec![Value::String("3".to_string())]]), 0);
}

#[test]
fn metadata_from_rows_reads_the_first_row() {
    assert_eq!(metadata_from_rows(&Vec::new()), None);
    assert_eq!(
        metadata_from_rows(&vec![vec![Value::String("abc".to_string())]]),
        Some("abc".to_string())
    );
    assert_eq!(metadata_from_rows(&vec![vec![Value::Null], vec![Value::String("x".to_string())]]), None);
    assert_eq!(metadata_from_rows(&vec![vec![]]), None);
}

#[test]
fn schema_is_created_only_where_it_is_missing() {
    assert!(initialize_schema_statements(true).is_empty());
    let setup = initialize_schema_statements(false);
    let mut expect = create_schema_statements();
    expect.push("CREATE (m:Metadata {key: 'schema_version', value: '1'})".to_string());
    assert_eq!(setup, expect);
    assert_eq!(setup.len(), 4);
}
