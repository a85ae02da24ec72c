use cg_core::db::Value;
use cg_core::error::Error;
use cg_core::model::NodeType;
use cg_core::query::{
    callers_from_rows, find_callers_statement, find_symbol_statement, nodes_from_symbol_rows,
    parse_node_from_row,
};

const COLUMNS: &str = "n.id, n.node_type, n.name, n.file, n.body, n.start_line, n.end_line";

#[test]
fn find_symbol_statement_without_limit() {
    assert_eq!(
        find_symbol_statement("greet", None),
        format!("MATCH (n:Node) WHERE n.name =~ '(?i).*greet.*' RETURN {} ORDER BY n.name", COLUMNS)
    );
}

#[test]
fn find_symbol_statement_with_limit() {
    assert_eq!(
        find_symbol_statement("greet", Some(5)),
        format!(
            "MATCH (n:Node) WHERE n.name =~ '(?i).*greet.*' RETURN {} ORDER BY n.name LIMIT 5",
            COLUMNS
        )
    );
    assert!(find_symbol_statement("x", Some(0)).ends_with(" ORDER BY n.name LIMIT 0"));
    assert!(find_symbol_statement("x", Some(1234567890)).ends_with(" LIMIT 1234567890"));
}

#[test]
fn find_symbol_pattern_is_taken_literally() {
    // The pattern is escaped for the regular expression, and the result for
    // the quoted string: a dot becomes backslash-dot, then two backslashes
    // and a dot.
    assert_eq!(
        find_symbol_statement("a.b", None),
        format!("MATCH (n:Node) WHERE n.name =~ '(?i).*a\\\\.b.*' RETURN {} ORDER BY n.name", COLUMNS)
    );
    assert_eq!(
        find_symbol_statement("it's", None),
        format!("MATCH (n:Node) WHERE n.name =~ '(?i).*it\\'s.*' RETURN {} ORDER BY n.name", COLUMNS)
    );
    let all_meta = find_symbol_statement("\\.+*?()|[]{}^$#&-~", None);
    let escaped: String = "\\.+*?()|[]{}^$#&-~".chars().flat_map(|c| {
        if c == '\\' { vec!['\\', '\\', '\\', '\\'] } else { vec!['\\', '\\', c] }
    }).collect();
    assert_eq!(
        all_meta,
        format!("MATCH (n:Node) WHERE n.name =~ '(?i).*{}.*' RETURN {} ORDER BY n.name", escaped, COLUMNS)
    );
    assert!(find_symbol_statement("a%b/c!d e", None).contains(".*a%b/c!d e.*"));
}

#[test]
fn find_callers_statement_escapes_the_symbol() {
    assert_eq!(
        find_callers_statement("greet"),
        "MATCH (caller:Node)-[e:Edge {edge_type: 'Calls'}]->(callee:Node) WHERE callee.name = 'greet' OR callee.id = 'greet' RETURN caller.id, caller.node_type, caller.name, caller.file, caller.body, caller.start_line, caller.end_line, callee.name ORDER BY caller.name"
    );
    let q = find_callers_statement("o'neil\\");
    assert!(q.contains("callee.name = 'o\\'neil\\\\' OR callee.id = 'o\\'neil\\\\' RETURN"));
}

fn row(kind: &str, name: &str, start: i32, end: i32) -> Vec<Value> {
    vec![
        Value::String(format!("id-{}", name)),
        Value::String(kind.to_string()),
        Value::String(name.to_string()),
        Value::String("/p/a.ts".to_string()),
        Value::String("body".to_string()),
        Value::Int32(start),
        Value::Int32(end),
        Value::String("callee".to_string()),
    ]
}

#[test]
fn parse_node_from_row_reads_the_kind() {
    let node = parse_node_from_row(&row("Class", "Service", 4, 9)).unwrap();
    assert_eq!(node.id, "id-Service");
    assert_eq!(node.node_type, NodeType::Class);
    assert_eq!(node.name, "Service");
    assert_eq!(node.file, "/p/a.ts");
    assert_eq!(node.body, "body");
    assert_eq!(node.start_line, Some(4));
    assert_eq!(node.end_line, Some(9));
    let synthetic = parse_node_from_row(&row("Repository", "/p", -1, -1)).unwrap();
    assert_eq!(synthetic.node_type, NodeType::Repository);
    assert_eq!(synthetic.start_line, None);
    assert_eq!(synthetic.end_line, None);
}

#[test]
fn parse_node_from_row_knows_every_kind() {
    let kinds = [
        "Repository", "Language", "File", "Directory", "Function", "Class", "Interface",
        "DataModel", "Trait", "Var", "Import", "Library", "Endpoint", "Request", "Page", "Instance",
    ];
    for kind in kinds {
        let node = parse_node_from_row(&row(kind, "n", 0, 0)).unwrap();
        assert_eq!(node.node_type.as_str(), kind);
    }
}

#[test]
fn parse_node_from_row_rejects_unknown_kinds() {
    let err = parse_node_from_row(&row("Widget", "n", 0, 0)).unwrap_err();
    assert_eq!(err, Error::UnknownKind("Widget".to_string()));
    assert_eq!(err.message(), "Unknown node type: Widget");
    let err = parse_node_from_row(&[Value::String("id".to_string()), Value::Int64(3)]).unwrap_err();
    assert_eq!(err, Error::UnknownKind(String::new()));
    let err = parse_node_from_row(&[]).unwrap_err();
    assert_eq!(err, Error::UnknownKind(String::new()));
}

#[test]
fn symbol_rows_decode_in_order_or_fail_on_the_first_unknown_kind() {
    let rows = vec![row("Function", "a", 0, 1), row("Class", "b", 2, 3)];
    let nodes = nodes_from_symbol_rows(&rows).unwrap();
    assert_eq!(nodes.len(), 2);
    assert_eq!(nodes[0].name, "a");
    assert_eq!(nodes[1].node_type, NodeType::Class);
    let bad = vec![row("Function", "a", 0, 1), row("Nope", "b", 2, 3), row("Never", "c", 2, 3)];
    assert_eq!(nodes_from_symbol_rows(&bad).unwrap_err(), Error::UnknownKind("Nope".to_string()));
    assert!(nodes_from_symbol_rows(&Vec::new()).unwrap().is_empty());
}

#[test]
fn caller_rows_carry_the_callee_name() {
    let rows = vec![row("Function", "farewell", 5, 8)];
    let callers = callers_from_rows(&rows).unwrap();
    assert_eq!(callers.len(), 1);
    assert_eq!(callers[0].0.name, "farewell");
    assert_eq!(callers[0].1, "callee");
    let mut short = row("Function", "welcome", 1, 2);
    short.pop();
    let callers = callers_from_rows(&vec![short]).unwrap();
    assert_eq!(callers[0].1, "");
    let bad = vec![row("Gadget", "x", 0, 0)];
    assert_eq!(callers_from_rows(&bad).unwrap_err(), Error::UnknownKind("Gadget".to_string()));
}
