use cg_core::model::{EdgeType, Node, NodeType};
use cg_core::parser::parse_typescript_file;

fn of_type(nodes: &[Node], kind: NodeType) -> Vec<&Node> {
    nodes.iter().filter(|n| n.node_type == kind).collect()
}

#[test]
fn test_parse_functions() {
    let content = r#"
function myFunction() {
    console.log("hello");
}

const arrowFunc = () => {
    return 42;
};

async function asyncFunc() {
    return await fetch("/api");
}
        "#;

    let result = parse_typescript_file("test.ts", content).unwrap();

    let functions = of_type(&result.nodes, NodeType::Function);

    assert_eq!(functions.len(), 3);

    let names: Vec<_> = functions.iter().map(|n| n.name.as_str()).collect();
    assert!(names.contains(&"myFunction"));
    assert!(names.contains(&"arrowFunc"));
    assert!(names.contains(&"asyncFunc"));
}

#[test]
fn test_parse_classes() {
    let content = r#"
class MyClass {
    constructor() {}
    
    myMethod() {
        return "hello";
    }
}

export class ExportedClass {
    value: number = 0;
}
        "#;

    let result = parse_typescript_file("test.ts", content).unwrap();

    let classes = of_type(&result.nodes, NodeType::Class);

    assert_eq!(classes.len(), 2);

    let names: Vec<_> = classes.iter().map(|n| n.name.as_str()).collect();
    assert!(names.contains(&"MyClass"));
    assert!(names.contains(&"ExportedClass"));
}

#[test]
fn test_parse_interfaces() {
    let content = r#"
interface Person {
    name: string;
    age: number;
}

export interface User extends Person {
    id: number;
}
        "#;

    let result = parse_typescript_file("test.ts", content).unwrap();

    let interfaces = of_type(&result.nodes, NodeType::Interface);

    assert_eq!(interfaces.len(), 2);

    let names: Vec<_> = interfaces.iter().map(|n| n.name.as_str()).collect();
    assert!(names.contains(&"Person"));
    assert!(names.contains(&"User"));
}

#[test]
fn test_parse_imports() {
    let content = r#"
import { foo, bar } from "./module";
import * as React from "react";
import type { MyType } from "./types";
        "#;

    let result = parse_typescript_file("test.ts", content).unwrap();

    let imports = of_type(&result.nodes, NodeType::Import);

    assert_eq!(imports.len(), 1);
    assert_eq!(imports[0].name, "3 imports");
}

#[test]
fn test_extract_calls_edges() {
    let content = r#"
function helper() {
    return "helper called";
}

function main() {
    const result = helper();
    return result;
}
        "#;

    let result = parse_typescript_file("test.ts", content).unwrap();

    let functions = of_type(&result.nodes, NodeType::Function);
    assert_eq!(functions.len(), 2);

    let calls_edges: Vec<_> = result
        .edges
        .iter()
        .filter(|e| e.edge_type == EdgeType::Calls)
        .collect();
    assert_eq!(calls_edges.len(), 1);

    let main_fn = functions.iter().find(|f| f.name == "main").unwrap();
    let helper_fn = functions.iter().find(|f| f.name == "helper").unwrap();

    assert_eq!(calls_edges[0].from_id, main_fn.id);
    assert_eq!(calls_edges[0].to_id, helper_fn.id);
}

#[test]
fn parsed_function_has_body_lines_and_id() {
    let content = "// first line\nfunction hello() {\n  return 1;\n}\n";
    let parsed = parse_typescript_file("/repo/a.ts", content).unwrap();
    assert_eq!(parsed.nodes.len(), 1);
    let f = &parsed.nodes[0];
    assert_eq!(f.node_type, NodeType::Function);
    assert_eq!(f.name, "hello");
    assert_eq!(f.file, "/repo/a.ts");
    assert_eq!(f.body, "function hello() {\n  return 1;\n}");
    assert_eq!(f.start_line, Some(1));
    assert_eq!(f.end_line, Some(3));
    let expect = Node::new(NodeType::Function, "hello".to_string(), "/repo/a.ts".to_string())
        .with_lines(1, 3);
    assert_eq!(f.id, expect.id);
    assert!(parsed.import_edges.is_empty());
    assert!(parsed.import_specifiers.is_empty());
}

#[test]
fn interface_extends_gives_one_implements_edge() {
    let content = "interface Person { name: string }\ninterface User extends Person { id: number }\n";
    let parsed = parse_typescript_file("types.ts", content).unwrap();
    let interfaces = of_type(&parsed.nodes, NodeType::Interface);
    assert_eq!(interfaces.len(), 2);
    let person = interfaces.iter().find(|n| n.name == "Person").unwrap();
    let user = interfaces.iter().find(|n| n.name == "User").unwrap();
    assert_eq!(parsed.edges.len(), 1);
    assert_eq!(parsed.edges[0].edge_type, EdgeType::Implements);
    assert_eq!(parsed.edges[0].from_id, user.id);
    assert_eq!(parsed.edges[0].to_id, person.id);
}

#[test]
fn class_extends_and_implements_give_implements_edges() {
    let content = "interface Shape { area(): number }\nclass Base {}\nclass Square extends Base implements Shape { area() { return 1; } }\n";
    let parsed = parse_typescript_file("shapes.ts", content).unwrap();
    let square = parsed.nodes.iter().find(|n| n.name == "Square").unwrap();
    let base = parsed.nodes.iter().find(|n| n.name == "Base").unwrap();
    let shape = parsed.nodes.iter().find(|n| n.name == "Shape").unwrap();
    let edges: Vec<(&str, &str)> = parsed
        .edges
        .iter()
        .filter(|e| e.edge_type == EdgeType::Implements)
        .map(|e| (e.from_id.as_str(), e.to_id.as_str()))
        .collect();
    assert_eq!(edges.len(), 2);
    assert!(edges.contains(&(square.id.as_str(), base.id.as_str())));
    assert!(edges.contains(&(square.id.as_str(), shape.id.as_str())));
}

#[test]
fn constructor_calls_give_two_calls_edges() {
    let content = "class UserService {}\nclass ProductService {}\nfunction initializeServices() {\n  const a = new UserService();\n  const b = new ProductService();\n  return [a, b];\n}\n";
    let parsed = parse_typescript_file("service.ts", content).unwrap();
    let init = parsed.nodes.iter().find(|n| n.name == "initializeServices").unwrap();
    let user = parsed.nodes.iter().find(|n| n.name == "UserService").unwrap();
    let product = parsed.nodes.iter().find(|n| n.name == "ProductService").unwrap();
    let calls: Vec<_> = parsed.edges.iter().filter(|e| e.edge_type == EdgeType::Calls).collect();
    assert_eq!(calls.len(), 2);
    assert_eq!(calls[0].from_id, init.id);
    assert_eq!(calls[0].to_id, user.id);
    assert_eq!(calls[1].from_id, init.id);
    assert_eq!(calls[1].to_id, product.id);
}

#[test]
fn import_specifiers_come_in_source_order() {
    let content = "import { foo } from \"./module\";\nimport * as React from \"react\";\nimport type { T } from \"../types\";\n";
    let parsed = parse_typescript_file("/p/src/a.ts", content).unwrap();
    assert_eq!(parsed.import_specifiers, vec!["./module", "react", "../types"]);
    let imports = of_type(&parsed.nodes, NodeType::Import);
    assert_eq!(imports.len(), 1);
    assert_eq!(imports[0].name, "3 imports");
    assert_eq!(imports[0].body, "");
    assert_eq!(imports[0].start_line, None);
}

#[test]
fn file_without_imports_has_no_import_node() {
    let parsed = parse_typescript_file("a.ts", "const x = 1;\n").unwrap();
    assert!(parsed.nodes.is_empty());
    assert!(parsed.edges.is_empty());
}

#[test]
fn nested_call_goes_to_first_containing_function() {
    let content = "function outer() {\n  function inner() {\n    return leaf();\n  }\n  return inner();\n}\nfunction leaf() { return 1; }\n";
    let parsed = parse_typescript_file("n.ts", content).unwrap();
    let outer = parsed.nodes.iter().find(|n| n.name == "outer").unwrap();
    let leaf = parsed.nodes.iter().find(|n| n.name == "leaf").unwrap();
    let inner = parsed.nodes.iter().find(|n| n.name == "inner").unwrap();
    let to_leaf: Vec<_> = parsed.edges.iter().filter(|e| e.to_id == leaf.id).collect();
    assert_eq!(to_leaf.len(), 1);
    assert_eq!(to_leaf[0].from_id, outer.id);
    let to_inner: Vec<_> = parsed.edges.iter().filter(|e| e.to_id == inner.id).collect();
    assert_eq!(to_inner.len(), 1);
    assert_eq!(to_inner[0].from_id, outer.id);
}

#[test]
fn non_ascii_source_keeps_names_and_bodies() {
    let content = "// h\u{e9}llo \u{4e16}\u{754c}\nfunction gr\u{fc}\u{df}e() { return \"\u{1f600}\"; }\n";
    let parsed = parse_typescript_file("u.ts", content).unwrap();
    assert_eq!(parsed.nodes.len(), 1);
    assert_eq!(parsed.nodes[0].name, "gr\u{fc}\u{df}e");
    assert_eq!(parsed.nodes[0].body, "function gr\u{fc}\u{df}e() { return \"\u{1f600}\"; }");
    assert_eq!(parsed.nodes[0].start_line, Some(1));
}

#[test]
fn reparsing_gives_the_same_ids() {
    let content = "function a() { b(); }\nfunction b() {}\nclass C {}\n";
    let first = parse_typescript_file("/x/y.ts", content).unwrap();
    let second = parse_typescript_file("/x/y.ts", content).unwrap();
    let ids1: Vec<&str> = first.nodes.iter().map(|n| n.id.as_str()).collect();
    let ids2: Vec<&str> = second.nodes.iter().map(|n| n.id.as_str()).collect();
    assert_eq!(ids1, ids2);
    assert_eq!(first.edges.len(), second.edges.len());
}

#[test]
fn member_call_links_to_the_local_function_of_that_name() {
    let content = "function log() {}\nfunction run() {\n  console.log('x');\n}\n";
    let parsed = parse_typescript_file("m.ts", content).unwrap();
    let log = parsed.nodes.iter().find(|n| n.name == "log").unwrap();
    let run = parsed.nodes.iter().find(|n| n.name == "run").unwrap();
    assert_eq!(parsed.edges.len(), 1);
    assert_eq!(parsed.edges[0].edge_type, EdgeType::Calls);
    assert_eq!(parsed.edges[0].from_id, run.id);
    assert_eq!(parsed.edges[0].to_id, log.id);
}

#[test]
fn calls_outside_functions_or_to_unknown_names_give_no_edge() {
    let content = "function known() {}\nknown();\nfunction caller() {\n  unknown();\n}\n";
    let parsed = parse_typescript_file("c.ts", content).unwrap();
    assert_eq!(of_type(&parsed.nodes, NodeType::Function).len(), 2);
    assert!(parsed.edges.is_empty());
}

#[test]
fn nested_constructor_links_to_the_class_of_the_last_name() {
    let content = "class Bar {}\nfunction make() {\n  return new Foo.Bar();\n}\n";
    let parsed = parse_typescript_file("k.ts", content).unwrap();
    let bar = parsed.nodes.iter().find(|n| n.name == "Bar").unwrap();
    let make = parsed.nodes.iter().find(|n| n.name == "make").unwrap();
    let calls: Vec<_> = parsed.edges.iter().filter(|e| e.edge_type == EdgeType::Calls).collect();
    assert_eq!(calls.len(), 1);
    assert_eq!(calls[0].from_id, make.id);
    assert_eq!(calls[0].to_id, bar.id);
}

#[test]
fn function_expressions_bound_to_variables_are_functions() {
    let content = "const a = function () { return 1; };\nlet b = (x: number) => x + 1;\nconst c = 3;\n";
    let parsed = parse_typescript_file("v.ts", content).unwrap();
    let names: Vec<&str> = of_type(&parsed.nodes, NodeType::Function)
        .iter()
        .map(|n| n.name.as_str())
        .collect();
    assert_eq!(names, vec!["a", "b"]);
    assert_eq!(parsed.nodes[0].body, "const a = function () { return 1; };");
    assert_eq!(parsed.nodes[0].start_line, Some(0));
    assert_eq!(parsed.nodes[0].end_line, Some(0));
}

#[test]
fn nodes_come_by_kind_functions_classes_interfaces_import() {
    let content = "import a from './a';\ninterface I {}\nclass C {}\nfunction f() {}\n";
    let parsed = parse_typescript_file("o.ts", content).unwrap();
    let kinds: Vec<NodeType> = parsed.nodes.iter().map(|n| n.node_type).collect();
    assert_eq!(
        kinds,
        vec![NodeType::Function, NodeType::Class, NodeType::Interface, NodeType::Import]
    );
    assert_eq!(parsed.nodes[3].name, "1 imports");
    assert_eq!(parsed.nodes[3].file, "o.ts");
}

#[test]
fn source_with_syntax_errors_still_gives_what_can_be_read() {
    let content = "function ok() {}\nfunction broken( {\n";
    let parsed = parse_typescript_file("e.ts", content).unwrap();
    assert!(parsed.nodes.iter().any(|n| n.name == "ok"));
}
