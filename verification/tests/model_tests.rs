use cg_core::error::Error;
use cg_core::identity::generate_id;
use cg_core::model::{Edge, EdgeType, Node, NodeType};

const NODE_KINDS: [(NodeType, &str); 16] = [
    (NodeType::Repository, "Repository"),
    (NodeType::Language, "Language"),
    (NodeType::File, "File"),
    (NodeType::Directory, "Directory"),
    (NodeType::Function, "Function"),
    (NodeType::Class, "Class"),
    (NodeType::Interface, "Interface"),
    (NodeType::DataModel, "DataModel"),
    (NodeType::Trait, "Trait"),
    (NodeType::Var, "Var"),
    (NodeType::Import, "Import"),
    (NodeType::Library, "Library"),
    (NodeType::Endpoint, "Endpoint"),
    (NodeType::Request, "Request"),
    (NodeType::Page, "Page"),
    (NodeType::Instance, "Instance"),
];

const EDGE_KINDS: [(EdgeType, &str); 9] = [
    (EdgeType::Contains, "Contains"),
    (EdgeType::Calls, "Calls"),
    (EdgeType::Imports, "Imports"),
    (EdgeType::Handler, "Handler"),
    (EdgeType::Renders, "Renders"),
    (EdgeType::Implements, "Implements"),
    (EdgeType::Uses, "Uses"),
    (EdgeType::Of, "Of"),
    (EdgeType::Operand, "Operand"),
];

#[test]
fn node_kinds_spell_and_parse_back() {
    for (i, (kind, name)) in NODE_KINDS.iter().enumerate() {
        assert_eq!(kind.as_str(), *name);
        assert_eq!(NodeType::parse(name), Ok(*kind));
        assert_eq!(kind.ordinal() as usize, i);
    }
}

#[test]
fn edge_kinds_spell_and_parse_back() {
    for (i, (kind, name)) in EDGE_KINDS.iter().enumerate() {
        assert_eq!(kind.as_str(), *name);
        assert_eq!(EdgeType::parse(name), Ok(*kind));
        assert_eq!(kind.ordinal() as usize, i);
    }
}

#[test]
fn unknown_kind_is_reported_with_its_spelling() {
    assert_eq!(
        NodeType::parse("function"),
        Err(Error::UnknownKind("function".to_string()))
    );
    assert_eq!(NodeType::parse(""), Err(Error::UnknownKind(String::new())));
    assert_eq!(
        EdgeType::parse("Contains "),
        Err(Error::UnknownKind("Contains ".to_string()))
    );
    assert_eq!(
        NodeType::parse("Calls"),
        Err(Error::UnknownKind("Calls".to_string()))
    );
}

fn expected_id(kind: &str, name: &str, file: &str, lines: Option<(u32, u32)>) -> String {
    let mut hasher = blake3::Hasher::new();
    hasher.update(kind.as_bytes());
    hasher.update(name.as_bytes());
    hasher.update(file.as_bytes());
    if let Some((start, end)) = lines {
        hasher.update(&start.to_le_bytes());
        hasher.update(&end.to_le_bytes());
    }
    hasher.finalize().to_hex().to_string()
}

#[test]
fn new_node_has_the_id_of_kind_name_and_file() {
    let node = Node::new(NodeType::Function, "greet".to_string(), "/src/main.ts".to_string());
    assert_eq!(node.id, expected_id("Function", "greet", "/src/main.ts", None));
    assert_eq!(node.id.len(), 64);
    assert!(node.id.chars().all(|c| c.is_ascii_digit() || ('a'..='f').contains(&c)));
    assert_eq!(node.node_type, NodeType::Function);
    assert_eq!(node.name, "greet");
    assert_eq!(node.file, "/src/main.ts");
    assert_eq!(node.body, "");
    assert_eq!(node.start_line, None);
    assert_eq!(node.end_line, None);
    assert!(node.meta.is_empty());
}

#[test]
fn id_of_empty_input_is_the_digest_of_the_kind_alone() {
    let node = Node::new(NodeType::File, String::new(), String::new());
    assert_eq!(node.id, blake3::hash(b"File").to_hex().to_string());
}

#[test]
fn known_digest_value() {
    // BLAKE3 of the empty input, from the algorithm's test vectors.
    let empty = blake3::hash(b"").to_hex().to_string();
    assert_eq!(empty, "af1349b9f5f9a1a6a0404dea36dcc9499bcb25c9adc112b7cc9a93cae41f3262");
    let id = generate_id(&NodeType::Var, "x", "y", None, None);
    assert_eq!(id, blake3::hash(b"Varxy").to_hex().to_string());
    assert_ne!(id, "Varxy");
}

#[test]
fn with_lines_gives_the_id_of_the_lines() {
    let node = Node::new(NodeType::Class, "A".to_string(), "a.ts".to_string());
    let before = node.id.clone();
    let node = node.with_lines(1, 3);
    assert_eq!(node.start_line, Some(1));
    assert_eq!(node.end_line, Some(3));
    assert_eq!(node.id, expected_id("Class", "A", "a.ts", Some((1, 3))));
    assert_ne!(node.id, before);
    let moved = Node::new(NodeType::Class, "A".to_string(), "a.ts".to_string()).with_lines(2, 4);
    assert_ne!(node.id, moved.id);
    assert_eq!(
        generate_id(&NodeType::Class, "A", "a.ts", Some(1), Some(3)),
        node.id
    );
}

#[test]
fn line_numbers_are_hashed_little_end_first() {
    let id = generate_id(&NodeType::Function, "f", "p", Some(0x0102_0304), Some(5));
    let mut input = b"Functionfp".to_vec();
    input.extend_from_slice(&[4, 3, 2, 1]);
    input.extend_from_slice(&[5, 0, 0, 0]);
    assert_eq!(id, blake3::hash(&input).to_hex().to_string());
}

#[test]
fn only_one_line_present_is_hashed_alone() {
    let id = generate_id(&NodeType::Function, "f", "p", None, Some(7));
    let mut input = b"Functionfp".to_vec();
    input.extend_from_slice(&[7, 0, 0, 0]);
    assert_eq!(id, blake3::hash(&input).to_hex().to_string());
}

#[test]
fn with_body_keeps_the_id() {
    let node = Node::new(NodeType::Function, "f".to_string(), "a.ts".to_string());
    let id = node.id.clone();
    let node = node.with_body("function f() {}".to_string());
    assert_eq!(node.body, "function f() {}");
    assert_eq!(node.id, id);
    assert_eq!(node.name, "f");
}

#[test]
fn same_inputs_give_the_same_id() {
    let a = Node::new(NodeType::Function, "f".to_string(), "a.ts".to_string())
        .with_body("one".to_string())
        .with_lines(3, 9);
    let b = Node::new(NodeType::Function, "f".to_string(), "a.ts".to_string())
        .with_lines(3, 9)
        .with_body("two".to_string())
        .with_meta("k".to_string(), "v".to_string());
    assert_eq!(a.id, b.id);
    let other_kind = Node::new(NodeType::Class, "f".to_string(), "a.ts".to_string()).with_lines(3, 9);
    assert_ne!(a.id, other_kind.id);
}

#[test]
fn with_meta_sets_and_replaces() {
    let node = Node::new(NodeType::Function, "f".to_string(), "a.ts".to_string());
    assert_eq!(node.meta_get("lang"), None);
    let node = node.with_meta("lang".to_string(), "ts".to_string());
    assert_eq!(node.meta_get("lang"), Some(&"ts".to_string()));
    let node = node.with_meta("async".to_string(), "true".to_string());
    let node = node.with_meta("lang".to_string(), "tsx".to_string());
    assert_eq!(node.meta_get("lang"), Some(&"tsx".to_string()));
    assert_eq!(node.meta_get("async"), Some(&"true".to_string()));
    assert_eq!(node.meta_get("missing"), None);
    assert_eq!(node.meta.len(), 2);
}

#[test]
fn duplicate_holds_the_same() {
    let node = Node::new(NodeType::Interface, "I".to_string(), "i.ts".to_string())
        .with_body("interface I {}".to_string())
        .with_lines(0, 0)
        .with_meta("a".to_string(), "b".to_string());
    let copy = node.duplicate();
    assert_eq!(copy.id, node.id);
    assert_eq!(copy.node_type, node.node_type);
    assert_eq!(copy.name, node.name);
    assert_eq!(copy.file, node.file);
    assert_eq!(copy.body, node.body);
    assert_eq!(copy.start_line, node.start_line);
    assert_eq!(copy.end_line, node.end_line);
    assert_eq!(copy.meta, node.meta);
    let edge = Edge { from_id: "a".to_string(), to_id: "b".to_string(), edge_type: EdgeType::Uses };
    let again = edge.duplicate();
    assert_eq!(again.from_id, "a");
    assert_eq!(again.to_id, "b");
    assert_eq!(again.edge_type, EdgeType::Uses);
}

#[test]
fn error_messages() {
    assert_eq!(Error::Io("x".to_string()).message(), "I/O error: x");
    assert_eq!(Error::Vcs("no HEAD".to_string()).message(), "Version control error: no HEAD");
    assert_eq!(Error::Parse("a.ts".to_string()).message(), "Failed to parse file: a.ts");
    assert_eq!(Error::Store("down".to_string()).message(), "Store error: down");
    assert_eq!(Error::UnknownKind("Foo".to_string()).message(), "Unknown node type: Foo");
}
