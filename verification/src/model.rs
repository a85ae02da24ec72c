//! Node and edge kinds, the records stored in the graph, and the identity
//! scheme that gives every node its primary key.

use vstd::prelude::*;
use vstd::string::*;
use crate::error::Error;
use crate::identity::{generate_id, node_id};
use crate::text::str_eq;

verus! {

/// The kinds of node that the graph can hold.
#[derive(Debug, Clone, Copy, PartialEq, Eq, Hash, Structural)]
pub enum NodeType {
    Repository,
    Language,
    File,
    Directory,
    Function,
    Class,
    Interface,
    DataModel,
    Trait,
    Var,
    Import,
    Library,
    Endpoint,
    Request,
    Page,
    Instance,
}

impl NodeType {
    /// The spelling under which the kind is stored.
    pub open spec fn name(self) -> Seq<char> {
        match self {
            NodeType::Repository => "Repository"@,
            NodeType::Language => "Language"@,
            NodeType::File => "File"@,
            NodeType::Directory => "Directory"@,
            NodeType::Function => "Function"@,
            NodeType::Class => "Class"@,
            NodeType::Interface => "Interface"@,
            NodeType::DataModel => "DataModel"@,
            NodeType::Trait => "Trait"@,
            NodeType::Var => "Var"@,
            NodeType::Import => "Import"@,
            NodeType::Library => "Library"@,
            NodeType::Endpoint => "Endpoint"@,
            NodeType::Request => "Request"@,
            NodeType::Page => "Page"@,
            NodeType::Instance => "Instance"@,
        }
    }

    /// The kind's position in the declared order, from 0.
    pub open spec fn ordinal_spec(self) -> int {
        match self {
            NodeType::Repository => 0,
            NodeType::Language => 1,
            NodeType::File => 2,
            NodeType::Directory => 3,
            NodeType::Function => 4,
            NodeType::Class => 5,
            NodeType::Interface => 6,
            NodeType::DataModel => 7,
            NodeType::Trait => 8,
            NodeType::Var => 9,
            NodeType::Import => 10,
            NodeType::Library => 11,
            NodeType::Endpoint => 12,
            NodeType::Request => 13,
            NodeType::Page => 14,
            NodeType::Instance => 15,
        }
    }

    /// The kind with the given position, if there is one.
    pub open spec fn at_ordinal(n: int) -> Option<NodeType> {
        if n == 0 {
            Some(NodeType::Repository)
        } else if n == 1 {
            Some(NodeType::Language)
        } else if n == 2 {
            Some(NodeType::File)
        } else if n == 3 {
            Some(NodeType::Directory)
        } else if n == 4 {
            Some(NodeType::Function)
        } else if n == 5 {
            Some(NodeType::Class)
        } else if n == 6 {
            Some(NodeType::Interface)
        } else if n == 7 {
            Some(NodeType::DataModel)
        } else if n == 8 {
            Some(NodeType::Trait)
        } else if n == 9 {
            Some(NodeType::Var)
        } else if n == 10 {
            Some(NodeType::Import)
        } else if n == 11 {
            Some(NodeType::Library)
        } else if n == 12 {
            Some(NodeType::Endpoint)
        } else if n == 13 {
            Some(NodeType::Request)
        } else if n == 14 {
            Some(NodeType::Page)
        } else if n == 15 {
            Some(NodeType::Instance)
        } else {
            None
        }
    }

    /// The kind that is stored under the spelling `s`, if there is one.
    pub open spec fn from_name(s: Seq<char>) -> Option<NodeType> {
        if s == "Repository"@ {
            Some(NodeType::Repository)
        } else if s == "Language"@ {
            Some(NodeType::Language)
        } else if s == "File"@ {
            Some(NodeType::File)
        } else if s == "Directory"@ {
            Some(NodeType::Directory)
        } else if s == "Function"@ {
            Some(NodeType::Function)
        } else if s == "Class"@ {
            Some(NodeType::Class)
        } else if s == "Interface"@ {
            Some(NodeType::Interface)
        } else if s == "DataModel"@ {
            Some(NodeType::DataModel)
        } else if s == "Trait"@ {
            Some(NodeType::Trait)
        } else if s == "Var"@ {
            Some(NodeType::Var)
        } else if s == "Import"@ {
            Some(NodeType::Import)
        } else if s == "Library"@ {
            Some(NodeType::Library)
        } else if s == "Endpoint"@ {
            Some(NodeType::Endpoint)
        } else if s == "Request"@ {
            Some(NodeType::Request)
        } else if s == "Page"@ {
            Some(NodeType::Page)
        } else if s == "Instance"@ {
            Some(NodeType::Instance)
        } else {
            None
        }
    }

    pub fn as_str(&self) -> (s: &'static str)
        ensures
            s@ == self.name(),
    {
        match self {
            NodeType::Repository => "Repository",
            NodeType::Language => "Language",
            NodeType::File => "File",
            NodeType::Directory => "Directory",
            NodeType::Function => "Function",
            NodeType::Class => "Class",
            NodeType::Interface => "Interface",
            NodeType::DataModel => "DataModel",
            NodeType::Trait => "Trait",
            NodeType::Var => "Var",
            NodeType::Import => "Import",
            NodeType::Library => "Library",
            NodeType::Endpoint => "Endpoint",
            NodeType::Request => "Request",
            NodeType::Page => "Page",
            NodeType::Instance => "Instance",
        }
    }

    /// The kind's stable ordinal.
    pub fn ordinal(&self) -> (n: u8)
        ensures
            n == self.ordinal_spec(),
            n < 16,
            NodeType::at_ordinal(n as int) == Some(*self),
    {
        match self {
            NodeType::Repository => 0,
            NodeType::Language => 1,
            NodeType::File => 2,
            NodeType::Directory => 3,
            NodeType::Function => 4,
            NodeType::Class => 5,
            NodeType::Interface => 6,
            NodeType::DataModel => 7,
            NodeType::Trait => 8,
            NodeType::Var => 9,
            NodeType::Import => 10,
            NodeType::Library => 11,
            NodeType::Endpoint => 12,
            NodeType::Request => 13,
            NodeType::Page => 14,
            NodeType::Instance => 15,
        }
    }

    /// Decodes a stored spelling. Every spelling that `as_str` gives is
    /// accepted; any other text is an unknown kind, reported with the text.
    pub fn parse(s: &str) -> (res: Result<NodeType, Error>)
        ensures
            match res {
                Ok(kind) => NodeType::from_name(s@) == Some(kind),
                Err(e) => {
                    &&& NodeType::from_name(s@) is None
                    &&& e matches Error::UnknownKind(t) && t@ == s@
                },
            },
    {
        if str_eq(s, "Repository") {
            Ok(NodeType::Repository)
        } else if str_eq(s, "Language") {
            Ok(NodeType::Language)
        } else if str_eq(s, "File") {
            Ok(NodeType::File)
        } else if str_eq(s, "Directory") {
            Ok(NodeType::Directory)
        } else if str_eq(s, "Function") {
            Ok(NodeType::Function)
        } else if str_eq(s, "Class") {
            Ok(NodeType::Class)
        } else if str_eq(s, "Interface") {
            Ok(NodeType::Interface)
        } else if str_eq(s, "DataModel") {
            Ok(NodeType::DataModel)
        } else if str_eq(s, "Trait") {
            Ok(NodeType::Trait)
        } else if str_eq(s, "Var") {
            Ok(NodeType::Var)
        } else if str_eq(s, "Import") {
            Ok(NodeType::Import)
        } else if str_eq(s, "Library") {
            Ok(NodeType::Library)
        } else if str_eq(s, "Endpoint") {
            Ok(NodeType::Endpoint)
        } else if str_eq(s, "Request") {
            Ok(NodeType::Request)
        } else if str_eq(s, "Page") {
            Ok(NodeType::Page)
        } else if str_eq(s, "Instance") {
            Ok(NodeType::Instance)
        } else {
            Err(Error::UnknownKind(s.to_owned()))
        }
    }
}

/// The kinds of edge that the graph can hold.
#[derive(Debug, Clone, Copy, PartialEq, Eq, Hash, Structural)]
pub enum EdgeType {
    Contains,
    Calls,
    Imports,
    Handler,
    Renders,
    Implements,
    Uses,
    Of,
    Operand,
}

impl EdgeType {
    /// The spelling under which the kind is stored.
    pub open spec fn name(self) -> Seq<char> {
        match self {
            EdgeType::Contains => "Contains"@,
            EdgeType::Calls => "Calls"@,
            EdgeType::Imports => "Imports"@,
            EdgeType::Handler => "Handler"@,
            EdgeType::Renders => "Renders"@,
            EdgeType::Implements => "Implements"@,
            EdgeType::Uses => "Uses"@,
            EdgeType::Of => "Of"@,
            EdgeType::Operand => "Operand"@,
        }
    }

    /// The kind's position in the declared order, from 0.
    pub open spec fn ordinal_spec(self) -> int {
        match self {
            EdgeType::Contains => 0,
            EdgeType::Calls => 1,
            EdgeType::Imports => 2,
            EdgeType::Handler => 3,
            EdgeType::Renders => 4,
            EdgeType::Implements => 5,
            EdgeType::Uses => 6,
            EdgeType::Of => 7,
            EdgeType::Operand => 8,
        }
    }

    /// The kind with the given position, if there is one.
    pub open spec fn at_ordinal(n: int) -> Option<EdgeType> {
        if n == 0 {
            Some(EdgeType::Contains)
        } else if n == 1 {
            Some(EdgeType::Calls)
        } else if n == 2 {
            Some(EdgeType::Imports)
        } else if n == 3 {
            Some(EdgeType::Handler)
        } else if n == 4 {
            Some(EdgeType::Renders)
        } else if n == 5 {
            Some(EdgeType::Implements)
        } else if n == 6 {
            Some(EdgeType::Uses)
        } else if n == 7 {
            Some(EdgeType::Of)
        } else if n == 8 {
            Some(EdgeType::Operand)
        } else {
            None
        }
    }

    /// The kind that is stored under the spelling `s`, if there is one.
    pub open spec fn from_name(s: Seq<char>) -> Option<EdgeType> {
        if s == "Contains"@ {
            Some(EdgeType::Contains)
        } else if s == "Calls"@ {
            Some(EdgeType::Calls)
        } else if s == "Imports"@ {
            Some(EdgeType::Imports)
        } else if s == "Handler"@ {
            Some(EdgeType::Handler)
        } else if s == "Renders"@ {
            Some(EdgeType::Renders)
        } else if s == "Implements"@ {
            Some(EdgeType::Implements)
        } else if s == "Uses"@ {
            Some(EdgeType::Uses)
        } else if s == "Of"@ {
            Some(EdgeType::Of)
        } else if s == "Operand"@ {
            Some(EdgeType::Operand)
        } else {
            None
        }
    }

    pub fn as_str(&self) -> (s: &'static str)
        ensures
            s@ == self.name(),
    {
        match self {
            EdgeType::Contains => "Contains",
            EdgeType::Calls => "Calls",
            EdgeType::Imports => "Imports",
            EdgeType::Handler => "Handler",
            EdgeType::Renders => "Renders",
            EdgeType::Implements => "Implements",
            EdgeType::Uses => "Uses",
            EdgeType::Of => "Of",
            EdgeType::Operand => "Operand",
        }
    }

    /// The kind's stable ordinal.
    pub fn ordinal(&self) -> (n: u8)
        ensures
            n == self.ordinal_spec(),
            n < 9,
            EdgeType::at_ordinal(n as int) == Some(*self),
    {
        match self {
            EdgeType::Contains => 0,
            EdgeType::Calls => 1,
            EdgeType::Imports => 2,
            EdgeType::Handler => 3,
            EdgeType::Renders => 4,
            EdgeType::Implements => 5,
            EdgeType::Uses => 6,
            EdgeType::Of => 7,
            EdgeType::Operand => 8,
        }
    }

    /// Decodes a stored spelling. Every spelling that `as_str` gives is
    /// accepted; any other text is an unknown kind, reported with the text.
    pub fn parse(s: &str) -> (res: Result<EdgeType, Error>)
        ensures
            match res {
                Ok(kind) => EdgeType::from_name(s@) == Some(kind),
                Err(e) => {
                    &&& EdgeType::from_name(s@) is None
                    &&& e matches Error::UnknownKind(t) && t@ == s@
                },
            },
    {
        if str_eq(s, "Contains") {
            Ok(EdgeType::Contains)
        } else if str_eq(s, "Calls") {
            Ok(EdgeType::Calls)
        } else if str_eq(s, "Imports") {
            Ok(EdgeType::Imports)
        } else if str_eq(s, "Handler") {
            Ok(EdgeType::Handler)
        } else if str_eq(s, "Renders") {
            Ok(EdgeType::Renders)
        } else if str_eq(s, "Implements") {
            Ok(EdgeType::Implements)
        } else if str_eq(s, "Uses") {
            Ok(EdgeType::Uses)
        } else if str_eq(s, "Of") {
            Ok(EdgeType::Of)
        } else if str_eq(s, "Operand") {
            Ok(EdgeType::Operand)
        } else {
            Err(Error::UnknownKind(s.to_owned()))
        }
    }
}

/// Decoding the spelling of a node kind gives that kind back, so no two
/// kinds share a spelling.
pub proof fn lemma_node_kind_round_trip(kind: NodeType)
    ensures
        NodeType::from_name(kind.name()) == Some(kind),
{
    reveal_strlit("Repository");
    reveal_strlit("Language");
    reveal_strlit("File");
    reveal_strlit("Directory");
    reveal_strlit("Function");
    reveal_strlit("Class");
    reveal_strlit("Interface");
    reveal_strlit("DataModel");
    reveal_strlit("Trait");
    reveal_strlit("Var");
    reveal_strlit("Import");
    reveal_strlit("Library");
    reveal_strlit("Endpoint");
    reveal_strlit("Request");
    reveal_strlit("Page");
    reveal_strlit("Instance");
    let s = kind.name();
    assert(s.len() >= 3);
    assert("Repository"@[2] == 'p' && "Language"@[2] == 'n' && "File"@[2] == 'l');
    assert("Directory"@[2] == 'r' && "Function"@[2] == 'n' && "Class"@[2] == 'a');
    assert("Interface"@[2] == 't' && "DataModel"@[2] == 't' && "Trait"@[2] == 'a');
    assert("Var"@[2] == 'r' && "Import"@[2] == 'p' && "Library"@[2] == 'b');
    assert("Endpoint"@[2] == 'd' && "Request"@[2] == 'q' && "Page"@[2] == 'g');
    assert("Instance"@[2] == 's');
    assert("Repository"@[0] == 'R' && "Language"@[0] == 'L' && "File"@[0] == 'F');
    assert("Directory"@[0] == 'D' && "Function"@[0] == 'F' && "Class"@[0] == 'C');
    assert("Interface"@[0] == 'I' && "DataModel"@[0] == 'D' && "Trait"@[0] == 'T');
    assert("Var"@[0] == 'V' && "Import"@[0] == 'I' && "Library"@[0] == 'L');
    assert("Endpoint"@[0] == 'E' && "Request"@[0] == 'R' && "Page"@[0] == 'P');
    assert("Instance"@[0] == 'I');
}

/// A spelling that decodes to a node kind is that kind's spelling.
pub proof fn lemma_node_kind_decoded_name(s: Seq<char>, kind: NodeType)
    requires
        NodeType::from_name(s) == Some(kind),
    ensures
        kind.name() == s,
{
}

/// Decoding the spelling of an edge kind gives that kind back, so no two
/// kinds share a spelling.
pub proof fn lemma_edge_kind_round_trip(kind: EdgeType)
    ensures
        EdgeType::from_name(kind.name()) == Some(kind),
{
    reveal_strlit("Contains");
    reveal_strlit("Calls");
    reveal_strlit("Imports");
    reveal_strlit("Handler");
    reveal_strlit("Renders");
    reveal_strlit("Implements");
    reveal_strlit("Uses");
    reveal_strlit("Of");
    reveal_strlit("Operand");
    let s = kind.name();
    assert(s.len() >= 2);
    assert("Contains"@[1] == 'o' && "Calls"@[1] == 'a' && "Imports"@[1] == 'm');
    assert("Handler"@[1] == 'a' && "Renders"@[1] == 'e' && "Implements"@[1] == 'm');
    assert("Uses"@[1] == 's' && "Of"@[1] == 'f' && "Operand"@[1] == 'p');
}

/// A spelling that decodes to an edge kind is that kind's spelling.
pub proof fn lemma_edge_kind_decoded_name(s: Seq<char>, kind: EdgeType)
    requires
        EdgeType::from_name(s) == Some(kind),
    ensures
        kind.name() == s,
{
}

/// A kind's ordinal leads back to the kind, so no two kinds share one.
pub proof fn lemma_ordinals_distinct(a: NodeType, b: NodeType, x: EdgeType, y: EdgeType)
    ensures
        NodeType::at_ordinal(a.ordinal_spec()) == Some(a),
        a.ordinal_spec() == b.ordinal_spec() ==> a == b,
        EdgeType::at_ordinal(x.ordinal_spec()) == Some(x),
        x.ordinal_spec() == y.ordinal_spec() ==> x == y,
{
}

/// One entity of the graph.
#[derive(Debug, Clone)]
pub struct Node {
    /// The primary key.
    pub id: String,
    pub node_type: NodeType,
    pub name: String,
    /// The absolute path of the file that holds the entity.
    pub file: String,
    /// The source text of the entity; empty for a synthetic node.
    pub body: String,
    pub start_line: Option<u32>,
    pub end_line: Option<u32>,
    /// Further attributes. Of two entries with one key the earlier counts.
    pub meta: Vec<(String, String)>,
}

/// One relation of the graph, between two nodes given by their ids.
#[derive(Debug, Clone)]
pub struct Edge {
    pub from_id: String,
    pub to_id: String,
    pub edge_type: EdgeType,
}

/// What a node holds, as mathematical values.
pub struct NodeView {
    pub id: Seq<char>,
    pub node_type: NodeType,
    pub name: Seq<char>,
    pub file: Seq<char>,
    pub body: Seq<char>,
    pub start_line: Option<u32>,
    pub end_line: Option<u32>,
    pub meta: Map<Seq<char>, Seq<char>>,
}

/// What an edge holds, as mathematical values.
pub struct EdgeView {
    pub from_id: Seq<char>,
    pub to_id: Seq<char>,
    pub edge_type: EdgeType,
}

/// The attributes that a list of entries stands for: of two entries with
/// one key the earlier counts.
pub open spec fn meta_map(entries: Seq<(String, String)>) -> Map<Seq<char>, Seq<char>>
    decreases entries.len(),
{
    if entries.len() == 0 {
        Map::empty()
    } else {
        meta_map(entries.drop_first()).insert(entries[0].0@, entries[0].1@)
    }
}

impl View for Node {
    type V = NodeView;

    open spec fn view(&self) -> NodeView {
        NodeView {
            id: self.id@,
            node_type: self.node_type,
            name: self.name@,
            file: self.file@,
            body: self.body@,
            start_line: self.start_line,
            end_line: self.end_line,
            meta: meta_map(self.meta@),
        }
    }
}

impl View for Edge {
    type V = EdgeView;

    open spec fn view(&self) -> EdgeView {
        EdgeView { from_id: self.from_id@, to_id: self.to_id@, edge_type: self.edge_type }
    }
}

/// The views of a list of nodes, in order.
pub open spec fn node_views(nodes: Seq<Node>) -> Seq<NodeView> {
    nodes.map_values(|n: Node| n@)
}

/// The views of a list of edges, in order.
pub open spec fn edge_views(edges: Seq<Edge>) -> Seq<EdgeView> {
    edges.map_values(|e: Edge| e@)
}

impl NodeView {
    /// Whether the id is the one that the identity scheme gives to the
    /// node's kind, name, file and lines.
    pub open spec fn has_derived_id(self) -> bool {
        self.id == node_id(self.node_type, self.name, self.file, self.start_line, self.end_line)
    }

    /// The node without body, lines or attributes, under its derived id.
    pub open spec fn fresh(kind: NodeType, name: Seq<char>, file: Seq<char>) -> NodeView {
        NodeView {
            id: node_id(kind, name, file, None, None),
            node_type: kind,
            name: name,
            file: file,
            body: Seq::empty(),
            start_line: None,
            end_line: None,
            meta: Map::empty(),
        }
    }

    /// The same node with another body.
    pub open spec fn with_body(self, body: Seq<char>) -> NodeView {
        NodeView { body: body, ..self }
    }

    /// The same node at the given lines, under the id that belongs to them.
    pub open spec fn with_lines(self, start_line: u32, end_line: u32) -> NodeView {
        NodeView {
            id: node_id(self.node_type, self.name, self.file, Some(start_line), Some(end_line)),
            start_line: Some(start_line),
            end_line: Some(end_line),
            ..self
        }
    }

    /// The same node with `value` under `key`.
    pub open spec fn with_meta(self, key: Seq<char>, value: Seq<char>) -> NodeView {
        NodeView { meta: self.meta.insert(key, value), ..self }
    }
}

impl Node {
    /// A node without body, lines or attributes, with the id of its kind,
    /// name and file.
    pub fn new(node_type: NodeType, name: String, file: String) -> (node: Node)
        ensures
            node@ == NodeView::fresh(node_type, name@, file@),
            node@.has_derived_id(),
    {
        let id = generate_id(&node_type, name.as_str(), file.as_str(), None, None);
        Node {
            id,
            node_type,
            name,
            file,
            body: String::new(),
            start_line: None,
            end_line: None,
            meta: Vec::new(),
        }
    }

    /// The same node with the given body. The id does not depend on the body.
    pub fn with_body(self, body: String) -> (node: Node)
        ensures
            node@ == self@.with_body(body@),
            self@.has_derived_id() ==> node@.has_derived_id(),
    {
        let mut node = self;
        node.body = body;
        node
    }

    /// The same node at the given lines, with the id that belongs to them.
    pub fn with_lines(self, start_line: u32, end_line: u32) -> (node: Node)
        ensures
            node@ == self@.with_lines(start_line, end_line),
            node@.has_derived_id(),
    {
        let mut node = self;
        node.start_line = Some(start_line);
        node.end_line = Some(end_line);
        node.id = generate_id(
            &node.node_type,
            node.name.as_str(),
            node.file.as_str(),
            Some(start_line),
            Some(end_line),
        );
        node
    }

    /// The same node with `value` under `key`, in place of what stood under
    /// that key before.
    pub fn with_meta(self, key: String, value: String) -> (node: Node)
        ensures
            node@ == self@.with_meta(key@, value@),
            self@.has_derived_id() ==> node@.has_derived_id(),
    {
        let mut node = self;
        let n = node.meta.len();
        let mut i: usize = 0;
        while i < n
            invariant
                n == node.meta@.len(),
                i <= n,
                forall|j: int| 0 <= j < i ==> (#[trigger] node.meta@[j]).0@ != key@,
            ensures
                i < n ==> node.meta@[i as int].0@ == key@,
            decreases n - i,
        {
            if str_eq(node.meta[i].0.as_str(), key.as_str()) {
                break;
            }
            i = i + 1;
        }
        let ghost before = node.meta@;
        if i < n {
            node.meta.set(i, (key, value));
            proof {
                lemma_meta_replace(before, i as int, key, value);
            }
        } else {
            node.meta.push((key, value));
            proof {
                lemma_meta_append(before, key, value);
            }
        }
        node
    }

    /// The value under `key`, if the node has one.
    pub fn meta_get(&self, key: &str) -> (value: Option<&String>)
        ensures
            match value {
                Some(v) => self@.meta.contains_key(key@) && self@.meta[key@] == v@,
                None => !self@.meta.contains_key(key@),
            },
    {
        let n = self.meta.len();
        let mut i: usize = 0;
        while i < n
            invariant
                n == self.meta@.len(),
                i <= n,
                forall|j: int| 0 <= j < i ==> (#[trigger] self.meta@[j]).0@ != key@,
            decreases n - i,
        {
            if str_eq(self.meta[i].0.as_str(), key) {
                proof {
                    lemma_meta_first(self.meta@, i as int);
                }
                return Some(&self.meta[i].1);
            }
            i = i + 1;
        }
        proof {
            lemma_meta_absent(self.meta@, key@);
        }
        None
    }

    /// A second node that holds what this one holds.
    pub fn duplicate(&self) -> (node: Node)
        ensures
            node@ == self@,
    {
        let mut meta: Vec<(String, String)> = Vec::new();
        let n = self.meta.len();
        let mut i: usize = 0;
        while i < n
            invariant
                n == self.meta@.len(),
                i <= n,
                meta@.len() == i,
                forall|j: int| 0 <= j < i ==> (#[trigger] meta@[j]).0@ == self.meta@[j].0@,
                forall|j: int| 0 <= j < i ==> (#[trigger] meta@[j]).1@ == self.meta@[j].1@,
            decreases n - i,
        {
            meta.push((self.meta[i].0.clone(), self.meta[i].1.clone()));
            i = i + 1;
        }
        proof {
            lemma_meta_same(meta@, self.meta@);
        }
        Node {
            id: self.id.clone(),
            node_type: self.node_type,
            name: self.name.clone(),
            file: self.file.clone(),
            body: self.body.clone(),
            start_line: self.start_line,
            end_line: self.end_line,
            meta,
        }
    }
}

impl Edge {
    /// A second edge that holds what this one holds.
    pub fn duplicate(&self) -> (edge: Edge)
        ensures
            edge@ == self@,
    {
        Edge { from_id: self.from_id.clone(), to_id: self.to_id.clone(), edge_type: self.edge_type }
    }
}

/// The first entry with a key decides what stands under that key.
pub proof fn lemma_meta_first(entries: Seq<(String, String)>, i: int)
    requires
        0 <= i < entries.len(),
        forall|j: int| 0 <= j < i ==> (#[trigger] entries[j]).0@ != entries[i].0@,
    ensures
        meta_map(entries).contains_key(entries[i].0@),
        meta_map(entries)[entries[i].0@] == entries[i].1@,
    decreases i,
{
    if i > 0 {
        let rest = entries.drop_first();
        assert forall|j: int| 0 <= j < i - 1 implies (#[trigger] rest[j]).0@ != rest[i - 1].0@ by {
            assert(rest[j] == entries[j + 1]);
        }
        lemma_meta_first(rest, i - 1);
        assert(entries[0].0@ != entries[i].0@);
    }
}

/// A key that no entry has stands for nothing.
pub proof fn lemma_meta_absent(entries: Seq<(String, String)>, key: Seq<char>)
    requires
        forall|j: int| 0 <= j < entries.len() ==> (#[trigger] entries[j]).0@ != key,
    ensures
        !meta_map(entries).contains_key(key),
    decreases entries.len(),
{
    if entries.len() > 0 {
        let rest = entries.drop_first();
        assert forall|j: int| 0 <= j < rest.len() implies (#[trigger] rest[j]).0@ != key by {
            assert(rest[j] == entries[j + 1]);
        }
        lemma_meta_absent(rest, key);
        assert(entries[0].0@ != key);
    }
}

proof fn lemma_meta_same(a: Seq<(String, String)>, b: Seq<(String, String)>)
    requires
        a.len() == b.len(),
        forall|j: int| 0 <= j < a.len() ==> (#[trigger] a[j]).0@ == b[j].0@,
        forall|j: int| 0 <= j < a.len() ==> (#[trigger] a[j]).1@ == b[j].1@,
    ensures
        meta_map(a) == meta_map(b),
    decreases a.len(),
{
    if a.len() > 0 {
        let ra = a.drop_first();
        let rb = b.drop_first();
        assert forall|j: int| 0 <= j < ra.len() implies (#[trigger] ra[j]).0@ == rb[j].0@ by {
            assert(ra[j] == a[j + 1]);
        }
        assert forall|j: int| 0 <= j < ra.len() implies (#[trigger] ra[j]).1@ == rb[j].1@ by {
            assert(ra[j] == a[j + 1]);
        }
        lemma_meta_same(ra, rb);
        assert(a[0].0@ == b[0].0@ && a[0].1@ == b[0].1@);
    }
}

proof fn lemma_meta_replace(entries: Seq<(String, String)>, i: int, key: String, value: String)
    requires
        0 <= i < entries.len(),
        entries[i].0@ == key@,
        forall|j: int| 0 <= j < i ==> (#[trigger] entries[j]).0@ != key@,
    ensures
        meta_map(entries.update(i, (key, value))) == meta_map(entries).insert(key@, value@),
    decreases i,
{
    let changed = entries.update(i, (key, value));
    if i == 0 {
        assert(changed.drop_first() =~= entries.drop_first());
        assert(meta_map(changed) =~= meta_map(entries).insert(key@, value@));
    } else {
        let rest = entries.drop_first();
        assert forall|j: int| 0 <= j < i - 1 implies (#[trigger] rest[j]).0@ != key@ by {
            assert(rest[j] == entries[j + 1]);
        }
        lemma_meta_replace(rest, i - 1, key, value);
        assert(changed.drop_first() =~= rest.update(i - 1, (key, value)));
        assert(entries[0].0@ != key@);
        assert(meta_map(changed) =~= meta_map(entries).insert(key@, value@));
    }
}

proof fn lemma_meta_append(entries: Seq<(String, String)>, key: String, value: String)
    requires
        forall|j: int| 0 <= j < entries.len() ==> (#[trigger] entries[j]).0@ != key@,
    ensures
        meta_map(entries.push((key, value))) == meta_map(entries).insert(key@, value@),
    decreases entries.len(),
{
    let grown = entries.push((key, value));
    if entries.len() == 0 {
        assert(grown.drop_first() =~= entries);
        assert(meta_map(grown) =~= meta_map(entries).insert(key@, value@));
    } else {
        let rest = entries.drop_first();
        assert forall|j: int| 0 <= j < rest.len() implies (#[trigger] rest[j]).0@ != key@ by {
            assert(rest[j] == entries[j + 1]);
        }
        lemma_meta_append(rest, key, value);
        assert(grown.drop_first() =~= rest.push((key, value)));
        assert(entries[0].0@ != key@);
        assert(meta_map(grown) =~= meta_map(entries).insert(key@, value@));
    }
}

/// Identity is a function of kind, name, file and lines: two nodes that
/// agree on these and carry derived ids carry the same id, whatever their
/// bodies and attributes.
pub proof fn lemma_same_inputs_same_id(a: NodeView, b: NodeView)
    requires
        a.has_derived_id(),
        b.has_derived_id(),
        a.node_type == b.node_type,
        a.name == b.name,
        a.file == b.file,
        a.start_line == b.start_line,
        a.end_line == b.end_line,
    ensures
        a.id == b.id,
{
}

} // verus!
