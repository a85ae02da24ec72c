//! The writes of an ingestion: which are sent to the store, in what order,
//! and with which statements.
//!
//! The removals of files that are gone come first, then the writes for the
//! synthetic nodes, then the batch of each file, and only then the edges
//! between files, so that no edge is inserted before both of its ends.

use vstd::prelude::*;
use vstd::string::*;
use crate::db::{
    delete_file_and_symbols_statements, delete_file_text, delete_symbols_text, insert_edge_statement,
    insert_edge_text, insert_node_statement, insert_node_text,
};
use crate::identity::node_id;
use crate::model::{Edge, EdgeType, EdgeView, Node, NodeType, NodeView, edge_views, node_views};
use crate::parser::{ParsedFile, ParsedView, pair_views};
use crate::text::texts;

verus! {

/// One write to the store.
#[derive(Debug)]
pub enum StoreOp {
    /// Delete what the node with this id contains, then the node itself.
    DeleteFileAndSymbols(String),
    InsertNode(Node),
    InsertEdge(Edge),
}

/// One write to the store, as mathematical values.
pub enum StoreOpView {
    DeleteFileAndSymbols(Seq<char>),
    InsertNode(NodeView),
    InsertEdge(EdgeView),
}

impl View for StoreOp {
    type V = StoreOpView;

    open spec fn view(&self) -> StoreOpView {
        match self {
            StoreOp::DeleteFileAndSymbols(id) => StoreOpView::DeleteFileAndSymbols(id@),
            StoreOp::InsertNode(node) => StoreOpView::InsertNode(node@),
            StoreOp::InsertEdge(edge) => StoreOpView::InsertEdge(edge@),
        }
    }
}

/// What a write is for, which decides how its outcome counts.
#[derive(Debug, Clone, Copy, PartialEq, Eq, Structural)]
pub enum Role {
    /// The removal of a file that version control reports as gone. A
    /// failure is tolerated.
    Removal,
    /// A write for the repository node or the language node. A failure
    /// ends the ingestion.
    Synthetic,
    /// The removal of the earlier version of a file: the first write of
    /// the file's batch.
    FileStart,
    /// The insertion of a file's node.
    FileNode,
    /// The insertion of an entity of a file. A success counts a symbol.
    Symbol,
    /// The insertion of an edge of a file's batch. A success counts an edge.
    FileEdge,
    /// The insertion of an edge between files. A success counts an edge, a
    /// failure is tolerated.
    CrossEdge,
}

/// One step of an ingestion: a write and what it is for.
#[derive(Debug)]
pub struct Step {
    pub op: StoreOp,
    pub role: Role,
}

/// One step of an ingestion, as mathematical values.
pub struct StepView {
    pub op: StoreOpView,
    pub role: Role,
}

impl View for Step {
    type V = StepView;

    open spec fn view(&self) -> StepView {
        StepView { op: self.op@, role: self.role }
    }
}

/// The views of a list of steps, in order.
pub open spec fn step_views(steps: Seq<Step>) -> Seq<StepView> {
    steps.map_values(|s: Step| s@)
}

/// The node of the file `path`: a `File` node named after the path.
pub open spec fn file_node_of(path: Seq<char>) -> NodeView {
    NodeView::fresh(NodeType::File, path, path)
}

/// The id of the node of the file `path`.
pub open spec fn file_id_of(path: Seq<char>) -> Seq<char> {
    node_id(NodeType::File, path, path, None, None)
}

/// The node of the repository rooted at `root`.
pub open spec fn repository_node_of(root: Seq<char>) -> NodeView {
    NodeView::fresh(NodeType::Repository, root, root)
}

/// The node of the language of the project rooted at `root`.
pub open spec fn language_node_of(root: Seq<char>) -> NodeView {
    NodeView::fresh(NodeType::Language, "typescript"@, root)
}

/// The step that deletes the node with the given id and what it contains.
pub open spec fn delete_step(id: Seq<char>, role: Role) -> StepView {
    StepView { op: StoreOpView::DeleteFileAndSymbols(id), role: role }
}

/// The step that inserts a node.
pub open spec fn node_step(node: NodeView, role: Role) -> StepView {
    StepView { op: StoreOpView::InsertNode(node), role: role }
}

/// The step that inserts an edge.
pub open spec fn edge_step(from_id: Seq<char>, to_id: Seq<char>, kind: EdgeType, role: Role) -> StepView {
    StepView {
        op: StoreOpView::InsertEdge(EdgeView { from_id: from_id, to_id: to_id, edge_type: kind }),
        role: role,
    }
}

/// The removals of the files that are gone: one for each path, in order.
pub open spec fn removal_steps(paths: Seq<Seq<char>>) -> Seq<StepView> {
    paths.map_values(|p: Seq<char>| delete_step(file_id_of(p), Role::Removal))
}

/// The four writes that renew the repository node and the language node:
/// each is deleted under its id, then inserted.
pub open spec fn synthetic_steps(root: Seq<char>) -> Seq<StepView> {
    seq![
        delete_step(repository_node_of(root).id, Role::Synthetic),
        node_step(repository_node_of(root), Role::Synthetic),
        delete_step(language_node_of(root).id, Role::Synthetic),
        node_step(language_node_of(root), Role::Synthetic),
    ]
}

/// The writes for the entities of a file: for each entity its insertion and
/// then that of the `Contains` edge from the file to it.
pub open spec fn symbol_steps(file_id: Seq<char>, nodes: Seq<NodeView>) -> Seq<StepView>
    decreases nodes.len(),
{
    if nodes.len() == 0 {
        Seq::empty()
    } else {
        symbol_steps(file_id, nodes.drop_last()).push(
            node_step(nodes.last(), Role::Symbol),
        ).push(edge_step(file_id, nodes.last().id, EdgeType::Contains, Role::FileEdge))
    }
}

/// The insertions of the given edges, in order, all for one purpose.
pub open spec fn edge_steps(edges: Seq<EdgeView>, role: Role) -> Seq<StepView> {
    edges.map_values(|e: EdgeView| StepView { op: StoreOpView::InsertEdge(e), role: role })
}

/// The writes for the edges between entities of a file.
pub open spec fn relation_steps(edges: Seq<EdgeView>) -> Seq<StepView> {
    edge_steps(edges, Role::FileEdge)
}

/// The batch of one file: the removal of its earlier version, its node,
/// its entities each with its `Contains` edge, its other edges.
pub open spec fn file_steps(path: Seq<char>, parsed: ParsedView) -> Seq<StepView> {
    seq![
        delete_step(file_id_of(path), Role::FileStart),
        node_step(file_node_of(path), Role::FileNode),
    ] + symbol_steps(file_id_of(path), parsed.nodes) + relation_steps(parsed.edges)
}

/// The parsed files of an ingestion, as mathematical values.
pub open spec fn file_views(files: Seq<(String, ParsedFile)>) -> Seq<(Seq<char>, ParsedView)> {
    files.map_values(|f: (String, ParsedFile)| (f.0@, f.1@))
}

/// The batches of all files, in the order of the files.
pub open spec fn all_file_steps(files: Seq<(Seq<char>, ParsedView)>) -> Seq<StepView>
    decreases files.len(),
{
    if files.len() == 0 {
        Seq::empty()
    } else {
        all_file_steps(files.drop_last()) + file_steps(files.last().0, files.last().1)
    }
}

/// The writes for the imports of one file: an `Imports` edge from the node
/// of the importing file to that of the imported file, for each pair.
pub open spec fn import_steps(pairs: Seq<(Seq<char>, Seq<char>)>) -> Seq<StepView> {
    pairs.map_values(
        |p: (Seq<char>, Seq<char>)|
            edge_step(file_id_of(p.0), file_id_of(p.1), EdgeType::Imports, Role::CrossEdge),
    )
}

/// The writes for the imports of all files, in the order of the files.
pub open spec fn all_import_steps(files: Seq<(Seq<char>, ParsedView)>) -> Seq<StepView>
    decreases files.len(),
{
    if files.len() == 0 {
        Seq::empty()
    } else {
        all_import_steps(files.drop_last()) + import_steps(files.last().1.import_edges)
    }
}

/// The writes of an ingestion, in the order in which they are sent: the
/// removals of the files that are gone, the repository and language nodes,
/// the batch of each file, and only then the edges between files. Calls
/// across files, of which none is resolved, would come last.
pub open spec fn plan_steps(
    root: Seq<char>,
    to_delete: Seq<Seq<char>>,
    files: Seq<(Seq<char>, ParsedView)>,
) -> Seq<StepView> {
    removal_steps(to_delete) + synthetic_steps(root) + all_file_steps(files) + all_import_steps(
        files,
    )
}

fn push_step(steps: &mut Vec<Step>, op: StoreOp, role: Role)
    ensures
        step_views(final(steps)@) == step_views(old(steps)@).push(StepView { op: op@, role: role }),
{
    let step = Step { op, role };
    steps.push(step);
    assert(step_views(steps@) =~= step_views(old(steps)@).push(step@));
}

/// The node of the file `path`.
pub fn file_node(path: &str) -> (node: Node)
    ensures
        node@ == file_node_of(path@),
        node@.id == file_id_of(path@),
{
    Node::new(NodeType::File, path.to_owned(), path.to_owned())
}

fn push_removals(steps: &mut Vec<Step>, paths: &Vec<String>)
    ensures
        step_views(final(steps)@) == step_views(old(steps)@) + removal_steps(texts(paths@)),
{
    let ghost start = step_views(steps@);
    let n = paths.len();
    let mut i: usize = 0;
    assert(step_views(steps@) =~= start + removal_steps(texts(paths@).take(0)));
    while i < n
        invariant
            n == paths@.len(),
            i <= n,
            step_views(steps@) == start + removal_steps(texts(paths@).take(i as int)),
        decreases n - i,
    {
        let ghost before = step_views(steps@);
        let gone = file_node(paths[i].as_str());
        push_step(steps, StoreOp::DeleteFileAndSymbols(gone.id), Role::Removal);
        assert(step_views(steps@) =~= start + removal_steps(texts(paths@).take(i as int + 1))) by {
            assert(texts(paths@).take(i as int + 1) =~= texts(paths@).take(i as int).push(
                paths@[i as int]@,
            ));
        }
        i = i + 1;
    }
    assert(texts(paths@).take(n as int) =~= texts(paths@));
}

fn push_synthetic(steps: &mut Vec<Step>, root: &str)
    ensures
        step_views(final(steps)@) == step_views(old(steps)@) + synthetic_steps(root@),
{
    let repository = Node::new(NodeType::Repository, root.to_owned(), root.to_owned());
    let language = Node::new(NodeType::Language, "typescript".to_owned(), root.to_owned());
    push_step(steps, StoreOp::DeleteFileAndSymbols(repository.id.clone()), Role::Synthetic);
    push_step(steps, StoreOp::InsertNode(repository), Role::Synthetic);
    push_step(steps, StoreOp::DeleteFileAndSymbols(language.id.clone()), Role::Synthetic);
    push_step(steps, StoreOp::InsertNode(language), Role::Synthetic);
    assert(step_views(steps@) =~= step_views(old(steps)@) + synthetic_steps(root@));
}

fn push_symbols(steps: &mut Vec<Step>, file_id: &str, nodes: &Vec<Node>)
    ensures
        step_views(final(steps)@) == step_views(old(steps)@) + symbol_steps(
            file_id@,
            node_views(nodes@),
        ),
{
    let ghost start = step_views(steps@);
    let ghost all = node_views(nodes@);
    let n = nodes.len();
    let mut i: usize = 0;
    assert(step_views(steps@) =~= start + symbol_steps(file_id@, all.take(0)));
    while i < n
        invariant
            n == nodes@.len(),
            i <= n,
            all == node_views(nodes@),
            step_views(steps@) == start + symbol_steps(file_id@, all.take(i as int)),
        decreases n - i,
    {
        proof {
            assert(all.take(i as int + 1).drop_last() =~= all.take(i as int));
            assert(all.take(i as int + 1).last() == nodes@[i as int]@);
        }
        let node = nodes[i].duplicate();
        let contains = Edge {
            from_id: file_id.to_owned(),
            to_id: node.id.clone(),
            edge_type: EdgeType::Contains,
        };
        push_step(steps, StoreOp::InsertNode(node), Role::Symbol);
        push_step(steps, StoreOp::InsertEdge(contains), Role::FileEdge);
        assert(step_views(steps@) =~= start + symbol_steps(file_id@, all.take(i as int + 1)));
        i = i + 1;
    }
    assert(all.take(n as int) =~= all);
}

fn push_edges(steps: &mut Vec<Step>, edges: &Vec<Edge>, role: Role)
    ensures
        step_views(final(steps)@) == step_views(old(steps)@) + edge_steps(edge_views(edges@), role),
{
    let ghost start = step_views(steps@);
    let ghost all = edge_views(edges@);
    let n = edges.len();
    let mut i: usize = 0;
    assert(step_views(steps@) =~= start + edge_steps(all.take(0), role));
    while i < n
        invariant
            n == edges@.len(),
            i <= n,
            all == edge_views(edges@),
            step_views(steps@) == start + edge_steps(all.take(i as int), role),
        decreases n - i,
    {
        let edge = edges[i].duplicate();
        push_step(steps, StoreOp::InsertEdge(edge), role);
        assert(step_views(steps@) =~= start + edge_steps(all.take(i as int + 1), role)) by {
            assert(all.take(i as int + 1) =~= all.take(i as int).push(edges@[i as int]@));
        }
        i = i + 1;
    }
    assert(all.take(n as int) =~= all);
}

fn push_file(steps: &mut Vec<Step>, path: &str, parsed: &ParsedFile)
    ensures
        step_views(final(steps)@) == step_views(old(steps)@) + file_steps(path@, parsed@),
{
    let file = file_node(path);
    let file_id = file.id.clone();
    push_step(steps, StoreOp::DeleteFileAndSymbols(file.id.clone()), Role::FileStart);
    push_step(steps, StoreOp::InsertNode(file), Role::FileNode);
    push_symbols(steps, file_id.as_str(), &parsed.nodes);
    push_edges(steps, &parsed.edges, Role::FileEdge);
    assert(step_views(steps@) =~= step_views(old(steps)@) + file_steps(path@, parsed@));
}

fn push_imports(steps: &mut Vec<Step>, pairs: &Vec<(String, String)>)
    ensures
        step_views(final(steps)@) == step_views(old(steps)@) + import_steps(pair_views(pairs@)),
{
    let ghost start = step_views(steps@);
    let ghost all = pair_views(pairs@);
    let n = pairs.len();
    let mut i: usize = 0;
    assert(step_views(steps@) =~= start + import_steps(all.take(0)));
    while i < n
        invariant
            n == pairs@.len(),
            i <= n,
            all == pair_views(pairs@),
            step_views(steps@) == start + import_steps(all.take(i as int)),
        decreases n - i,
    {
        let from = file_node(pairs[i].0.as_str());
        let to = file_node(pairs[i].1.as_str());
        let edge = Edge { from_id: from.id, to_id: to.id, edge_type: EdgeType::Imports };
        push_step(steps, StoreOp::InsertEdge(edge), Role::CrossEdge);
        assert(step_views(steps@) =~= start + import_steps(all.take(i as int + 1))) by {
            assert(all.take(i as int + 1) =~= all.take(i as int).push(
                (pairs@[i as int].0@, pairs@[i as int].1@),
            ));
        }
        i = i + 1;
    }
    assert(all.take(n as int) =~= all);
}

/// The writes of an ingestion of the project rooted at `root` that deletes
/// the files `to_delete` and takes the parsed files `files`, each with its
/// path.
pub fn plan_writes(root: &str, to_delete: &Vec<String>, files: &Vec<(String, ParsedFile)>) -> (steps:
    Vec<Step>)
    ensures
        step_views(steps@) == plan_steps(root@, texts(to_delete@), file_views(files@)),
{
    let ghost all = file_views(files@);
    let mut steps: Vec<Step> = Vec::new();
    assert(step_views(steps@) =~= Seq::<StepView>::empty());
    push_removals(&mut steps, to_delete);
    push_synthetic(&mut steps, root);
    let ghost head = step_views(steps@);
    assert(head =~= removal_steps(texts(to_delete@)) + synthetic_steps(root@));
    let n = files.len();
    let mut i: usize = 0;
    assert(step_views(steps@) =~= head + all_file_steps(all.take(0)));
    while i < n
        invariant
            n == files@.len(),
            i <= n,
            all == file_views(files@),
            step_views(steps@) == head + all_file_steps(all.take(i as int)),
        decreases n - i,
    {
        proof {
            assert(all.take(i as int + 1).drop_last() =~= all.take(i as int));
            assert(all.take(i as int + 1).last() == (files@[i as int].0@, files@[i as int].1@));
        }
        push_file(&mut steps, files[i].0.as_str(), &files[i].1);
        assert(step_views(steps@) =~= head + all_file_steps(all.take(i as int + 1)));
        i = i + 1;
    }
    assert(all.take(n as int) =~= all);
    let ghost body = step_views(steps@);
    let mut k: usize = 0;
    assert(step_views(steps@) =~= body + all_import_steps(all.take(0)));
    while k < n
        invariant
            n == files@.len(),
            k <= n,
            all == file_views(files@),
            step_views(steps@) == body + all_import_steps(all.take(k as int)),
        decreases n - k,
    {
        proof {
            assert(all.take(k as int + 1).drop_last() =~= all.take(k as int));
            assert(all.take(k as int + 1).last() == (files@[k as int].0@, files@[k as int].1@));
        }
        push_imports(&mut steps, &files[k].1.import_edges);
        assert(step_views(steps@) =~= body + all_import_steps(all.take(k as int + 1)));
        k = k + 1;
    }
    assert(all.take(n as int) =~= all);
    let symbol_map = build_symbol_map(files);
    let import_map: Vec<ImportBinding> = Vec::new();
    let cross_file_calls = resolve_cross_file_calls(&symbol_map, &import_map);
    let ghost planned = step_views(steps@);
    push_edges(&mut steps, &cross_file_calls, Role::CrossEdge);
    assert(step_views(steps@) =~= planned);
    steps
}

/// The statements that perform a write, in the order in which they are to
/// be run: the two of the cascade for a deletion, one for an insertion.
pub open spec fn statements_of(op: StoreOpView) -> Seq<Seq<char>> {
    match op {
        StoreOpView::DeleteFileAndSymbols(id) => seq![delete_symbols_text(id), delete_file_text(id)],
        StoreOpView::InsertNode(node) => seq![insert_node_text(node)],
        StoreOpView::InsertEdge(edge) => seq![insert_edge_text(edge)],
    }
}

impl StoreOp {
    /// The statements that perform the write. The write has succeeded
    /// where every one of them has.
    pub fn statements(&self) -> (qs: Vec<String>)
        ensures
            texts(qs@) == statements_of(self@),
    {
        let mut qs: Vec<String> = Vec::new();
        match self {
            StoreOp::DeleteFileAndSymbols(id) => {
                let (symbols, file) = delete_file_and_symbols_statements(id.as_str());
                qs.push(symbols);
                qs.push(file);
            },
            StoreOp::InsertNode(node) => {
                qs.push(insert_node_statement(node));
            },
            StoreOp::InsertEdge(edge) => {
                qs.push(insert_edge_statement(edge));
            },
        }
        assert(texts(qs@) =~= statements_of(self@));
        qs
    }
}

/// One entry of the symbol map: a function or class, under its name and
/// the file that defines it.
#[derive(Debug)]
pub struct Symbol {
    pub name: String,
    pub file: String,
    pub node: Node,
}

/// One entry of the import map: the file from which a file imports a
/// name.
#[derive(Debug)]
pub struct ImportBinding {
    pub file: String,
    pub symbol: String,
    pub source_file: String,
}

/// One entry of the symbol map, as mathematical values.
pub struct SymbolView {
    pub name: Seq<char>,
    pub file: Seq<char>,
    pub node: NodeView,
}

impl View for Symbol {
    type V = SymbolView;

    open spec fn view(&self) -> SymbolView {
        SymbolView { name: self.name@, file: self.file@, node: self.node@ }
    }
}

/// The views of a list of symbols, in order.
pub open spec fn symbol_views(symbols: Seq<Symbol>) -> Seq<SymbolView> {
    symbols.map_values(|s: Symbol| s@)
}

/// The symbols of one file: its functions and classes, in order, each
/// under its name and the file's path.
pub open spec fn symbols_of_file(path: Seq<char>, nodes: Seq<NodeView>) -> Seq<SymbolView>
    decreases nodes.len(),
{
    if nodes.len() == 0 {
        Seq::empty()
    } else {
        let before = symbols_of_file(path, nodes.drop_last());
        let node = nodes.last();
        if node.node_type == NodeType::Function || node.node_type == NodeType::Class {
            before.push(SymbolView { name: node.name, file: path, node: node })
        } else {
            before
        }
    }
}

/// The symbols of all files, in the order of the files. Of two entries
/// with the same name and file the later is the one that a lookup finds.
pub open spec fn symbols_of(files: Seq<(Seq<char>, ParsedView)>) -> Seq<SymbolView>
    decreases files.len(),
{
    if files.len() == 0 {
        Seq::empty()
    } else {
        symbols_of(files.drop_last()) + symbols_of_file(files.last().0, files.last().1.nodes)
    }
}

fn push_symbols_of_file(symbols: &mut Vec<Symbol>, path: &str, nodes: &Vec<Node>)
    ensures
        symbol_views(final(symbols)@) == symbol_views(old(symbols)@) + symbols_of_file(
            path@,
            node_views(nodes@),
        ),
{
    let ghost start = symbol_views(symbols@);
    let ghost all = node_views(nodes@);
    let n = nodes.len();
    let mut i: usize = 0;
    assert(symbol_views(symbols@) =~= start + symbols_of_file(path@, all.take(0)));
    while i < n
        invariant
            n == nodes@.len(),
            i <= n,
            all == node_views(nodes@),
            symbol_views(symbols@) == start + symbols_of_file(path@, all.take(i as int)),
        decreases n - i,
    {
        proof {
            assert(all.take(i as int + 1).drop_last() =~= all.take(i as int));
            assert(all.take(i as int + 1).last() == nodes@[i as int]@);
        }
        let ghost before = symbols@;
        if nodes[i].node_type == NodeType::Function || nodes[i].node_type == NodeType::Class {
            let symbol = Symbol {
                name: nodes[i].name.clone(),
                file: path.to_owned(),
                node: nodes[i].duplicate(),
            };
            symbols.push(symbol);
            assert(symbol_views(symbols@) =~= symbol_views(before).push(symbol@));
        }
        i = i + 1;
    }
    assert(all.take(n as int) =~= all);
}

/// The symbol map of an ingestion: the functions and classes of all parsed
/// files.
pub fn build_symbol_map(files: &Vec<(String, ParsedFile)>) -> (symbols: Vec<Symbol>)
    ensures
        symbol_views(symbols@) == symbols_of(file_views(files@)),
{
    let ghost all = file_views(files@);
    let mut symbols: Vec<Symbol> = Vec::new();
    let n = files.len();
    let mut i: usize = 0;
    assert(symbol_views(symbols@) =~= symbols_of(all.take(0)));
    while i < n
        invariant
            n == files@.len(),
            i <= n,
            all == file_views(files@),
            symbol_views(symbols@) == symbols_of(all.take(i as int)),
        decreases n - i,
    {
        proof {
            assert(all.take(i as int + 1).drop_last() =~= all.take(i as int));
            assert(all.take(i as int + 1).last() == (files@[i as int].0@, files@[i as int].1@));
        }
        push_symbols_of_file(&mut symbols, files[i].0.as_str(), &files[i].1.nodes);
        i = i + 1;
    }
    assert(all.take(n as int) =~= all);
    symbols
}

/// The `Calls` edges from a file to what it imports. Call sites that name
/// nothing in their own file are not kept by the parser, and no import
/// binds a name yet, so there is none to resolve: the result is empty.
pub fn resolve_cross_file_calls(symbol_map: &Vec<Symbol>, import_map: &Vec<ImportBinding>) -> (edges:
    Vec<Edge>)
    ensures
        edges@.len() == 0,
{
    Vec::new()
}

/// The batch of a file replaces the file: its first write deletes the node
/// with the file's id and what that node contains, its second inserts the
/// file's node under that same id. So does each pair of writes for a
/// synthetic node.
pub proof fn lemma_batch_replaces_file(root: Seq<char>, path: Seq<char>, parsed: ParsedView)
    ensures
        file_steps(path, parsed).len() >= 2,
        file_steps(path, parsed)[0] == delete_step(file_id_of(path), Role::FileStart),
        file_steps(path, parsed)[1] == node_step(file_node_of(path), Role::FileNode),
        file_node_of(path).id == file_id_of(path),
        file_node_of(path).has_derived_id(),
        synthetic_steps(root)[0].op == StoreOpView::DeleteFileAndSymbols(
            repository_node_of(root).id,
        ),
        synthetic_steps(root)[1].op == StoreOpView::InsertNode(repository_node_of(root)),
        synthetic_steps(root)[2].op == StoreOpView::DeleteFileAndSymbols(language_node_of(root).id),
        synthetic_steps(root)[3].op == StoreOpView::InsertNode(language_node_of(root)),
{
}

/// In the writes for the entities of a file, every entity is followed at
/// once by the `Contains` edge from the file to it.
pub proof fn lemma_contains_edge_follows_entity(file_id: Seq<char>, nodes: Seq<NodeView>, i: int)
    requires
        0 <= i < nodes.len(),
    ensures
        symbol_steps(file_id, nodes).len() == 2 * nodes.len(),
        symbol_steps(file_id, nodes)[2 * i] == node_step(nodes[i], Role::Symbol),
        symbol_steps(file_id, nodes)[2 * i + 1] == edge_step(
            file_id,
            nodes[i].id,
            EdgeType::Contains,
            Role::FileEdge,
        ),
    decreases nodes.len(),
{
    lemma_symbol_steps_len(file_id, nodes);
    lemma_symbol_steps_len(file_id, nodes.drop_last());
    if i < nodes.len() - 1 {
        lemma_contains_edge_follows_entity(file_id, nodes.drop_last(), i);
    }
}

/// There are two writes for each entity of a file.
pub proof fn lemma_symbol_steps_len(file_id: Seq<char>, nodes: Seq<NodeView>)
    ensures
        symbol_steps(file_id, nodes).len() == 2 * nodes.len(),
    decreases nodes.len(),
{
    if nodes.len() > 0 {
        lemma_symbol_steps_len(file_id, nodes.drop_last());
    }
}

} // verus!
