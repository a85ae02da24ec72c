//! The query surface: search for symbols by name and reverse call lookup.
//! The statements are built and the rows decoded here; running them is the
//! store's part.

use vstd::prelude::*;
use vstd::string::*;
use crate::db::{Value, cell_text, escape_kuzu_string, escape_text, node_from_row, node_of_row, text_at};
use crate::error::Error;
use crate::model::{Node, NodeType};
use crate::text::{decimal, push_digits};

verus! {

/// Whether a character has a meaning of its own in a regular expression.
pub open spec fn is_meta_character(c: char) -> bool {
    c == '\\' || c == '.' || c == '+' || c == '*' || c == '?' || c == '(' || c == ')' || c == '|'
        || c == '[' || c == ']' || c == '{' || c == '}' || c == '^' || c == '$' || c == '#' || c
        == '&' || c == '-' || c == '~'
}

/// A text with a backslash before each of its meta characters.
pub open spec fn regex_escaped(s: Seq<char>) -> Seq<char>
    decreases s.len(),
{
    if s.len() == 0 {
        Seq::empty()
    } else if is_meta_character(s.last()) {
        regex_escaped(s.drop_last()).push('\\').push(s.last())
    } else {
        regex_escaped(s.drop_last()).push(s.last())
    }
}

/// Calls `regex::escape`, which copies the text character by character and
/// puts a backslash before each of `\ . + * ? ( ) | [ ] { } ^ $ # & - ~`.
#[verifier::external_body]
fn regex_escape(pattern: &str) -> (escaped: String)
    ensures
        escaped@ == regex_escaped(pattern@),
{
    regex::escape(pattern)
}

/// The text that limits a query to `limit` rows; empty without a limit.
pub open spec fn limit_clause(limit: Option<usize>) -> Seq<char> {
    match limit {
        Some(l) => " LIMIT "@ + decimal(l as int),
        None => Seq::empty(),
    }
}

/// The query that finds the nodes whose name contains `pattern`, letter
/// case aside, ordered by name. The pattern is taken literally: it is
/// escaped for the regular expression, and that for the quoted string.
pub open spec fn find_symbol_text(pattern: Seq<char>, limit: Option<usize>) -> Seq<char> {
    "MATCH (n:Node) WHERE n.name =~ '(?i).*"@ + escape_text(regex_escaped(pattern))
        + ".*' RETURN n.id, n.node_type, n.name, n.file, n.body, n.start_line, n.end_line ORDER BY n.name"@
        + limit_clause(limit)
}

/// The query that finds the callers of the nodes named `symbol` or with the
/// id `symbol`, ordered by the caller's name. A row holds the caller's
/// seven columns and the callee's name.
pub open spec fn find_callers_text(symbol: Seq<char>) -> Seq<char> {
    "MATCH (caller:Node)-[e:Edge {edge_type: 'Calls'}]->(callee:Node) WHERE callee.name = '"@
        + escape_text(symbol) + "' OR callee.id = '"@ + escape_text(symbol)
        + "' RETURN caller.id, caller.node_type, caller.name, caller.file, caller.body, caller.start_line, caller.end_line, callee.name ORDER BY caller.name"@
}

/// The statement of a search for symbols.
pub fn find_symbol_statement(pattern: &str, limit: Option<usize>) -> (q: String)
    ensures
        q@ == find_symbol_text(pattern@, limit),
{
    let literal = regex_escape(pattern);
    let quoted = escape_kuzu_string(literal.as_str());
    let mut q = String::new();
    q.append("MATCH (n:Node) WHERE n.name =~ '(?i).*");
    q.append(quoted.as_str());
    q.append(
        ".*' RETURN n.id, n.node_type, n.name, n.file, n.body, n.start_line, n.end_line ORDER BY n.name",
    );
    match limit {
        Some(l) => {
            q.append(" LIMIT ");
            push_digits(&mut q, l as u64);
        },
        None => {},
    }
    assert(q@ =~= find_symbol_text(pattern@, limit));
    q
}

/// The statement of a reverse call lookup.
pub fn find_callers_statement(symbol: &str) -> (q: String)
    ensures
        q@ == find_callers_text(symbol@),
{
    let quoted = escape_kuzu_string(symbol);
    let mut q = String::new();
    q.append(
        "MATCH (caller:Node)-[e:Edge {edge_type: 'Calls'}]->(callee:Node) WHERE callee.name = '",
    );
    q.append(quoted.as_str());
    q.append("' OR callee.id = '");
    q.append(quoted.as_str());
    q.append(
        "' RETURN caller.id, caller.node_type, caller.name, caller.file, caller.body, caller.start_line, caller.end_line, callee.name ORDER BY caller.name",
    );
    assert(q@ =~= find_callers_text(symbol@));
    q
}

/// The kind that a row's kind column spells, if it spells one.
pub open spec fn row_kind(row: Seq<Value>) -> Option<NodeType> {
    NodeType::from_name(cell_text(row, 1))
}

/// Whether `e` reports the spelling `spelling` as that of no kind.
pub open spec fn is_unknown_kind(e: Error, spelling: Seq<char>) -> bool {
    e matches Error::UnknownKind(t) && t@ == spelling
}

/// Whether row `i` is the first of `rows` whose kind is unknown, and `e`
/// reports its spelling.
pub open spec fn first_unknown_row(rows: Seq<Vec<Value>>, i: int, e: Error) -> bool {
    &&& 0 <= i < rows.len()
    &&& row_kind(rows[i]@) is None
    &&& forall|j: int| 0 <= j < i ==> row_kind(#[trigger] rows[j]@) is Some
    &&& is_unknown_kind(e, cell_text(rows[i]@, 1))
}

/// Decodes a row of seven columns (id, kind, name, file, body, start line,
/// end line). The kind is read from the row; a spelling that belongs to no
/// kind is an `UnknownKind` error that carries the spelling.
pub fn parse_node_from_row(row: &[Value]) -> (res: Result<Node, Error>)
    ensures
        match row_kind(row@) {
            Some(kind) => res matches Ok(node) && node@ == node_of_row(row@, kind),
            None => res matches Err(e) && is_unknown_kind(e, cell_text(row@, 1)),
        },
{
    let spelling = text_at(row, 1);
    match NodeType::parse(spelling.as_str()) {
        Ok(kind) => Ok(node_from_row(row, kind)),
        Err(e) => Err(e),
    }
}

/// Decodes the rows of a search for symbols, in order. Fails on the first
/// row whose kind is unknown.
pub fn nodes_from_symbol_rows(rows: &Vec<Vec<Value>>) -> (res: Result<Vec<Node>, Error>)
    ensures
        match res {
            Ok(nodes) => {
                &&& nodes@.len() == rows@.len()
                &&& forall|i: int|
                    0 <= i < rows@.len() ==> {
                        &&& row_kind(rows@[i]@) is Some
                        &&& (#[trigger] nodes@[i])@ == node_of_row(
                            rows@[i]@,
                            row_kind(rows@[i]@)->0,
                        )
                    }
            },
            Err(e) => exists|i: int| first_unknown_row(rows@, i, e),
        },
{
    let mut nodes: Vec<Node> = Vec::new();
    let n = rows.len();
    let mut i: usize = 0;
    while i < n
        invariant
            n == rows@.len(),
            i <= n,
            nodes@.len() == i,
            forall|j: int| 0 <= j < i ==> row_kind(#[trigger] rows@[j]@) is Some,
            forall|j: int|
                0 <= j < i ==> {
                    &&& row_kind(rows@[j]@) is Some
                    &&& (#[trigger] nodes@[j])@ == node_of_row(
                        rows@[j]@,
                        row_kind(rows@[j]@)->0,
                    )
                },
        decreases n - i,
    {
        match parse_node_from_row(rows[i].as_slice()) {
            Ok(node) => {
                nodes.push(node);
            },
            Err(e) => {
                assert(first_unknown_row(rows@, i as int, e));
                return Err(e);
            },
        }
        i = i + 1;
    }
    Ok(nodes)
}

/// Decodes the rows of a reverse call lookup, in order: each the calling
/// node and the name of what it calls. Fails on the first row whose kind is
/// unknown.
pub fn callers_from_rows(rows: &Vec<Vec<Value>>) -> (res: Result<Vec<(Node, String)>, Error>)
    ensures
        match res {
            Ok(callers) => {
                &&& callers@.len() == rows@.len()
                &&& forall|i: int|
                    0 <= i < rows@.len() ==> {
                        &&& row_kind(rows@[i]@) is Some
                        &&& (#[trigger] callers@[i]).0@ == node_of_row(
                            rows@[i]@,
                            row_kind(rows@[i]@)->0,
                        )
                        &&& callers@[i].1@ == cell_text(rows@[i]@, 7)
                    }
            },
            Err(e) => exists|i: int| first_unknown_row(rows@, i, e),
        },
{
    let mut callers: Vec<(Node, String)> = Vec::new();
    let n = rows.len();
    let mut i: usize = 0;
    while i < n
        invariant
            n == rows@.len(),
            i <= n,
            callers@.len() == i,
            forall|j: int| 0 <= j < i ==> row_kind(#[trigger] rows@[j]@) is Some,
            forall|j: int|
                0 <= j < i ==> {
                    &&& row_kind(rows@[j]@) is Some
                    &&& (#[trigger] callers@[j]).0@ == node_of_row(
                        rows@[j]@,
                        row_kind(rows@[j]@)->0,
                    )
                    &&& callers@[j].1@ == cell_text(rows@[j]@, 7)
                },
        decreases n - i,
    {
        match parse_node_from_row(rows[i].as_slice()) {
            Ok(node) => {
                let callee = text_at(rows[i].as_slice(), 7);
                callers.push((node, callee));
            },
            Err(e) => {
                assert(first_unknown_row(rows@, i as int, e));
                return Err(e);
            },
        }
        i = i + 1;
    }
    Ok(callers)
}

} // verus!
