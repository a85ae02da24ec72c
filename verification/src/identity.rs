//! Content-addressed node identities.
//!
//! A node's id is the BLAKE3 digest, in lowercase hexadecimal, of its kind's
//! spelling, its name, its file and, where it has them, its two line numbers
//! as four little-endian bytes each, in this order.

use vstd::prelude::*;
use vstd::bytes::*;
use vstd::string::*;
use vstd::utf8::*;
use crate::model::NodeType;

verus! {

/// The BLAKE3 digest of `data`, default 32-byte output, as 64 lowercase
/// hexadecimal characters.
pub uninterp spec fn blake3_hex(data: Seq<u8>) -> Seq<char>;

/// A digit or one of the letters `a` to `f`.
pub open spec fn is_lower_hex(c: char) -> bool {
    ('0' <= c && c <= '9') || ('a' <= c && c <= 'f')
}

/// The bytes that a line number adds to the hashed input: four, little end
/// first, or none where the node has no such line.
pub open spec fn line_bytes(line: Option<u32>) -> Seq<u8> {
    match line {
        Some(l) => spec_u32_to_le_bytes(l),
        None => Seq::empty(),
    }
}

/// The input that is hashed for a node's id.
pub open spec fn identity_bytes(
    kind: NodeType,
    name: Seq<char>,
    file: Seq<char>,
    start_line: Option<u32>,
    end_line: Option<u32>,
) -> Seq<u8> {
    encode_utf8(kind.name()) + encode_utf8(name) + encode_utf8(file) + line_bytes(start_line)
        + line_bytes(end_line)
}

/// The id of the node with the given kind, name, file and lines.
pub open spec fn node_id(
    kind: NodeType,
    name: Seq<char>,
    file: Seq<char>,
    start_line: Option<u32>,
    end_line: Option<u32>,
) -> Seq<char> {
    blake3_hex(identity_bytes(kind, name, file, start_line, end_line))
}

/// Calls `blake3::hash` on `data` and `Hash::to_hex` on the digest. The
/// contract names the result and states its shape: `to_hex` writes two
/// characters of `0123456789abcdef` for each of the 32 digest bytes.
#[verifier::external_body]
fn digest_hex(data: &[u8]) -> (hex: String)
    ensures
        hex@ == blake3_hex(data@),
        hex@.len() == 64,
        forall|i: int| 0 <= i < 64 ==> is_lower_hex(#[trigger] hex@[i]),
{
    blake3::hash(data).to_hex().to_string()
}

fn append_bytes(data: &mut Vec<u8>, more: &[u8])
    ensures
        final(data)@ == old(data)@ + more@,
{
    data.extend_from_slice(more);
    assert(data@ =~= old(data)@ + more@);
}

fn append_line(data: &mut Vec<u8>, line: Option<u32>)
    ensures
        final(data)@ == old(data)@ + line_bytes(line),
{
    match line {
        Some(l) => {
            let four = u32_to_le_bytes(l);
            append_bytes(data, four.as_slice());
        },
        None => {
            assert(data@ =~= old(data)@ + line_bytes(line));
        },
    }
}

/// Computes the id of the node with the given kind, name, file and lines.
pub fn generate_id(
    node_type: &NodeType,
    name: &str,
    file: &str,
    start_line: Option<u32>,
    end_line: Option<u32>,
) -> (id: String)
    ensures
        id@ == node_id(*node_type, name@, file@, start_line, end_line),
        id@.len() == 64,
        forall|i: int| 0 <= i < 64 ==> is_lower_hex(#[trigger] id@[i]),
{
    let mut data: Vec<u8> = Vec::new();
    append_bytes(&mut data, node_type.as_str().as_bytes());
    append_bytes(&mut data, name.as_bytes());
    append_bytes(&mut data, file.as_bytes());
    append_line(&mut data, start_line);
    append_line(&mut data, end_line);
    assert(data@ =~= identity_bytes(*node_type, name@, file@, start_line, end_line));
    digest_hex(data.as_slice())
}

} // verus!
