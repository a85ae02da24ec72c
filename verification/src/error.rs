//! The failures that the library reports.

use vstd::prelude::*;

verus! {

/// Why an operation of the library failed.
#[derive(Debug, PartialEq, Eq)]
pub enum Error {
    /// Filesystem access failed; the text says where.
    Io(String),
    /// The version-control probe failed or its output was malformed.
    Vcs(String),
    /// The grammar produced no tree for the named file.
    Parse(String),
    /// The graph engine returned a failure.
    Store(String),
    /// A stored kind name that belongs to no node or edge kind.
    UnknownKind(String),
}

impl Error {
    /// A one-line description: a label for the variant, then the detail.
    pub open spec fn message_spec(self) -> Seq<char> {
        match self {
            Error::Io(s) => "I/O error: "@ + s@,
            Error::Vcs(s) => "Version control error: "@ + s@,
            Error::Parse(s) => "Failed to parse file: "@ + s@,
            Error::Store(s) => "Store error: "@ + s@,
            Error::UnknownKind(s) => "Unknown node type: "@ + s@,
        }
    }

    pub fn message(&self) -> (out: String)
        ensures
            out@ == self.message_spec(),
    {
        let (label, detail) = match self {
            Error::Io(s) => ("I/O error: ", s),
            Error::Vcs(s) => ("Version control error: ", s),
            Error::Parse(s) => ("Failed to parse file: ", s),
            Error::Store(s) => ("Store error: ", s),
            Error::UnknownKind(s) => ("Unknown node type: ", s),
        };
        let mut out = String::new();
        out.append(label);
        out.append(detail.as_str());
        assert(out@ =~= label@ + detail@);
        out
    }
}

} // verus!
