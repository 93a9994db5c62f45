//! Values the client hands to its callers.

use vstd::prelude::*;

verus! {

/// Errors of client operations.
#[derive(Debug)]
pub enum OpcError {
    /// A COM call failed with HRESULT `code`; `message` is its text.
    Com { code: i32, message: String },
    /// The server is unreachable or stopped answering.
    Connection(String),
    /// The server lacks the interface the operation needs.
    NotImplemented(String),
    /// The operation names a subscription or state that does not exist.
    InvalidState(String),
    /// The server or worker broke an invariant of the protocol.
    Internal(String),
}

/// Whether `err` says that the server connection is dead (a COM error with
/// one of the RPC-unavailable codes): the cached connection must be
/// evicted and re-established.
pub open spec fn is_connection_failure(err: OpcError) -> bool {
    err matches OpcError::Com { code, .. } && crate::hresult::is_connection_hresult(code)
}

/// Executable form of [`is_connection_failure`].
pub fn is_connection_error(err: &OpcError) -> (r: bool)
    ensures
        r == is_connection_failure(*err),
{
    match err {
        OpcError::Com { code, .. } => crate::hresult::is_connection_code(*code),
        _ => false,
    }
}

/// One tag's read result, all fields display strings.
#[derive(Debug)]
pub struct TagValue {
    pub tag_id: String,
    pub value: String,
    pub data_type: String,
    pub quality: String,
    pub timestamp: String,
}

/// Result of one write.
#[derive(Debug)]
pub struct WriteResult {
    pub tag_id: String,
    pub success: bool,
    pub error: Option<String>,
}

/// One property of an item.
pub struct ItemProperty {
    pub id: u32,
    pub description: String,
    pub data_type: u16,
    pub value: String,
}

/// A direct child branch of a namespace node.
pub struct BranchNode {
    pub id: String,
    pub name: String,
}

/// A direct leaf of a namespace node.
pub struct LeafNode {
    pub item_id: String,
    pub name: String,
}

/// The direct children of one namespace node.
pub struct BrowseChildren {
    pub branches: Vec<BranchNode>,
    pub leaves: Vec<LeafNode>,
}

/// A server found by enumeration.
#[derive(Debug)]
pub struct ServerDesc {
    pub prog_id: String,
    pub clsid: String,
    pub user_type: Option<String>,
}

/// Plain view of a tag value: `(tag_id, value, data_type, quality, timestamp)`.
pub open spec fn tag_value_view(t: TagValue) -> (Seq<char>, Seq<char>, Seq<char>, Seq<char>, Seq<char>) {
    (t.tag_id@, t.value@, t.data_type@, t.quality@, t.timestamp@)
}

/// Plain view of a write result: `(tag_id, success, error)`.
pub open spec fn write_result_view(w: WriteResult) -> (Seq<char>, bool, Option<Seq<char>>) {
    (w.tag_id@, w.success, match w.error {
        Some(e) => Some(e@),
        None => None,
    })
}

} // verus!
