use vstd::prelude::*;

pub mod artifacts;
pub mod health_check;

verus! {

/// What a reply carries in its body.
#[derive(Debug, Clone, Copy, PartialEq, Eq)]
pub enum ReplyBody {
    /// `{"error": message}`
    Error(&'static str),
    /// `{"success": true}`
    Success,
    /// `{"status": "healthy"}`
    Healthy,
    /// The artifact's bytes, streamed as `application/octet-stream`.
    Artifact,
}

/// An HTTP reply: its status code and what its body carries.
#[derive(Debug, Clone, Copy, PartialEq, Eq)]
pub struct Reply {
    pub status: u16,
    pub body: ReplyBody,
}

/// `reply` has status `status` and the body `{"error": message}`.
pub open spec fn is_error_reply(reply: Reply, status: u16, message: Seq<char>) -> bool {
    &&& reply.status == status
    &&& reply.body matches ReplyBody::Error(text)
    &&& text@ == message
}

} // verus!
