use vstd::prelude::*;

use crate::routes::{Reply, ReplyBody};

verus! {

/// The path of the health check, which needs no token.
pub const HEALTH_CHECK_PATH: &'static str = "/health";

/// GET /health: always healthy.
pub fn health_check() -> (reply: Reply)
    ensures
        reply.status == 200,
        reply.body == ReplyBody::Healthy,
{
    Reply { status: 200, body: ReplyBody::Healthy }
}

} // verus!
