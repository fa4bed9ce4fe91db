use vstd::prelude::*;

use crate::app_settings::{TokenPermission, TokenStore};
use crate::auth::bearer_token::{
    authentication, lemma_bearer_scheme_spellings, AuthFailure, AuthenticatedToken,
};
use crate::routes::{is_error_reply, Reply, ReplyBody};
use crate::storage::{is_connection_failure, StorageError};

use s3::error::S3Error;

verus! {

/// The path parameters of the artifact routes.
pub struct ArtifactPath {
    pub cache_id: String,
}

/// Whether a PUT made with `auth` may write: only a read-write token may.
pub open spec fn write_allowed(auth: Option<AuthenticatedToken>) -> bool {
    auth matches Some(a) && a.permission == TokenPermission::ReadWrite
}

/// The token that a request carries, if any, as a value.
pub open spec fn token_of(auth: Option<&AuthenticatedToken>) -> Option<AuthenticatedToken> {
    match auth {
        Some(a) => Some(*a),
        None => None,
    }
}

/// PUT /artifacts/{cache_id}, before the body is read: only a read-write
/// token may write. A request that carries no validated token is refused
/// with 401, a read-only token with 403.
pub fn write_refusal(auth: Option<&AuthenticatedToken>) -> (refusal: Option<Reply>)
    ensures
        refusal is None <==> write_allowed(token_of(auth)),
        auth is None ==> (refusal matches Some(reply) && is_error_reply(
            reply,
            401,
            "Missing or malformed Authorization header"@,
        )),
        auth matches Some(a) && a.permission == TokenPermission::ReadOnly ==> (refusal matches Some(reply)
            && is_error_reply(reply, 403, "Token does not have write permission"@)),
{
    match auth {
        Some(a) => match a.permission {
            TokenPermission::ReadOnly => Some(
                Reply { status: 403, body: ReplyBody::Error("Token does not have write permission") },
            ),
            TokenPermission::ReadWrite => None,
        },
        None => Some(Reply { status: 401, body: ReplyBody::Error("Missing or malformed Authorization header") }),
    }
}

/// GET /artifacts/{cache_id}: the reply once the bucket has answered, given
/// the failure of the fetch (`None` where the object came back). A found
/// object is streamed with 200, a missing one is a cache miss (404); a bucket
/// that could not be reached (connection failure or timeout) gives 503, any
/// other failure, such as a refusal by the bucket, 500.
pub fn get_artifact_reply(failure: Option<&StorageError>) -> (reply: Reply)
    ensures
        match failure {
            None => reply.status == 200 && reply.body == ReplyBody::Artifact,
            Some(StorageError::NotFound) => is_error_reply(reply, 404, "Cache miss"@),
            Some(StorageError::Unreachable(error)) => if is_connection_failure(*error) {
                is_error_reply(reply, 503, "Cache storage unavailable"@)
            } else {
                is_error_reply(reply, 500, "Failed to fetch artifact"@)
            },
        },
        failure matches Some(StorageError::Unreachable(S3Error::Reqwest(_))) ==> is_error_reply(
            reply,
            503,
            "Cache storage unavailable"@,
        ),
        failure matches Some(StorageError::Unreachable(S3Error::Io(_))) ==> is_error_reply(
            reply,
            503,
            "Cache storage unavailable"@,
        ),
        failure matches Some(StorageError::Unreachable(S3Error::HttpFailWithBody(_, _))) ==> is_error_reply(
            reply,
            500,
            "Failed to fetch artifact"@,
        ),
{
    match failure {
        None => Reply { status: 200, body: ReplyBody::Artifact },
        Some(StorageError::NotFound) => Reply { status: 404, body: ReplyBody::Error("Cache miss") },
        Some(StorageError::Unreachable(S3Error::Reqwest(_))) | Some(StorageError::Unreachable(S3Error::Io(_))) => Reply {
            status: 503,
            body: ReplyBody::Error("Cache storage unavailable"),
        },
        Some(StorageError::Unreachable(_)) => Reply {
            status: 500,
            body: ReplyBody::Error("Failed to fetch artifact"),
        },
    }
}

/// Counts the bytes of an upload against the configured size limit
/// (`MAX_BODY_SIZE`).
pub struct UploadMeter {
    received: u64,
    limit: u64,
    exceeded: bool,
    total: Ghost<nat>,
}

impl UploadMeter {
    /// The number of bytes counted so far.
    pub closed spec fn received_total(&self) -> nat {
        self.total@
    }

    /// The largest upload allowed, in bytes.
    pub closed spec fn size_limit(&self) -> nat {
        self.limit as nat
    }

    #[verifier::type_invariant]
    spec fn counts_exactly(&self) -> bool {
        &&& self.exceeded == (self.total@ > self.limit)
        &&& !self.exceeded ==> self.received as nat == self.total@
    }

    /// A meter that has counted nothing yet.
    pub fn new(limit: usize) -> (meter: Self)
        ensures
            meter.received_total() == 0,
            meter.size_limit() == limit as nat,
    {
        UploadMeter { received: 0, limit: limit as u64, exceeded: false, total: Ghost(0) }
    }

    /// Counts a chunk of `len` bytes; whether the upload is still within the
    /// limit.
    pub fn add_chunk(&mut self, len: usize) -> (within: bool)
        ensures
            final(self).received_total() == old(self).received_total() + len,
            final(self).size_limit() == old(self).size_limit(),
            within == (final(self).received_total() <= final(self).size_limit()),
    {
        proof {
            use_type_invariant(&*self);
        }
        let ghost total: nat = self.total@ + len as nat;
        let len = len as u64;
        if self.exceeded || len > self.limit - self.received {
            *self = UploadMeter {
                received: self.received,
                limit: self.limit,
                exceeded: true,
                total: Ghost(total),
            };
            false
        } else {
            *self = UploadMeter {
                received: self.received + len,
                limit: self.limit,
                exceeded: false,
                total: Ghost(total),
            };
            true
        }
    }

    /// Whether more bytes were counted than the limit allows.
    pub fn exceeded(&self) -> (over: bool)
        ensures
            over == (self.received_total() > self.size_limit()),
    {
        proof {
            use_type_invariant(self);
        }
        self.exceeded
    }
}

/// PUT /artifacts/{cache_id}: the reply once the upload has ended, given
/// whether the body went over the size limit (413, whatever the bucket did)
/// and the failure of the upload (`None` where it was stored).
pub fn put_artifact_reply(body_too_large: bool, failure: Option<&StorageError>) -> (reply: Reply)
    ensures
        body_too_large ==> is_error_reply(reply, 413, "Artifact exceeds the maximum body size"@),
        !body_too_large && failure is None ==> reply.status == 200 && reply.body == ReplyBody::Success,
        !body_too_large && failure is Some ==> is_error_reply(reply, 500, "Failed to store artifact"@),
{
    if body_too_large {
        return Reply { status: 413, body: ReplyBody::Error("Artifact exceeds the maximum body size") };
    }
    match failure {
        None => Reply { status: 200, body: ReplyBody::Success },
        Some(_) => Reply { status: 500, body: ReplyBody::Error("Failed to store artifact") },
    }
}

/// Two-tier tokens: a request without an `Authorization` header is refused
/// (401); one with `Bearer {token}` is refused (401) where the store does not
/// know the token, and otherwise carries the token's permission; and a PUT
/// may write exactly where it carries a read-write token.
pub proof fn lemma_two_tier_tokens(store: TokenStore, token: Seq<char>, auth: AuthenticatedToken)
    requires
        token.len() > 0,
    ensures
        authentication(store, None) == Err::<TokenPermission, AuthFailure>(AuthFailure::MissingOrMalformedHeader),
        store.permission_of(token) is None ==> authentication(store, Some("Bearer "@ + token))
            == Err::<TokenPermission, AuthFailure>(AuthFailure::InvalidToken),
        store.permission_of(token) matches Some(p) ==> authentication(store, Some("Bearer "@ + token))
            == Ok::<TokenPermission, AuthFailure>(p),
        write_allowed(Some(auth)) <==> auth.permission == TokenPermission::ReadWrite,
        !write_allowed(None),
{
    lemma_bearer_scheme_spellings(token);
}

} // verus!
