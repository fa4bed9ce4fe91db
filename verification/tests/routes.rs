use rush_cache_server::app_settings::{TokenPermission, TokenStore};
use rush_cache_server::auth::bearer_token::{
    authenticate, bearer_token, token_prefix, AuthFailure, AuthenticatedToken,
};
use rush_cache_server::routes::artifacts::{
    get_artifact_reply, put_artifact_reply, write_refusal, UploadMeter,
};
use rush_cache_server::routes::health_check::{health_check, HEALTH_CHECK_PATH};
use rush_cache_server::routes::{Reply, ReplyBody};
use rush_cache_server::storage::StorageError;
use s3::error::S3Error;

const READ_ONLY_TOKEN: &str = "test_read_only_token";
const READ_WRITE_TOKEN: &str = "test_read_write_token";

fn store() -> TokenStore {
    TokenStore::new(vec![READ_ONLY_TOKEN.to_string()], vec![READ_WRITE_TOKEN.to_string()])
}

fn error(reply: Reply) -> (u16, &'static str) {
    match reply.body {
        ReplyBody::Error(message) => (reply.status, message),
        other => panic!("not an error reply: {other:?}"),
    }
}

#[test]
fn missing_auth_header_is_refused() {
    let failure = authenticate(&store(), None).err().unwrap();
    assert_eq!(failure, AuthFailure::MissingOrMalformedHeader);
    assert_eq!(error(failure.reply()), (401, "Missing or malformed Authorization header"));
}

#[test]
fn invalid_token_is_refused() {
    let failure = authenticate(&store(), Some("Bearer invalid_token_here")).err().unwrap();
    assert_eq!(failure, AuthFailure::InvalidToken);
    assert_eq!(error(failure.reply()), (401, "Invalid token"));
}

#[test]
fn malformed_auth_header_is_refused() {
    for header in ["Basic some_credentials", "Bearer", "Bearer ", "Bearertest_read_only_token", ""] {
        let failure = authenticate(&store(), Some(header)).err().unwrap();
        assert_eq!(failure, AuthFailure::MissingOrMalformedHeader, "{header}");
    }
}

#[test]
fn read_only_token_on_put_is_forbidden() {
    let header = format!("Bearer {}", READ_ONLY_TOKEN);
    let auth = authenticate(&store(), Some(&header)).ok().unwrap();
    assert_eq!(auth.permission, TokenPermission::ReadOnly);
    let refusal = write_refusal(Some(&auth)).unwrap();
    assert_eq!(error(refusal), (403, "Token does not have write permission"));
}

#[test]
fn read_write_token_on_put_is_allowed() {
    let header = format!("Bearer {}", READ_WRITE_TOKEN);
    let auth = authenticate(&store(), Some(&header)).ok().unwrap();
    assert_eq!(auth.permission, TokenPermission::ReadWrite);
    assert!(write_refusal(Some(&auth)).is_none());
}

#[test]
fn put_without_token_is_refused() {
    let refusal = write_refusal(None).unwrap();
    assert_eq!(error(refusal), (401, "Missing or malformed Authorization header"));
}

#[test]
fn read_only_and_read_write_tokens_pass_on_get() {
    for token in [READ_ONLY_TOKEN, READ_WRITE_TOKEN] {
        let header = format!("Bearer {}", token);
        assert!(authenticate(&store(), Some(&header)).is_ok());
        for failure in [None, Some(StorageError::NotFound)] {
            let reply = get_artifact_reply(failure.as_ref());
            assert_ne!(reply.status, 401);
            assert_ne!(reply.status, 403);
        }
    }
}

#[test]
fn bearer_scheme_ignores_case() {
    for header in ["bearer abc", "BEARER abc", "BeArEr abc"] {
        assert_eq!(bearer_token(header), Some("abc"));
    }
    assert_eq!(bearer_token("Bearer  two spaces"), Some(" two spaces"));
    assert_eq!(bearer_token("Bearer "), None);
    assert_eq!(bearer_token("Token abc"), None);
}

#[test]
fn authenticated_token_keeps_a_short_prefix() {
    let header = format!("bearer {}", READ_WRITE_TOKEN);
    let auth: AuthenticatedToken = authenticate(&store(), Some(&header)).ok().unwrap();
    assert_eq!(auth.token_prefix, "test_rea...");
    assert_eq!(token_prefix("12345678"), "12345678");
    assert_eq!(token_prefix("123456789"), "12345678...");
    assert_eq!(token_prefix(""), "");
}

#[test]
fn get_artifact_replies() {
    assert_eq!(get_artifact_reply(None), Reply { status: 200, body: ReplyBody::Artifact });
    assert_eq!(error(get_artifact_reply(Some(&StorageError::NotFound))), (404, "Cache miss"));
    let refused = StorageError::from(S3Error::HttpFailWithBody(403, "AccessDenied".to_string()));
    assert_eq!(error(get_artifact_reply(Some(&refused))), (500, "Failed to fetch artifact"));
    let other = StorageError::Unreachable(S3Error::HttpFail);
    assert_eq!(error(get_artifact_reply(Some(&other))), (500, "Failed to fetch artifact"));
    let connection = StorageError::Unreachable(S3Error::Io(std::io::Error::other("connection refused")));
    assert_eq!(error(get_artifact_reply(Some(&connection))), (503, "Cache storage unavailable"));
}

#[test]
fn put_artifact_replies() {
    assert_eq!(put_artifact_reply(false, None), Reply { status: 200, body: ReplyBody::Success });
    let unreachable = StorageError::Unreachable(S3Error::HttpFail);
    assert_eq!(error(put_artifact_reply(false, Some(&unreachable))), (500, "Failed to store artifact"));
    assert_eq!(error(put_artifact_reply(false, Some(&StorageError::NotFound))), (500, "Failed to store artifact"));
    assert_eq!(error(put_artifact_reply(true, Some(&unreachable))), (413, "Artifact exceeds the maximum body size"));
    assert_eq!(error(put_artifact_reply(true, None)), (413, "Artifact exceeds the maximum body size"));
}

#[test]
fn upload_meter_counts_against_the_limit() {
    let mut meter = UploadMeter::new(10);
    assert!(meter.add_chunk(4));
    assert!(meter.add_chunk(6));
    assert!(!meter.exceeded());
    assert!(!meter.add_chunk(1));
    assert!(meter.exceeded());
    assert!(!meter.add_chunk(0));
    let mut empty = UploadMeter::new(0);
    assert!(empty.add_chunk(0));
    assert!(!empty.add_chunk(1));
    let mut huge = UploadMeter::new(usize::MAX);
    assert!(huge.add_chunk(usize::MAX));
    assert!(!huge.add_chunk(1));
}

#[test]
fn health_check_is_healthy() {
    assert_eq!(health_check(), Reply { status: 200, body: ReplyBody::Healthy });
    assert_eq!(HEALTH_CHECK_PATH, "/health");
}

#[test]
fn token_prefix_depends_only_on_first_eight_characters() {
    assert_eq!(token_prefix("abcdefgh_secret_one"), token_prefix("abcdefgh_other"));
    assert!(token_prefix("abcdefgh_secret_one").len() <= 11);
}
