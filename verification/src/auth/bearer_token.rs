use vstd::prelude::*;

use crate::app_settings::{TokenPermission, TokenStore};
use crate::routes::{is_error_reply, Reply, ReplyBody};

verus! {

/// `c` in lower case, where it is an upper-case ASCII letter.
pub open spec fn ascii_lower(c: char) -> char {
    if 'A' <= c && c <= 'Z' {
        ((c as int) + 32) as char
    } else {
        c
    }
}

/// `s` with its upper-case ASCII letters in lower case.
pub open spec fn ascii_lowercase(s: Seq<char>) -> Seq<char> {
    s.map_values(|c: char| ascii_lower(c))
}

/// The token that an `Authorization` header carries: what follows a `Bearer `
/// prefix matched without regard to ASCII case, if anything follows it.
pub open spec fn bearer_token_of(header: Seq<char>) -> Option<Seq<char>> {
    if header.len() > 7 && ascii_lowercase(header.take(7)) == ascii_lowercase("bearer "@) {
        Some(header.skip(7))
    } else {
        None
    }
}

/// The part of a token that may be logged: its first 8 characters and `...`
/// where it is longer than that, else the whole token.
pub open spec fn token_prefix_of(token: Seq<char>) -> Seq<char> {
    if token.len() > 8 {
        token.take(8) + "..."@
    } else {
        token
    }
}

/// The token of an `Authorization` header, checked without regard to the
/// case of the `Bearer ` scheme.
pub fn bearer_token(header: &str) -> (token: Option<&str>)
    requires
        header.is_ascii(),
    ensures
        token is Some <==> bearer_token_of(header@) is Some,
        token matches Some(t) ==> t@ == bearer_token_of(header@)->0 && t.is_ascii(),
{
    let n = header.unicode_len();
    let scheme = "bearer ";
    proof {
        reveal_strlit("bearer ");
    }
    if n <= 7 {
        return None;
    }
    let mut i: usize = 0;
    while i < 7
        invariant
            n == header@.len(),
            n > 7,
            i <= 7,
            scheme@ == "bearer "@,
            forall|j: int| 0 <= j < i ==> ascii_lower(#[trigger] header@[j]) == ascii_lower(scheme@[j]),
        decreases 7 - i,
    {
        proof {
            reveal_strlit("bearer ");
        }
        let c = header.get_char(i);
        let e = scheme.get_char(i);
        let upper = 'A' <= c && c <= 'Z';
        if !(c == e || (upper && (c as u32) + 32 == e as u32)) {
            proof {
                let lower = ascii_lowercase(header@.take(7));
                assert(lower[i as int] == ascii_lower(c));
                assert(ascii_lowercase("bearer "@)[i as int] == ascii_lower(e));
                assert(ascii_lower(e) == e);
            }
            return None;
        }
        i = i + 1;
    }
    proof {
        assert(ascii_lowercase(header@.take(7)) =~= ascii_lowercase("bearer "@));
    }
    Some(header.substring_ascii(7, n))
}

/// The part of `token` that may be logged.
pub fn token_prefix(token: &str) -> (prefix: String)
    requires
        token.is_ascii(),
    ensures
        prefix@ == token_prefix_of(token@),
{
    let n = token.unicode_len();
    if n > 8 {
        let mut prefix = token.substring_ascii(0, 8).to_owned();
        prefix.append("...");
        prefix
    } else {
        token.to_owned()
    }
}

/// A header `{scheme}{token}` whose 7-character scheme is `Bearer ` in any
/// ASCII case carries `token`, where the token is not empty.
pub proof fn lemma_bearer_scheme_any_case(scheme: Seq<char>, token: Seq<char>)
    requires
        scheme.len() == 7,
        ascii_lowercase(scheme) == ascii_lowercase("bearer "@),
        token.len() > 0,
    ensures
        bearer_token_of(scheme + token) == Some(token),
{
    let h = scheme + token;
    assert(h.take(7) =~= scheme);
    assert(h.skip(7) =~= token);
}

/// `Bearer `, `bearer ` and `BEARER ` are all the Bearer scheme.
pub proof fn lemma_bearer_scheme_spellings(token: Seq<char>)
    requires
        token.len() > 0,
    ensures
        bearer_token_of("Bearer "@ + token) == Some(token),
        bearer_token_of("bearer "@ + token) == Some(token),
        bearer_token_of("BEARER "@ + token) == Some(token),
{
    reveal_strlit("Bearer ");
    reveal_strlit("bearer ");
    reveal_strlit("BEARER ");
    assert(ascii_lowercase("Bearer "@) =~= ascii_lowercase("bearer "@));
    assert(ascii_lowercase("BEARER "@) =~= ascii_lowercase("bearer "@));
    lemma_bearer_scheme_any_case("Bearer "@, token);
    lemma_bearer_scheme_any_case("bearer "@, token);
    lemma_bearer_scheme_any_case("BEARER "@, token);
}

/// A header that is no longer than the scheme, or whose scheme is not
/// `Bearer `, carries no token.
pub proof fn lemma_no_bearer_token(header: Seq<char>)
    requires
        header.len() <= 7 || ascii_lowercase(header.take(7)) != ascii_lowercase("bearer "@),
    ensures
        bearer_token_of(header) is None,
{
}

/// Only the first 8 characters of a longer token reach the logs: two such
/// tokens that open alike are logged alike, and the logged text is at most
/// 11 characters long.
pub proof fn lemma_token_prefix_hides_rest(a: Seq<char>, b: Seq<char>)
    requires
        a.len() > 8,
        b.len() > 8,
        a.take(8) == b.take(8),
    ensures
        token_prefix_of(a) == token_prefix_of(b),
        token_prefix_of(a).len() <= 11,
        token_prefix_of(a).take(8) == a.take(8),
{
    reveal_strlit("...");
    assert(token_prefix_of(a).take(8) =~= a.take(8));
}

/// Result of token validation: the permission level of the authenticated token.
#[derive(Debug, Clone)]
pub struct AuthenticatedToken {
    pub permission: TokenPermission,
    /// A safe-to-log prefix of the token (first 8 chars or less).
    pub token_prefix: String,
}

/// Why a request is refused before it reaches a route.
#[derive(Debug, Clone, Copy, PartialEq, Eq, Structural)]
pub enum AuthFailure {
    /// No `Authorization` header, or one without a Bearer token.
    MissingOrMalformedHeader,
    /// A Bearer token that the store does not know.
    InvalidToken,
}

impl AuthFailure {
    /// The message of the refusal.
    pub open spec fn spec_message(self) -> Seq<char> {
        match self {
            AuthFailure::MissingOrMalformedHeader => "Missing or malformed Authorization header"@,
            AuthFailure::InvalidToken => "Invalid token"@,
        }
    }

    /// The reply to a refused request: 401 with the refusal's message.
    pub fn reply(&self) -> (reply: Reply)
        ensures
            is_error_reply(reply, 401, self.spec_message()),
    {
        match self {
            AuthFailure::MissingOrMalformedHeader => Reply {
                status: 401,
                body: ReplyBody::Error("Missing or malformed Authorization header"),
            },
            AuthFailure::InvalidToken => Reply { status: 401, body: ReplyBody::Error("Invalid token") },
        }
    }
}

/// The characters of an optional header.
pub open spec fn header_text(header: Option<&str>) -> Option<Seq<char>> {
    match header {
        Some(h) => Some(h@),
        None => None,
    }
}

/// What the token store decides of a request with the given `Authorization`
/// header: the permission of its Bearer token, or why it is refused.
pub open spec fn authentication(store: TokenStore, header: Option<Seq<char>>) -> Result<TokenPermission, AuthFailure> {
    match header {
        None => Err(AuthFailure::MissingOrMalformedHeader),
        Some(h) => match bearer_token_of(h) {
            None => Err(AuthFailure::MissingOrMalformedHeader),
            Some(token) => match store.permission_of(token) {
                None => Err(AuthFailure::InvalidToken),
                Some(permission) => Ok(permission),
            },
        },
    }
}

/// Validates the Bearer token of an `Authorization` header (given as the
/// visible-ASCII text of the header, `None` where there is none).
pub fn authenticate(store: &TokenStore, header: Option<&str>) -> (result: Result<AuthenticatedToken, AuthFailure>)
    requires
        header matches Some(h) ==> h.is_ascii(),
    ensures
        match result {
            Ok(auth) => {
                &&& authentication(*store, header_text(header)) == Ok::<TokenPermission, AuthFailure>(auth.permission)
                &&& auth.token_prefix@ == token_prefix_of(bearer_token_of(header->0@)->0)
            },
            Err(failure) => authentication(*store, header_text(header)) == Err::<TokenPermission, AuthFailure>(failure),
        },
{
    let token = match header {
        Some(h) => bearer_token(h),
        None => None,
    };
    let token = match token {
        Some(t) => t,
        None => return Err(AuthFailure::MissingOrMalformedHeader),
    };
    match store.resolve(token) {
        Some(permission) => Ok(AuthenticatedToken { permission, token_prefix: token_prefix(token) }),
        None => Err(AuthFailure::InvalidToken),
    }
}

} // verus!
