use vstd::prelude::*;

use crate::text::{
    decimal_text, distinct_strings, join_with, lemma_parse_unsigned_decimal_text, lemma_split_join,
    lemma_split_pieces_lack_separator, lemma_split_step, lemma_trim_shape, list_contains,
    parse_unsigned, parse_unsigned_str, split_on, str_eq, string_set, trim, trim_end, trim_start,
    trim_str,
};

verus! {

/// Permission level associated with a Bearer token.
#[derive(Debug, Clone, Copy, PartialEq, Eq, Structural)]
pub enum TokenPermission {
    ReadOnly,
    ReadWrite,
}

/// The non-empty trimmed pieces of a list of pieces.
pub open spec fn nonempty_trims(pieces: Seq<Seq<char>>) -> Set<Seq<char>> {
    Set::new(|t: Seq<char>| t.len() > 0 && exists|k: int| 0 <= k < pieces.len() && #[trigger] trim(pieces[k]) == t)
}

/// The tokens of a comma-separated list: each piece between commas, trimmed,
/// empty pieces left out.
pub open spec fn comma_separated_tokens(s: Seq<char>) -> Set<Seq<char>> {
    nonempty_trims(split_on(s, ','))
}

/// Adds the trimmed `piece` to `tokens` unless it is empty or already there.
fn add_trimmed_piece(tokens: &mut Vec<String>, piece: &str, Ghost(done): Ghost<Seq<Seq<char>>>)
    requires
        string_set(old(tokens)@) == nonempty_trims(done),
        distinct_strings(old(tokens)@),
    ensures
        string_set(final(tokens)@) == nonempty_trims(done.push(piece@)),
        distinct_strings(final(tokens)@),
{
    let t = trim_str(piece);
    let ghost before = tokens@;
    proof {
        let d2 = done.push(piece@);
        assert(d2[done.len() as int] == piece@);
        assert forall|x: Seq<char>| #[trigger] nonempty_trims(done).contains(x) implies nonempty_trims(
            d2,
        ).contains(x) by {
            let k = choose|k: int| 0 <= k < done.len() && #[trigger] trim(done[k]) == x;
            assert(d2[k] == done[k]);
        }
    }
    if !t.as_str().is_empty() && !list_contains(tokens, &t) {
        tokens.push(t);
        proof {
            let d2 = done.push(piece@);
            assert(d2[done.len() as int] == piece@);
            assert(tokens@[before.len() as int] == t);
            assert forall|x: Seq<char>| #[trigger] string_set(tokens@).contains(x) == nonempty_trims(d2).contains(x) by {
                if string_set(tokens@).contains(x) {
                    let i = choose|i: int| 0 <= i < tokens@.len() && #[trigger] tokens@[i]@ == x;
                    if i < before.len() {
                        assert(before[i]@ == x);
                        assert(string_set(before).contains(x));
                    }
                }
                if nonempty_trims(d2).contains(x) {
                    let k = choose|k: int| 0 <= k < d2.len() && #[trigger] trim(d2[k]) == x;
                    if k < done.len() {
                        assert(d2[k] == done[k]);
                        assert(nonempty_trims(done).contains(x));
                        let i = choose|i: int| 0 <= i < before.len() && #[trigger] before[i]@ == x;
                        assert(tokens@[i] == before[i]);
                    }
                }
            }
            assert(string_set(tokens@) =~= nonempty_trims(d2));
        }
    } else {
        proof {
            let d2 = done.push(piece@);
            assert(d2[done.len() as int] == piece@);
            assert forall|x: Seq<char>| #[trigger] nonempty_trims(d2).contains(x) implies nonempty_trims(
                done,
            ).contains(x) by {
                let k = choose|k: int| 0 <= k < d2.len() && #[trigger] trim(d2[k]) == x;
                if k < done.len() {
                    assert(d2[k] == done[k]);
                }
            }
            assert(string_set(tokens@) =~= nonempty_trims(d2));
        }
    }
}

/// Parse a comma-separated string into its distinct tokens, trimming
/// whitespace and ignoring empty entries.
pub fn parse_comma_separated(input: &str) -> (tokens: Vec<String>)
    ensures
        string_set(tokens@) == comma_separated_tokens(input@),
        distinct_strings(tokens@),
{
    let n = input.unicode_len();
    let mut tokens: Vec<String> = Vec::new();
    let mut start: usize = 0;
    let mut i: usize = 0;
    let ghost mut done: Seq<Seq<char>> = Seq::empty();
    proof {
        assert(input@.take(0) =~= Seq::<char>::empty());
        assert(input@.subrange(0, 0) =~= Seq::<char>::empty());
        assert(done.push(input@.subrange(0, 0)) =~= seq![Seq::<char>::empty()]);
        assert(string_set(tokens@) =~= nonempty_trims(done));
    }
    while i < n
        invariant
            n == input@.len(),
            start <= i <= n,
            split_on(input@.take(i as int), ',') == done.push(input@.subrange(start as int, i as int)),
            string_set(tokens@) == nonempty_trims(done),
            distinct_strings(tokens@),
        decreases n - i,
    {
        proof {
            lemma_split_step(input@, i as int, start as int, done, ',');
        }
        if input.get_char(i) == ',' {
            let piece = input.substring_char(start, i);
            add_trimmed_piece(&mut tokens, piece, Ghost(done));
            proof {
                done = done.push(input@.subrange(start as int, i as int));
            }
            start = i + 1;
        }
        i = i + 1;
    }
    let piece = input.substring_char(start, n);
    add_trimmed_piece(&mut tokens, piece, Ghost(done));
    proof {
        assert(input@.take(n as int) =~= input@);
    }
    tokens
}

/// Every token that `parse_comma_separated` can return is non-empty, free of
/// commas, and free of leading and trailing whitespace.
pub proof fn lemma_comma_tokens_are_clean(s: Seq<char>, t: Seq<char>)
    requires
        comma_separated_tokens(s).contains(t),
    ensures
        t.len() > 0,
        trim(t) == t,
        !t.contains(','),
{
    let pieces = split_on(s, ',');
    let k = choose|k: int| 0 <= k < pieces.len() && #[trigger] trim(pieces[k]) == t;
    lemma_split_pieces_lack_separator(s, ',');
    assert(!pieces[k].contains(','));
    lemma_trim_shape(pieces[k]);
    let (a, b) = choose|a: int, b: int| 0 <= a <= b <= pieces[k].len() && trim(pieces[k]) == pieces[k].subrange(a, b);
    if t.contains(',') {
        let j = choose|j: int| 0 <= j < t.len() && t[j] == ',';
        assert(pieces[k][a + j] == ',');
    }
    assert(trim_start(t) == t);
    assert(trim_end(t) == t);
}

/// Listing clean tokens (non-empty, without commas, without surrounding
/// whitespace) separated by commas configures exactly those tokens.
pub proof fn lemma_comma_join_roundtrip(tokens: Seq<Seq<char>>)
    requires
        tokens.len() > 0,
        forall|k: int| 0 <= k < tokens.len() ==> (#[trigger] tokens[k]).len() > 0 && trim(tokens[k]) == tokens[k]
            && !tokens[k].contains(','),
    ensures
        comma_separated_tokens(join_with(tokens, ',')) == tokens.to_set(),
{
    lemma_split_join(tokens, ',');
    assert forall|t: Seq<char>| #[trigger] nonempty_trims(tokens).contains(t) == tokens.to_set().contains(t) by {
        if tokens.to_set().contains(t) {
            let k = choose|k: int| 0 <= k < tokens.len() && tokens[k] == t;
            assert(trim(tokens[k]) == t);
        }
    }
    assert(nonempty_trims(tokens) =~= tokens.to_set());
}

/// Resolved token store: maps tokens to their permission level.
#[derive(Debug, Clone)]
pub struct TokenStore {
    read_only: Vec<String>,
    read_write: Vec<String>,
}

impl TokenStore {
    /// The tokens that grant read-only access.
    pub closed spec fn read_only_tokens(&self) -> Set<Seq<char>> {
        string_set(self.read_only@)
    }

    /// The tokens that grant read-write access.
    pub closed spec fn read_write_tokens(&self) -> Set<Seq<char>> {
        string_set(self.read_write@)
    }

    /// The permission that the store grants `token`, if any. A token listed in
    /// both sets is read-write.
    pub open spec fn permission_of(&self, token: Seq<char>) -> Option<TokenPermission> {
        if self.read_write_tokens().contains(token) {
            Some(TokenPermission::ReadWrite)
        } else if self.read_only_tokens().contains(token) {
            Some(TokenPermission::ReadOnly)
        } else {
            None
        }
    }

    pub fn new(read_only: Vec<String>, read_write: Vec<String>) -> (store: Self)
        ensures
            store.read_only_tokens() == string_set(read_only@),
            store.read_write_tokens() == string_set(read_write@),
    {
        Self { read_only, read_write }
    }

    /// Look up a token and return its permission level, or None if not found.
    pub fn resolve(&self, token: &str) -> (permission: Option<TokenPermission>)
        ensures
            permission == self.permission_of(token@),
    {
        let token = token.to_owned();
        if list_contains(&self.read_write, &token) {
            Some(TokenPermission::ReadWrite)
        } else if list_contains(&self.read_only, &token) {
            Some(TokenPermission::ReadOnly)
        } else {
            None
        }
    }
}

/// A token listed as both read-only and read-write is read-write.
pub proof fn lemma_read_write_takes_precedence(store: TokenStore, token: Seq<char>)
    requires
        store.read_only_tokens().contains(token),
        store.read_write_tokens().contains(token),
    ensures
        store.permission_of(token) == Some(TokenPermission::ReadWrite),
{
}

/// The raw configuration values, one per environment variable, `None` where
/// the variable is unset.
pub struct SettingsVars {
    /// `S3_BUCKET`
    pub s3_bucket: Option<String>,
    /// `S3_REGION`
    pub s3_region: Option<String>,
    /// `CACHE_TOKENS_READ_ONLY`
    pub cache_tokens_read_only: Option<String>,
    /// `CACHE_TOKENS_READ_WRITE`
    pub cache_tokens_read_write: Option<String>,
    /// `HOST`
    pub host: Option<String>,
    /// `PORT`
    pub port: Option<String>,
    /// `S3_PREFIX`
    pub s3_prefix: Option<String>,
    /// `S3_ENDPOINT`
    pub s3_endpoint: Option<String>,
    /// `S3_ACCESS_KEY`
    pub s3_access_key: Option<String>,
    /// `S3_SECRET_KEY`
    pub s3_secret_key: Option<String>,
    /// `S3_USE_PATH_STYLE`
    pub s3_use_path_style: Option<String>,
    /// `MAX_BODY_SIZE`
    pub max_body_size: Option<String>,
    /// `LOG_LEVEL`
    pub log_level: Option<String>,
    /// `LOGS_DIRECTORY`
    pub logs_directory: Option<String>,
}

/// Why the configuration values do not make up settings.
#[derive(Debug, Clone, Copy, PartialEq, Eq, Structural)]
pub enum SettingsError {
    MissingBucket,
    MissingRegion,
    MissingReadOnlyTokens,
    MissingReadWriteTokens,
    InvalidPort,
    InvalidMaxBodySize,
}

impl SettingsError {
    /// The message with which the server refuses to start.
    pub fn message(&self) -> (text: &'static str)
        ensures
            text@ == self.spec_message(),
    {
        match self {
            SettingsError::MissingBucket => "S3_BUCKET environment variable is required",
            SettingsError::MissingRegion => "S3_REGION environment variable is required",
            SettingsError::MissingReadOnlyTokens => "CACHE_TOKENS_READ_ONLY environment variable is required",
            SettingsError::MissingReadWriteTokens => "CACHE_TOKENS_READ_WRITE environment variable is required",
            SettingsError::InvalidPort => "PORT must be a valid u16",
            SettingsError::InvalidMaxBodySize => "MAX_BODY_SIZE must be a valid usize",
        }
    }

    pub open spec fn spec_message(&self) -> Seq<char> {
        match self {
            SettingsError::MissingBucket => "S3_BUCKET environment variable is required"@,
            SettingsError::MissingRegion => "S3_REGION environment variable is required"@,
            SettingsError::MissingReadOnlyTokens => "CACHE_TOKENS_READ_ONLY environment variable is required"@,
            SettingsError::MissingReadWriteTokens => "CACHE_TOKENS_READ_WRITE environment variable is required"@,
            SettingsError::InvalidPort => "PORT must be a valid u16"@,
            SettingsError::InvalidMaxBodySize => "MAX_BODY_SIZE must be a valid usize"@,
        }
    }
}

/// The text of a configuration value, or `default` where it is unset.
pub open spec fn text_or(value: Option<String>, default: Seq<char>) -> Seq<char> {
    match value {
        Some(v) => v@,
        None => default,
    }
}

/// The port that `PORT` gives, 8080 where it is unset.
pub open spec fn port_value(vars: SettingsVars) -> Option<nat> {
    parse_unsigned(text_or(vars.port, "8080"@), 65535)
}

/// The size limit that `MAX_BODY_SIZE` gives, 524288000 where it is unset.
pub open spec fn max_body_size_value(vars: SettingsVars) -> Option<nat> {
    parse_unsigned(text_or(vars.max_body_size, "524288000"@), usize::MAX as nat)
}

/// The error, if any, that the configuration values give, in the order the
/// values are read: bucket, region, the two token lists, port, body size limit.
pub open spec fn settings_error(vars: SettingsVars) -> Option<SettingsError> {
    if vars.s3_bucket is None {
        Some(SettingsError::MissingBucket)
    } else if vars.s3_region is None {
        Some(SettingsError::MissingRegion)
    } else if vars.cache_tokens_read_only is None {
        Some(SettingsError::MissingReadOnlyTokens)
    } else if vars.cache_tokens_read_write is None {
        Some(SettingsError::MissingReadWriteTokens)
    } else if port_value(vars) is None {
        Some(SettingsError::InvalidPort)
    } else if max_body_size_value(vars) is None {
        Some(SettingsError::InvalidMaxBodySize)
    } else {
        None
    }
}

/// The permissions of the settings' tokens follow the two lists: a token of
/// `CACHE_TOKENS_READ_WRITE` is read-write whatever the read-only list holds,
/// a token only of `CACHE_TOKENS_READ_ONLY` is read-only, any other token is
/// unknown.
pub open spec fn token_tiers(vars: SettingsVars, settings: AppSettings) -> bool {
    let read_only = comma_separated_tokens(vars.cache_tokens_read_only->0@);
    let read_write = comma_separated_tokens(vars.cache_tokens_read_write->0@);
    &&& forall|t: Seq<char>| #[trigger] read_write.contains(t)
        ==> settings.token_store.permission_of(t) == Some(TokenPermission::ReadWrite)
    &&& forall|t: Seq<char>| #[trigger] read_only.contains(t) && !read_write.contains(t)
        ==> settings.token_store.permission_of(t) == Some(TokenPermission::ReadOnly)
    &&& forall|t: Seq<char>| !read_only.contains(t) && !read_write.contains(t)
        ==> #[trigger] settings.token_store.permission_of(t) is None
}

/// Settings built from configuration values give every token of the
/// read-write list write access, even where the read-only list holds it too,
/// every other token of the read-only list read access, and no other token
/// any access.
pub proof fn lemma_settings_token_tiers(vars: SettingsVars, settings: AppSettings)
    requires
        settings_from(vars, settings),
    ensures
        token_tiers(vars, settings),
{
}

/// Every port number parses: where `PORT` holds the decimal digits of any
/// number up to 65535 (and `MAX_BODY_SIZE` those of any size a `usize`
/// holds), with the required values set, the settings are made and listen on
/// that port.
pub proof fn lemma_every_port_accepted(vars: SettingsVars, port: nat, size: nat)
    requires
        vars.s3_bucket is Some,
        vars.s3_region is Some,
        vars.cache_tokens_read_only is Some,
        vars.cache_tokens_read_write is Some,
        vars.port matches Some(p) && p@ == decimal_text(port),
        port <= 65535,
        vars.max_body_size matches Some(m) && m@ == decimal_text(size),
        size <= usize::MAX,
    ensures
        settings_error(vars) is None,
        forall|settings: AppSettings| #[trigger] settings_from(vars, settings) ==> settings.port == port,
{
    lemma_parse_unsigned_decimal_text(port, 65535);
    lemma_parse_unsigned_decimal_text(size, usize::MAX as nat);
}

/// Application configuration.
#[derive(Debug, Clone)]
pub struct AppSettings {
    pub host: String,
    pub port: u16,
    pub s3_region: String,
    pub s3_bucket: String,
    pub s3_prefix: String,
    pub s3_endpoint: Option<String>,
    pub s3_access_key: Option<String>,
    pub s3_secret_key: Option<String>,
    pub s3_use_path_style: bool,
    pub max_body_size: usize,
    pub log_level: String,
    pub logs_directory: Option<String>,
    pub token_store: TokenStore,
}

/// `settings` are what the configuration values `vars` give, defaults
/// filled in.
pub open spec fn settings_from(vars: SettingsVars, settings: AppSettings) -> bool {
    &&& settings.s3_bucket@ == vars.s3_bucket->0@
    &&& settings.s3_region@ == vars.s3_region->0@
    &&& settings.token_store.read_only_tokens() == comma_separated_tokens(
        vars.cache_tokens_read_only->0@,
    )
    &&& settings.token_store.read_write_tokens() == comma_separated_tokens(
        vars.cache_tokens_read_write->0@,
    )
    &&& settings.host@ == text_or(vars.host, "0.0.0.0"@)
    &&& settings.port as nat == port_value(vars)->0
    &&& settings.s3_prefix@ == text_or(vars.s3_prefix, "rush-cache"@)
    &&& settings.s3_endpoint == vars.s3_endpoint
    &&& settings.s3_access_key == vars.s3_access_key
    &&& settings.s3_secret_key == vars.s3_secret_key
    &&& settings.s3_use_path_style == (text_or(vars.s3_use_path_style, "false"@) == "true"@)
    &&& settings.max_body_size as nat == max_body_size_value(vars)->0
    &&& settings.log_level@ == text_or(vars.log_level, "info"@)
    &&& settings.logs_directory == vars.logs_directory
}

/// The text of a configuration value, or `default` where it is unset.
fn value_or(value: Option<String>, default: &str) -> (text: String)
    ensures
        text@ == text_or(value, default@),
{
    match value {
        Some(v) => v,
        None => default.to_owned(),
    }
}

impl AppSettings {
    /// Build the settings from the configuration values: `S3_BUCKET`,
    /// `S3_REGION`, `CACHE_TOKENS_READ_ONLY` and `CACHE_TOKENS_READ_WRITE` are
    /// required, `PORT` and `MAX_BODY_SIZE` must parse, every other value has
    /// a default.
    pub fn from_vars(vars: SettingsVars) -> (result: Result<AppSettings, SettingsError>)
        ensures
            match result {
                Ok(settings) => settings_error(vars) is None && settings_from(vars, settings),
                Err(error) => settings_error(vars) == Some(error),
            },
            vars.s3_bucket is Some && vars.s3_region is Some && vars.cache_tokens_read_only is Some
                && vars.cache_tokens_read_write is Some && parse_unsigned(text_or(vars.port, "8080"@), 65535)
                is Some && parse_unsigned(text_or(vars.max_body_size, "524288000"@), usize::MAX as nat) is Some
                ==> result is Ok,
            result matches Ok(settings) ==> settings.port as nat == parse_unsigned(
                text_or(vars.port, "8080"@),
                65535,
            )->0,
            result matches Ok(settings) ==> token_tiers(vars, settings),
    {
        let SettingsVars {
            s3_bucket,
            s3_region,
            cache_tokens_read_only,
            cache_tokens_read_write,
            host,
            port,
            s3_prefix,
            s3_endpoint,
            s3_access_key,
            s3_secret_key,
            s3_use_path_style,
            max_body_size,
            log_level,
            logs_directory,
        } = vars;
        let s3_bucket = match s3_bucket {
            Some(bucket) => bucket,
            None => return Err(SettingsError::MissingBucket),
        };
        let s3_region = match s3_region {
            Some(region) => region,
            None => return Err(SettingsError::MissingRegion),
        };
        let read_only_text = match cache_tokens_read_only {
            Some(text) => text,
            None => return Err(SettingsError::MissingReadOnlyTokens),
        };
        let read_write_text = match cache_tokens_read_write {
            Some(text) => text,
            None => return Err(SettingsError::MissingReadWriteTokens),
        };
        let read_only_tokens = parse_comma_separated(read_only_text.as_str());
        let read_write_tokens = parse_comma_separated(read_write_text.as_str());
        let token_store = TokenStore::new(read_only_tokens, read_write_tokens);
        let host = value_or(host, "0.0.0.0");
        let port_text = value_or(port, "8080");
        let port = match parse_unsigned_str(port_text.as_str(), 65535) {
            Some(p) => p as u16,
            None => return Err(SettingsError::InvalidPort),
        };
        let s3_prefix = value_or(s3_prefix, "rush-cache");
        let path_style_text = value_or(s3_use_path_style, "false");
        let s3_use_path_style = str_eq(path_style_text.as_str(), "true");
        let max_body_text = value_or(max_body_size, "524288000");
        let max_body_size = match parse_unsigned_str(max_body_text.as_str(), usize::MAX as u64) {
            Some(m) => m as usize,
            None => return Err(SettingsError::InvalidMaxBodySize),
        };
        let log_level = value_or(log_level, "info");
        Ok(AppSettings {
            host,
            port,
            s3_region,
            s3_bucket,
            s3_prefix,
            s3_endpoint,
            s3_access_key,
            s3_secret_key,
            s3_use_path_style,
            max_body_size,
            log_level,
            logs_directory,
            token_store,
        })
    }
}

} // verus!
