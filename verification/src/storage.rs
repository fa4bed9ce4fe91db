use vstd::prelude::*;

use s3::bucket::Bucket;
use s3::creds::error::CredentialsError;
use s3::creds::Credentials;
use s3::error::S3Error;
use s3::Region;

use crate::app_settings::AppSettings;

verus! {

/// What `format!("{:?}", s)` gives for a string slice: its characters in
/// double quotes, escaped as `str::escape_debug` escapes them.
pub uninterp spec fn str_debug_text(s: Seq<char>) -> Seq<char>;

/// What the `name` field of a bucket holds.
pub uninterp spec fn bucket_name_of(bucket: Bucket) -> Seq<char>;

/// What `Bucket::is_path_style` gives for a bucket: whether it is addressed
/// with path-style URLs.
pub uninterp spec fn bucket_path_style(bucket: Bucket) -> bool;

/// What the `region` field of a bucket holds.
pub uninterp spec fn bucket_region_of(bucket: Bucket) -> Region;

/// The credentials that a bucket signs its requests with.
pub uninterp spec fn bucket_credentials_of(bucket: Bucket) -> Credentials;

/// What `<Region as Display>::fmt` gives: the region's name.
pub uninterp spec fn region_name_of(region: Region) -> Seq<char>;

/// What `<Region as FromStr>::from_str` gives for a name, once unwrapped:
/// its result depends on the name alone.
pub uninterp spec fn region_from_name(name: Seq<char>) -> Region;

/// What `<Region as Debug>::fmt` gives.
pub uninterp spec fn region_debug_of(region: Region) -> Seq<char>;

/// What the `access_key` field of credentials holds.
pub uninterp spec fn credentials_access_key(credentials: Credentials) -> Option<Seq<char>>;

/// What the `secret_key` field of credentials holds.
pub uninterp spec fn credentials_secret_key(credentials: Credentials) -> Option<Seq<char>>;

/// The region names that `Region::from_str` maps to a region of another
/// name: `yandex` (to `ru-central1`) and the `wa-` names of Wasabi (to the
/// name without `wa-`).
pub open spec fn region_alias(name: Seq<char>) -> bool {
    name == "yandex"@ || (name.len() >= 3 && name.take(3) == "wa-"@)
}

/// Calls `<Region as FromStr>::from_str`, whose result is named by
/// `region_from_name`. Its source maps every name to `Ok`: a known name to
/// its region, whose `Display` gives that name back unless the name is an
/// alias, and any other name to a custom region of that name.
#[verifier::external_body]
fn parse_region(name: &str) -> (region: Result<Region, std::str::Utf8Error>)
    ensures
        region is Ok,
        region->Ok_0 == region_from_name(name@),
        !region_alias(name@) ==> region_name_of(region->Ok_0) == name@,
{
    name.parse::<Region>()
}

/// Calls `Credentials::new` with an access key and a secret key and no
/// tokens or profile. Its source returns `Ok` whenever an access key is
/// given, without reading the environment, holding the two keys as given.
#[verifier::external_body]
fn credentials_from_keys(access_key: &str, secret_key: &str) -> (credentials: Result<Credentials, CredentialsError>)
    ensures
        credentials is Ok,
        credentials matches Ok(c) ==> credentials_access_key(c) == Some(access_key@)
            && credentials_secret_key(c) == Some(secret_key@),
{
    Credentials::new(Some(access_key), Some(secret_key), None, None, None)
}

/// Calls `Bucket::new`. Its source fails only where the HTTP client cannot
/// be built, which depends on the machine, so success is not stated; that
/// failure is the HTTP client's own error (`S3Error::Reqwest`). A bucket it
/// returns holds the name, region and credentials given, and is not
/// path-style.
#[verifier::external_body]
fn new_bucket(name: &str, region: Region, credentials: Credentials) -> (bucket: Result<Box<Bucket>, S3Error>)
    ensures
        bucket matches Err(e) ==> e is Reqwest,
        bucket matches Ok(b) ==> {
            &&& bucket_name_of(*b) == name@
            &&& bucket_region_of(*b) == region
            &&& bucket_credentials_of(*b) == credentials
            &&& !bucket_path_style(*b)
        },
{
    Bucket::new(name, region, credentials)
}

/// Calls `Bucket::set_path_style`: the bucket is addressed with path-style
/// URLs from then on; its source sets that flag and nothing else.
#[verifier::external_body]
fn use_path_style(bucket: &mut Bucket)
    ensures
        bucket_path_style(*final(bucket)),
        bucket_name_of(*final(bucket)) == bucket_name_of(*old(bucket)),
        bucket_region_of(*final(bucket)) == bucket_region_of(*old(bucket)),
        bucket_credentials_of(*final(bucket)) == bucket_credentials_of(*old(bucket)),
{
    bucket.set_path_style()
}

/// Reads the `name` field of a bucket.
#[verifier::external_body]
fn bucket_name(bucket: &Bucket) -> (name: String)
    ensures
        name@ == bucket_name_of(*bucket),
{
    bucket.name.clone()
}

/// Calls `<Region as Debug>::fmt` on the region of a bucket.
#[verifier::external_body]
fn region_debug_text(bucket: &Bucket) -> (text: String)
    ensures
        text@ == region_debug_of(bucket_region_of(*bucket)),
{
    format!("{:?}", bucket.region)
}

/// Calls `<str as Debug>::fmt`; its result is named by `str_debug_text`.
#[verifier::external_body]
fn str_debug(s: &str) -> (text: String)
    ensures
        text@ == str_debug_text(s@),
{
    format!("{:?}", s)
}

/// Whether an S3 failure is one of reaching the bucket at all: the HTTP
/// client's own error (connection refused, timeout, TLS) or an I/O error,
/// rather than an answer of the bucket.
pub open spec fn is_connection_failure(error: S3Error) -> bool {
    error is Reqwest || error is Io
}

/// The HTTP client's failures to reach the bucket and I/O failures are
/// connection failures; an answer of the bucket, whatever its status, is not.
pub proof fn lemma_connection_failures(
    client: reqwest::Error,
    io: std::io::Error,
    status: u16,
    body: String,
)
    ensures
        is_connection_failure(S3Error::Reqwest(client)),
        is_connection_failure(S3Error::Io(io)),
        !is_connection_failure(S3Error::HttpFailWithBody(status, body)),
        !is_connection_failure(S3Error::HttpFail),
{
}

#[derive(Debug)]
pub enum StorageError {
    /// The bucket answered, but holds no object under that key.
    NotFound,
    /// The bucket could not be reached, or rejected the request.
    Unreachable(S3Error),
}

impl StorageError {
    /// The error that an S3 failure stands for: `S3Error::HttpFailWithBody`
    /// with status 404 is a missing object, any other failure is kept as the
    /// cause of an unreachable bucket.
    pub fn from(error: S3Error) -> (result: StorageError)
        ensures
            error matches S3Error::HttpFailWithBody(status, _) && status == 404 ==> result is NotFound,
            !(error matches S3Error::HttpFailWithBody(status, _) && status == 404) ==> result
                == StorageError::Unreachable(error),
    {
        match error {
            S3Error::HttpFailWithBody(404, _) => StorageError::NotFound,
            other => StorageError::Unreachable(other),
        }
    }

    /// The S3 failure behind the error, if any.
    pub fn cause(&self) -> (cause: Option<&S3Error>)
        ensures
            match self {
                StorageError::NotFound => cause is None,
                StorageError::Unreachable(error) => cause == Some(error),
            },
    {
        match self {
            StorageError::NotFound => None,
            StorageError::Unreachable(error) => Some(error),
        }
    }

    /// The text that describes the error.
    pub fn message(&self) -> (text: String)
        ensures
            self is NotFound ==> text@ == "no such object in the bucket"@,
            self is Unreachable ==> exists|cause: String|
                vstd::string::to_string_from_display_ensures::<S3Error>(&self->Unreachable_0, cause)
                && text@ == "S3 request failed: "@ + cause@,
    {
        match self {
            StorageError::NotFound => "no such object in the bucket".to_owned(),
            StorageError::Unreachable(error) => {
                let cause = error.to_string();
                let mut text = "S3 request failed: ".to_owned();
                text.append(cause.as_str());
                text
            },
        }
    }
}

/// The region a bucket is addressed in.
pub enum RegionChoice {
    /// A region served by a custom endpoint.
    Custom { region: String, endpoint: String },
    /// A region known by its name.
    Named(String),
}

/// Where the bucket's credentials come from.
pub enum CredentialSource {
    /// The access key and secret key of the settings.
    Keys { access_key: String, secret_key: String },
    /// The AWS credential chain: environment, profile, instance role.
    Environment,
}

/// The object key of a cache entry: `{prefix}/{cache_id}`.
pub open spec fn object_key_of(prefix: Seq<char>, cache_id: Seq<char>) -> Seq<char> {
    prefix + "/"@ + cache_id
}

/// The text that describes a storage: its bucket's name and region and its
/// key prefix, never its credentials.
pub open spec fn storage_description(name_text: Seq<char>, region_text: Seq<char>, prefix_text: Seq<char>) -> Seq<char> {
    "Storage { bucket_name: "@ + name_text + ", region: "@ + region_text + ", prefix: "@ + prefix_text
        + ", .. }"@
}

/// The layout of an object key: the whole prefix, then one `/`, then the
/// cache id unchanged, and nothing else.
pub proof fn lemma_object_key_layout(prefix: Seq<char>, cache_id: Seq<char>)
    ensures
        object_key_of(prefix, cache_id).len() == prefix.len() + 1 + cache_id.len(),
        object_key_of(prefix, cache_id).take(prefix.len() as int) == prefix,
        object_key_of(prefix, cache_id)[prefix.len() as int] == '/',
        object_key_of(prefix, cache_id).skip(prefix.len() + 1int) == cache_id,
{
    reveal_strlit("/");
    let k = object_key_of(prefix, cache_id);
    assert(k.take(prefix.len() as int) =~= prefix);
    assert(k.skip(prefix.len() + 1int) =~= cache_id);
}

/// Distinct cache ids are stored under distinct object keys, and an id is
/// always stored under the same key: a GET finds what a PUT of the same id
/// stored, and nothing else.
pub proof fn lemma_object_keys_distinct(prefix: Seq<char>, a: Seq<char>, b: Seq<char>)
    ensures
        object_key_of(prefix, a) == object_key_of(prefix, b) <==> a == b,
{
    reveal_strlit("/");
    let ka = object_key_of(prefix, a);
    let kb = object_key_of(prefix, b);
    if ka == kb {
        assert(ka.skip(prefix.len() + 1int) =~= a);
        assert(kb.skip(prefix.len() + 1int) =~= b);
    }
}

/// What a GET of `cache_id` finds in a bucket that holds `objects` by key:
/// the bytes under the cache id's object key, if any.
pub open spec fn fetched(objects: Map<Seq<char>, Seq<u8>>, prefix: Seq<char>, cache_id: Seq<char>) -> Option<Seq<u8>> {
    let key = object_key_of(prefix, cache_id);
    if objects.contains_key(key) {
        Some(objects[key])
    } else {
        None
    }
}

/// What a bucket that keeps what it is sent holds after a PUT of `data` for
/// `cache_id`.
pub open spec fn after_upload(
    objects: Map<Seq<char>, Seq<u8>>,
    prefix: Seq<char>,
    cache_id: Seq<char>,
    data: Seq<u8>,
) -> Map<Seq<char>, Seq<u8>> {
    objects.insert(object_key_of(prefix, cache_id), data)
}

/// PUT then GET: in a bucket that keeps what it is sent, a GET of a cache id
/// finds the bytes of the last PUT of that id, and a PUT of one id leaves
/// what a GET of any other id finds unchanged.
pub proof fn lemma_put_then_get(
    objects: Map<Seq<char>, Seq<u8>>,
    prefix: Seq<char>,
    cache_id: Seq<char>,
    data: Seq<u8>,
    other: Seq<char>,
)
    ensures
        fetched(after_upload(objects, prefix, cache_id, data), prefix, cache_id) == Some(data),
        other != cache_id ==> fetched(after_upload(objects, prefix, cache_id, data), prefix, other)
            == fetched(objects, prefix, other),
{
    lemma_object_keys_distinct(prefix, cache_id, other);
}

/// The region that the settings configure: the custom endpoint's region where
/// `S3_ENDPOINT` is set, else the region that `S3_REGION` names.
pub open spec fn configured_region(settings: AppSettings) -> Region {
    match settings.s3_endpoint {
        Some(endpoint) => Region::Custom { region: settings.s3_region, endpoint },
        None => region_from_name(settings.s3_region@),
    }
}

/// `storage` is the one that the settings and `credentials` configure: the
/// settings' bucket, in the configured region, signed with `credentials`,
/// path-style where the settings ask for it, under the settings' key prefix.
pub open spec fn storage_built_from(storage: Storage, settings: AppSettings, credentials: Credentials) -> bool {
    &&& storage.key_prefix() == settings.s3_prefix@
    &&& bucket_name_of(storage.bucket_handle()) == settings.s3_bucket@
    &&& bucket_region_of(storage.bucket_handle()) == configured_region(settings)
    &&& bucket_credentials_of(storage.bucket_handle()) == credentials
    &&& bucket_path_style(storage.bucket_handle()) == settings.s3_use_path_style
}

pub struct Storage {
    bucket: Box<Bucket>,
    prefix: String,
}

impl Storage {
    /// The prefix of every object key.
    pub closed spec fn key_prefix(&self) -> Seq<char> {
        self.prefix@
    }

    /// The bucket handle through which the artifacts are read and written.
    pub closed spec fn bucket_handle(&self) -> Bucket {
        *self.bucket
    }

    /// The text that describes the storage in logs.
    pub open spec fn description(&self) -> Seq<char> {
        storage_description(
            str_debug_text(bucket_name_of(self.bucket_handle())),
            region_debug_of(bucket_region_of(self.bucket_handle())),
            str_debug_text(self.key_prefix()),
        )
    }

    /// The region of the settings: served by the custom endpoint where one
    /// is set, else known by its name.
    pub fn region_choice(settings: &AppSettings) -> (choice: RegionChoice)
        ensures
            match choice {
                RegionChoice::Custom { region, endpoint } => settings.s3_endpoint matches Some(e)
                    && endpoint == e && region == settings.s3_region,
                RegionChoice::Named(name) => settings.s3_endpoint is None && name@ == settings.s3_region@,
            },
    {
        match &settings.s3_endpoint {
            Some(endpoint) => RegionChoice::Custom {
                region: settings.s3_region.clone(),
                endpoint: endpoint.clone(),
            },
            None => RegionChoice::Named(settings.s3_region.clone()),
        }
    }

    /// The credentials of the settings: their keys where both are set, else
    /// the AWS credential chain.
    pub fn credential_source(settings: &AppSettings) -> (source: CredentialSource)
        ensures
            match source {
                CredentialSource::Keys { access_key, secret_key } => settings.s3_access_key matches Some(a)
                    && settings.s3_secret_key matches Some(s) && access_key@ == a@ && secret_key@ == s@,
                CredentialSource::Environment => settings.s3_access_key is None || settings.s3_secret_key is None,
            },
    {
        match (&settings.s3_access_key, &settings.s3_secret_key) {
            (Some(access_key), Some(secret_key)) => CredentialSource::Keys {
                access_key: access_key.clone(),
                secret_key: secret_key.clone(),
            },
            _ => CredentialSource::Environment,
        }
    }

    /// The credentials made of the keys of the settings, where both are set;
    /// `None` where the AWS credential chain is to be asked.
    pub fn explicit_credentials(settings: &AppSettings) -> (credentials: Option<Credentials>)
        ensures
            credentials is Some <==> (settings.s3_access_key is Some && settings.s3_secret_key is Some),
            credentials matches Some(c) ==> credentials_access_key(c) == Some(settings.s3_access_key->0@)
                && credentials_secret_key(c) == Some(settings.s3_secret_key->0@),
    {
        match Storage::credential_source(settings) {
            CredentialSource::Keys { access_key, secret_key } => {
                match credentials_from_keys(access_key.as_str(), secret_key.as_str()) {
                    Ok(credentials) => Some(credentials),
                    Err(_) => None,
                }
            },
            CredentialSource::Environment => None,
        }
    }

    /// The storage of the settings' bucket, reached with `credentials`, in the
    /// region that `region_choice` gives (the custom endpoint where one is
    /// set), path-style where the settings ask for it, under the settings' key
    /// prefix. Whether the bucket handle can be built at all depends on the
    /// machine, so success is not promised.
    pub fn new(settings: &AppSettings, credentials: Credentials) -> (storage: Result<Storage, S3Error>)
        ensures
            storage matches Ok(s) ==> storage_built_from(s, *settings, credentials),
            storage matches Err(e) ==> e is Reqwest,
    {
        let region = match Storage::region_choice(settings) {
            RegionChoice::Custom { region, endpoint } => Region::Custom { region, endpoint },
            RegionChoice::Named(name) => match parse_region(name.as_str()) {
                Ok(region) => region,
                Err(_) => vstd::pervasive::unreached(),
            },
        };
        let bucket = new_bucket(settings.s3_bucket.as_str(), region, credentials);
        Storage::from_bucket(settings, bucket)
    }

    /// The storage that the outcome of building the bucket handle gives: the
    /// builder's error where it failed, else the handle, switched to
    /// path-style URLs where the settings ask for it, under the settings' key
    /// prefix.
    pub fn from_bucket(settings: &AppSettings, bucket: Result<Box<Bucket>, S3Error>) -> (storage: Result<Storage, S3Error>)
        ensures
            bucket matches Err(e) ==> storage == Err::<Storage, S3Error>(e),
            bucket is Ok <==> storage is Ok,
            storage matches Ok(s) ==> {
                &&& s.key_prefix() == settings.s3_prefix@
                &&& bucket_name_of(s.bucket_handle()) == bucket_name_of(*bucket->Ok_0)
                &&& bucket_region_of(s.bucket_handle()) == bucket_region_of(*bucket->Ok_0)
                &&& bucket_credentials_of(s.bucket_handle()) == bucket_credentials_of(*bucket->Ok_0)
                &&& bucket_path_style(s.bucket_handle()) == (settings.s3_use_path_style || bucket_path_style(
                    *bucket->Ok_0,
                ))
                &&& !settings.s3_use_path_style ==> s.bucket_handle() == *bucket->Ok_0
            },
    {
        let mut bucket = match bucket {
            Ok(bucket) => bucket,
            Err(error) => return Err(error),
        };
        if settings.s3_use_path_style {
            use_path_style(&mut bucket);
        }
        Ok(Storage { bucket, prefix: settings.s3_prefix.clone() })
    }

    /// The object key of a cache entry.
    pub fn object_key(&self, cache_id: &str) -> (key: String)
        ensures
            key@ == object_key_of(self.key_prefix(), cache_id@),
            key@.len() == self.key_prefix().len() + 1 + cache_id@.len(),
            key@.take(self.key_prefix().len() as int) == self.key_prefix(),
            key@[self.key_prefix().len() as int] == '/',
            key@.skip(self.key_prefix().len() + 1int) == cache_id@,
    {
        let mut key = self.prefix.clone();
        key.append("/");
        key.append(cache_id);
        proof {
            lemma_object_key_layout(self.key_prefix(), cache_id@);
        }
        key
    }

    /// The bucket that holds the artifacts.
    pub fn bucket(&self) -> (bucket: &Bucket)
        ensures
            *bucket == self.bucket_handle(),
    {
        &self.bucket
    }

    /// The text that describes the storage in logs: the bucket's name and
    /// region and the key prefix; the credentials have no part in it.
    pub fn debug_string(&self) -> (text: String)
        ensures
            text@ == self.description(),
    {
        let name = bucket_name(&self.bucket);
        let name_text = str_debug(name.as_str());
        let region_text = region_debug_text(&self.bucket);
        let prefix_text = str_debug(self.prefix.as_str());
        let mut text = "Storage { bucket_name: ".to_owned();
        text.append(name_text.as_str());
        text.append(", region: ");
        text.append(region_text.as_str());
        text.append(", prefix: ");
        text.append(prefix_text.as_str());
        text.append(", .. }");
        proof {
            assert(text@ =~= storage_description(str_debug_text(name@), region_text@, str_debug_text(self.prefix@)));
        }
        text
    }
}

/// The description of a storage depends on the bucket, region and prefix of
/// its settings alone: storages built from settings that differ in their keys
/// (or anything else but those) describe themselves alike, so no key can show
/// in a log.
pub proof fn lemma_description_ignores_keys(
    a: Storage,
    b: Storage,
    settings_a: AppSettings,
    settings_b: AppSettings,
    credentials_a: Credentials,
    credentials_b: Credentials,
)
    requires
        storage_built_from(a, settings_a, credentials_a),
        storage_built_from(b, settings_b, credentials_b),
        settings_a.s3_bucket@ == settings_b.s3_bucket@,
        settings_a.s3_region == settings_b.s3_region,
        settings_a.s3_endpoint == settings_b.s3_endpoint,
        settings_a.s3_prefix@ == settings_b.s3_prefix@,
    ensures
        a.description() == b.description(),
{
}

} // verus!
