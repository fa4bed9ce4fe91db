//! The outside types that the storage logic carries: the bucket handle, its
//! region and credentials, and the S3 error with every type its variants hold.
use vstd::prelude::*;

use s3::bucket::Bucket;
use s3::creds::error::CredentialsError;
use s3::creds::Credentials;
use s3::error::S3Error;
use s3::Region;

verus! {

#[verifier::external_type_specification]
#[verifier::external_body]
pub struct ExBucket(Bucket);

/// Declared with its variants, so that verified code can build a custom
/// region and state which region a bucket is in.
#[verifier::external_type_specification]
pub struct ExRegion(Region);

#[verifier::external_type_specification]
#[verifier::external_body]
pub struct ExCredentials(Credentials);

#[verifier::external_type_specification]
#[verifier::external_body]
pub struct ExCredentialsError(CredentialsError);

/// Declared with its variants, so that verified code can tell them apart.
#[verifier::external_type_specification]
pub struct ExS3Error(S3Error);

#[verifier::external_type_specification]
#[verifier::external_body]
pub struct ExRegionError(s3::region::error::RegionError);

#[verifier::external_type_specification]
#[verifier::external_body]
pub struct ExInvalidLength(sha2::digest::InvalidLength);

#[verifier::external_type_specification]
#[verifier::external_body]
pub struct ExUrlParseError(url::ParseError);

#[verifier::external_type_specification]
#[verifier::external_body]
pub struct ExIoError(std::io::Error);

#[verifier::external_type_specification]
#[verifier::external_body]
pub struct ExHttpError(http::Error);

#[verifier::external_type_specification]
#[verifier::external_body]
pub struct ExHeaderName(http::header::HeaderName);

#[verifier::external_type_specification]
#[verifier::external_body]
pub struct ExInvalidHeaderValue(http::header::InvalidHeaderValue);

#[verifier::external_type_specification]
#[verifier::external_body]
pub struct ExInvalidHeaderName(http::header::InvalidHeaderName);

#[verifier::external_type_specification]
#[verifier::external_body]
pub struct ExToStrError(http::header::ToStrError);

#[verifier::external_type_specification]
#[verifier::external_body]
pub struct ExReqwestError(reqwest::Error);

#[verifier::external_type_specification]
#[verifier::external_body]
pub struct ExFromUtf8Error(std::string::FromUtf8Error);

#[verifier::external_type_specification]
#[verifier::external_body]
pub struct ExXmlDeError(quick_xml::de::DeError);

#[verifier::external_type_specification]
#[verifier::external_body]
pub struct ExXmlSeError(quick_xml::SeError);

#[verifier::external_type_specification]
#[verifier::external_body]
pub struct ExTimeFormatError(time::error::Format);

#[verifier::external_type_specification]
#[verifier::external_body]
pub struct ExFmtError(std::fmt::Error);

#[verifier::external_type_specification]
#[verifier::external_body]
pub struct ExJsonError(serde_json::Error);

#[verifier::external_type_specification]
#[verifier::external_body]
pub struct ExPostPolicyError(s3::post_policy::PostPolicyError);


#[verifier::external_type_specification]
#[verifier::external_body]
pub struct ExUtf8Error(std::str::Utf8Error);

} // verus!
