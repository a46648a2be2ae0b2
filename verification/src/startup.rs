//! Decisions made at startup.

use vstd::prelude::*;
use vstd::string::*;

use crate::config::env::{variable, variable_or, Environment};
use crate::config::Config;
use crate::storage::s3::S3Backend;
use crate::text::{begins_with, text_view};

verus! {

/// Where errors are reported to: `SENTRY_DSN_JUICEHOST`, or `SENTRY_DSN` where that is not set.
/// An empty address is none.
pub open spec fn report_address(env: Seq<(Seq<char>, Seq<char>)>) -> Option<Seq<char>> {
    let address = match variable(env, "SENTRY_DSN_JUICEHOST"@) {
        Some(v) => Some(v),
        None => variable(env, "SENTRY_DSN"@),
    };
    match address {
        Some(v) => if v.len() > 0 {
            Some(v)
        } else {
            None
        },
        None => None,
    }
}

/// Where errors are reported to.
pub fn sentry_dsn(env: &Environment) -> (r: Option<String>)
    ensures
        text_view(r) == report_address(env@),
{
    let address = match env.var("SENTRY_DSN_JUICEHOST") {
        Some(v) => Some(v),
        None => env.var("SENTRY_DSN"),
    };
    match address {
        Some(v) => if v.unicode_len() > 0 {
            Some(v.to_owned())
        } else {
            None
        },
        None => None,
    }
}

/// The environment that errors are reported for.
pub fn sentry_environment(env: &Environment) -> (r: String)
    ensures
        r@ == variable_or(env@, "SENTRY_ENVIRONMENT"@, "production"@),
{
    env.var_or("SENTRY_ENVIRONMENT", "production")
}

/// A text, or a default.
pub open spec fn text_or(text: Option<String>, default: Seq<char>) -> Seq<char> {
    match text {
        Some(t) => t@,
        None => default,
    }
}

/// The client of the object store, where files are stored in one.
pub fn s3_backend(config: &Config) -> (r: Option<Result<S3Backend, String>>)
    ensures
        match r {
            None => config.s3_bucket is None,
            Some(Ok(s3)) => {
                &&& text_view(config.s3_bucket) == Some(s3.bucket@)
                &&& s3.region@ == text_or(config.s3_region, "us-east-1"@)
                &&& config.s3_region is None ==> s3.region@ == "us-east-1"@
                &&& config.s3_region matches Some(region) ==> s3.region@ == region@
                &&& config.s3_access_key matches Some(key) ==> s3.access_key@ == key@
                &&& config.s3_secret_key matches Some(key) ==> s3.secret_key@ == key@
                &&& text_view(s3.endpoint) == text_view(config.s3_endpoint)
                &&& s3.access_key@ == text_or(config.s3_access_key, ""@)
                &&& s3.secret_key@ == text_or(config.s3_secret_key, ""@)
                &&& s3.allow_http == (config.s3_endpoint is Some && config.s3_allow_http)
                &&& config.s3_endpoint matches Some(url) ==> begins_with(url@, "http://"@)
                    ==> config.s3_allow_http
            },
            Some(Err(text)) => {
                &&& config.s3_bucket is Some
                &&& config.s3_endpoint matches Some(url) && begins_with(url@, "http://"@)
                &&& !config.s3_allow_http
                &&& text@ == "S3_ENDPOINT uses HTTP; set S3_ALLOW_HTTP=true to allow it"@
            },
        },
{
    let bucket = match &config.s3_bucket {
        Some(bucket) => bucket.as_str(),
        None => return None,
    };
    let region = match &config.s3_region {
        Some(region) => region.as_str(),
        None => "us-east-1",
    };
    let endpoint: Option<&str> = match &config.s3_endpoint {
        Some(url) => Some(url.as_str()),
        None => None,
    };
    let access_key = match &config.s3_access_key {
        Some(key) => key.as_str(),
        None => "",
    };
    let secret_key = match &config.s3_secret_key {
        Some(key) => key.as_str(),
        None => "",
    };
    Some(
        S3Backend::new(bucket, region, endpoint, access_key, secret_key, config.s3_allow_http),
    )
}

/// The minimum free space in whole gibibytes, as it is reported.
pub fn min_free_gib(config: &Config) -> (r: u64)
    ensures
        r == config.min_free_space_bytes / 1073741824,
{
    config.min_free_space_bytes / 1073741824
}

/// Errors are reported to the address that is set for this service, and only where none is set to the
/// common one. A service whose own address is empty reports nothing.
pub proof fn own_report_address_goes_first(env: Seq<(Seq<char>, Seq<char>)>)
    ensures
        variable(env, "SENTRY_DSN_JUICEHOST"@) matches Some(own) ==> report_address(env) == (if own.len()
            == 0 {
            None
        } else {
            Some(own)
        }),
        variable(env, "SENTRY_DSN_JUICEHOST"@) is None ==> match variable(env, "SENTRY_DSN"@) {
            Some(common) => report_address(env) == (if common.len() == 0 {
                None
            } else {
                Some(common)
            }),
            None => report_address(env) is None,
        },
{
}

} // verus!
