//! S3-compatible backend settings.

use vstd::prelude::*;
use vstd::string::*;

use crate::config::env::{env_bool, filled_variable, switch, Environment};
use crate::config::error::{ConfigError, ConfigErrorView};
use crate::text::text_view;

verus! {

/// S3-compatible backend settings.
#[derive(Debug, PartialEq, Eq)]
pub struct S3Settings {
    bucket: Option<String>,
    region: Option<String>,
    endpoint: Option<String>,
    allow_http: bool,
    access_key: Option<String>,
    secret_key: Option<String>,
}

/// What the S3 backend is set to.
#[verifier::ext_equal]
pub struct S3SettingsView {
    pub bucket: Option<Seq<char>>,
    pub region: Option<Seq<char>>,
    pub endpoint: Option<Seq<char>>,
    pub allow_http: bool,
    pub access_key: Option<Seq<char>>,
    pub secret_key: Option<Seq<char>>,
}

impl View for S3Settings {
    type V = S3SettingsView;

    closed spec fn view(&self) -> S3SettingsView {
        S3SettingsView {
            bucket: text_view(self.bucket),
            region: text_view(self.region),
            endpoint: text_view(self.endpoint),
            allow_http: self.allow_http,
            access_key: text_view(self.access_key),
            secret_key: text_view(self.secret_key),
        }
    }
}

/// The S3 settings in an environment.
pub open spec fn s3_settings(env: Seq<(Seq<char>, Seq<char>)>) -> Result<
    S3SettingsView,
    ConfigErrorView,
> {
    match switch(env, "S3_ALLOW_HTTP"@, false) {
        Err(e) => Err(e),
        Ok(allow_http) => Ok(
            S3SettingsView {
                bucket: filled_variable(env, "S3_BUCKET"@),
                region: filled_variable(env, "S3_REGION"@),
                endpoint: filled_variable(env, "S3_ENDPOINT"@),
                allow_http,
                access_key: filled_variable(env, "S3_ACCESS_KEY"@),
                secret_key: filled_variable(env, "S3_SECRET_KEY"@),
            },
        ),
    }
}

impl S3Settings {
    /// The bucket, which makes S3 the storage.
    pub fn bucket(&self) -> (r: Option<&String>)
        ensures
            match r {
                Some(t) => self@.bucket == Some(t@),
                None => self@.bucket is None,
            },
    {
        self.bucket.as_ref()
    }

    /// The region.
    pub fn region(&self) -> (r: Option<&String>)
        ensures
            match r {
                Some(t) => self@.region == Some(t@),
                None => self@.region is None,
            },
    {
        self.region.as_ref()
    }

    /// The endpoint, where it is not that of AWS.
    pub fn endpoint(&self) -> (r: Option<&String>)
        ensures
            match r {
                Some(t) => self@.endpoint == Some(t@),
                None => self@.endpoint is None,
            },
    {
        self.endpoint.as_ref()
    }

    /// Whether the endpoint may be reached without encryption.
    pub fn allow_http(&self) -> (r: bool)
        ensures
            r == self@.allow_http,
    {
        self.allow_http
    }

    /// The access key.
    pub fn access_key(&self) -> (r: Option<&String>)
        ensures
            match r {
                Some(t) => self@.access_key == Some(t@),
                None => self@.access_key is None,
            },
    {
        self.access_key.as_ref()
    }

    /// The secret key.
    pub fn secret_key(&self) -> (r: Option<&String>)
        ensures
            match r {
                Some(t) => self@.secret_key == Some(t@),
                None => self@.secret_key is None,
            },
    {
        self.secret_key.as_ref()
    }

    pub fn from_env(env: &Environment) -> (r: Result<S3Settings, ConfigError>)
        ensures
            match (r, s3_settings(env@)) {
                (Ok(a), Ok(b)) => a@ == b,
                (Err(a), Err(b)) => a@ == b,
                _ => false,
            },
    {
        let allow_http = env_bool(env, "S3_ALLOW_HTTP", false)?;
        Ok(
            S3Settings {
                bucket: env.filled("S3_BUCKET"),
                region: env.filled("S3_REGION"),
                endpoint: env.filled("S3_ENDPOINT"),
                allow_http,
                access_key: env.filled("S3_ACCESS_KEY"),
                secret_key: env.filled("S3_SECRET_KEY"),
            },
        )
    }
}

/// The object store is set by its own variables, each for itself; unencrypted access is off unless it is
/// switched on.
pub proof fn s3_is_set_as_documented(env: Seq<(Seq<char>, Seq<char>)>)
    ensures
        s3_settings(env) is Ok <==> switch(env, "S3_ALLOW_HTTP"@, false) is Ok,
        s3_settings(env) matches Ok(s3) ==> {
            &&& s3.bucket == filled_variable(env, "S3_BUCKET"@)
            &&& s3.region == filled_variable(env, "S3_REGION"@)
            &&& s3.endpoint == filled_variable(env, "S3_ENDPOINT"@)
            &&& s3.access_key == filled_variable(env, "S3_ACCESS_KEY"@)
            &&& s3.secret_key == filled_variable(env, "S3_SECRET_KEY"@)
            &&& switch(env, "S3_ALLOW_HTTP"@, false) == Ok::<bool, ConfigErrorView>(s3.allow_http)
            &&& crate::config::env::variable(env, "S3_ALLOW_HTTP"@) is None ==> !s3.allow_http
        },
{
}

} // verus!
