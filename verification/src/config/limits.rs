//! Concurrency and timeout limit settings.

use vstd::prelude::*;

use crate::config::env::{
    bounded, bounded_count, bounded_env, fits, lemma_bounded, says, tells_of, variable, Environment,
};
use crate::config::error::{ConfigError, ConfigErrorView};
use crate::text::{parse_unsigned, unsigned};

verus! {

/// Bytes in a mebibyte.
pub const MIB: u64 = 1048576;

/// Bytes in a gibibyte.
pub const GIB: u64 = 1073741824;

/// Concurrency and timeout limit settings.
#[derive(Debug, PartialEq, Eq)]
pub struct LimitsSettings {
    min_free_space_bytes: u64,
    max_file_size_bytes: u64,
    max_range_response_bytes: u64,
    max_concurrent_uploads: usize,
    max_concurrent_downloads: usize,
    max_concat_parts: usize,
    tcp_body_inactivity_seconds: u64,
    tcp_request_total_seconds: u64,
    tcp_max_concurrent_requests: usize,
}

/// What the limits are set to.
#[verifier::ext_equal]
pub struct LimitsView {
    pub min_free_space_bytes: u64,
    pub max_file_size_bytes: u64,
    pub max_range_response_bytes: u64,
    pub max_concurrent_uploads: u64,
    pub max_concurrent_downloads: u64,
    pub max_concat_parts: u64,
    pub tcp_body_inactivity_seconds: u64,
    pub tcp_request_total_seconds: u64,
    pub tcp_max_concurrent_requests: u64,
}

impl View for LimitsSettings {
    type V = LimitsView;

    closed spec fn view(&self) -> LimitsView {
        LimitsView {
            min_free_space_bytes: self.min_free_space_bytes,
            max_file_size_bytes: self.max_file_size_bytes,
            max_range_response_bytes: self.max_range_response_bytes,
            max_concurrent_uploads: self.max_concurrent_uploads as u64,
            max_concurrent_downloads: self.max_concurrent_downloads as u64,
            max_concat_parts: self.max_concat_parts as u64,
            tcp_body_inactivity_seconds: self.tcp_body_inactivity_seconds,
            tcp_request_total_seconds: self.tcp_request_total_seconds,
            tcp_max_concurrent_requests: self.tcp_max_concurrent_requests as u64,
        }
    }
}

/// The minimum free space in gibibytes: what is no number counts as not set.
pub open spec fn min_free_gib(env: Seq<(Seq<char>, Seq<char>)>) -> nat {
    match variable(env, "MIN_FREE_SPACE_GB"@) {
        Some(raw) => match unsigned(raw, u64::MAX as nat) {
            Some(n) => n,
            None => 5,
        },
        None => 5,
    }
}

/// The limits in an environment.
pub open spec fn limits_settings(env: Seq<(Seq<char>, Seq<char>)>) -> Result<
    LimitsView,
    ConfigErrorView,
> {
    let top = usize::MAX as u64;
    match (
        bounded(env, "MAX_FILE_SIZE_MB"@, 500, 1, 1048576, u64::MAX),
        bounded(env, "MAX_RANGE_RESPONSE_MB"@, 16, 1, 1024, u64::MAX),
        bounded(env, "MAX_CONCURRENT_UPLOADS"@, 16, 1, 4096, top),
        bounded(env, "MAX_CONCURRENT_DOWNLOADS"@, 64, 1, 4096, top),
        bounded(env, "MAX_CONCAT_PARTS"@, 128, 1, 4096, top),
        bounded(env, "TCP_BODY_INACTIVITY_SECONDS"@, 30, 1, 3600, u64::MAX),
        bounded(env, "TCP_REQUEST_TOTAL_SECONDS"@, 600, 1, 86400, u64::MAX),
        bounded(env, "TCP_MAX_CONCURRENT_REQUESTS"@, 512, 1, 65536, top),
    ) {
        (Err(e), _, _, _, _, _, _, _) => Err(e),
        (_, Err(e), _, _, _, _, _, _) => Err(e),
        (_, _, Err(e), _, _, _, _, _) => Err(e),
        (_, _, _, Err(e), _, _, _, _) => Err(e),
        (_, _, _, _, Err(e), _, _, _) => Err(e),
        (_, _, _, _, _, Err(e), _, _) => Err(e),
        (_, _, _, _, _, _, Err(e), _) => Err(e),
        (_, _, _, _, _, _, _, Err(e)) => Err(e),
        (
            Ok(file_mib),
            Ok(range_mib),
            Ok(max_concurrent_uploads),
            Ok(max_concurrent_downloads),
            Ok(max_concat_parts),
            Ok(tcp_body_inactivity_seconds),
            Ok(tcp_request_total_seconds),
            Ok(tcp_max_concurrent_requests),
        ) => Ok(
            LimitsView {
                min_free_space_bytes: (min_free_gib(env) * GIB) as u64,
                max_file_size_bytes: (file_mib * MIB) as u64,
                max_range_response_bytes: (range_mib * MIB) as u64,
                max_concurrent_uploads,
                max_concurrent_downloads,
                max_concat_parts,
                tcp_body_inactivity_seconds,
                tcp_request_total_seconds,
                tcp_max_concurrent_requests,
            },
        ),
    }
}

fn min_free(env: &Environment) -> (r: u64)
    ensures
        r == min_free_gib(env@),
{
    match env.var("MIN_FREE_SPACE_GB") {
        Some(raw) => match parse_unsigned(raw, u64::MAX) {
            Some(n) => n,
            None => 5,
        },
        None => 5,
    }
}

/// Tells whether the minimum free space can be counted in bytes.
pub fn min_free_space_fits(env: &Environment) -> (r: bool)
    ensures
        r == (min_free_gib(env@) * GIB <= u64::MAX),
{
    min_free(env) <= u64::MAX / GIB
}

impl LimitsSettings {
    /// Minimum free space before writes are rejected.
    pub fn min_free_space_bytes(&self) -> (r: u64)
        ensures
            r == self@.min_free_space_bytes,
    {
        self.min_free_space_bytes
    }

    /// Maximum file size.
    pub fn max_file_size_bytes(&self) -> (r: u64)
        ensures
            r == self@.max_file_size_bytes,
    {
        self.max_file_size_bytes
    }

    /// Maximum single-range response size.
    pub fn max_range_response_bytes(&self) -> (r: u64)
        ensures
            r == self@.max_range_response_bytes,
    {
        self.max_range_response_bytes
    }

    /// Concurrent storage writes.
    pub fn max_concurrent_uploads(&self) -> (r: usize)
        ensures
            r == self@.max_concurrent_uploads,
    {
        self.max_concurrent_uploads
    }

    /// Concurrent response streams.
    pub fn max_concurrent_downloads(&self) -> (r: usize)
        ensures
            r == self@.max_concurrent_downloads,
    {
        self.max_concurrent_downloads
    }

    /// Maximum parts in one concatenation.
    pub fn max_concat_parts(&self) -> (r: usize)
        ensures
            r == self@.max_concat_parts,
    {
        self.max_concat_parts
    }

    /// Request-body inactivity timeout.
    pub fn tcp_body_inactivity_seconds(&self) -> (r: u64)
        ensures
            r == self@.tcp_body_inactivity_seconds,
    {
        self.tcp_body_inactivity_seconds
    }

    /// Total TCP request timeout.
    pub fn tcp_request_total_seconds(&self) -> (r: u64)
        ensures
            r == self@.tcp_request_total_seconds,
    {
        self.tcp_request_total_seconds
    }

    /// Concurrent TCP requests.
    pub fn tcp_max_concurrent_requests(&self) -> (r: usize)
        ensures
            r == self@.tcp_max_concurrent_requests,
    {
        self.tcp_max_concurrent_requests
    }

    pub fn from_env(env: &Environment) -> (r: Result<LimitsSettings, ConfigError>)
        requires
            min_free_gib(env@) * GIB <= u64::MAX,
        ensures
            match (r, limits_settings(env@)) {
                (Ok(a), Ok(b)) => a@ == b,
                (Err(a), Err(b)) => a@ == b,
                _ => false,
            },
    {
        let min_free_space_bytes: u64 = min_free(env) * GIB;
        let max_file_size_bytes: u64 = bounded_env(env, "MAX_FILE_SIZE_MB", 500, 1, 1048576)?
            * MIB;
        let max_range_response_bytes: u64 = bounded_env(env, "MAX_RANGE_RESPONSE_MB", 16, 1, 1024)?
            * MIB;
        let max_concurrent_uploads = bounded_count(env, "MAX_CONCURRENT_UPLOADS", 16, 1, 4096)?;
        let max_concurrent_downloads = bounded_count(
            env,
            "MAX_CONCURRENT_DOWNLOADS",
            64,
            1,
            4096,
        )?;
        let max_concat_parts = bounded_count(env, "MAX_CONCAT_PARTS", 128, 1, 4096)?;
        let tcp_body_inactivity_seconds = bounded_env(
            env,
            "TCP_BODY_INACTIVITY_SECONDS",
            30,
            1,
            3600,
        )?;
        let tcp_request_total_seconds = bounded_env(
            env,
            "TCP_REQUEST_TOTAL_SECONDS",
            600,
            1,
            86400,
        )?;
        let tcp_max_concurrent_requests = bounded_count(
            env,
            "TCP_MAX_CONCURRENT_REQUESTS",
            512,
            1,
            65536,
        )?;
        Ok(
            LimitsSettings {
                min_free_space_bytes,
                max_file_size_bytes,
                max_range_response_bytes,
                max_concurrent_uploads,
                max_concurrent_downloads,
                max_concat_parts,
                tcp_body_inactivity_seconds,
                tcp_request_total_seconds,
                tcp_max_concurrent_requests,
            },
        )
    }
}

/// The limits are those that are set, in the documented units, or the documented defaults; they are
/// taken exactly where every one of them is a number within its documented bounds. The free space is
/// the exception: what is no number there counts as not set.
pub proof fn limits_are_as_documented(env: Seq<(Seq<char>, Seq<char>)>)
    requires
        min_free_gib(env) * GIB <= u64::MAX,
    ensures
        limits_settings(env) is Ok <==> {
            &&& fits(env, "MAX_FILE_SIZE_MB"@, 1, 1048576)
            &&& fits(env, "MAX_RANGE_RESPONSE_MB"@, 1, 1024)
            &&& fits(env, "MAX_CONCURRENT_UPLOADS"@, 1, 4096)
            &&& fits(env, "MAX_CONCURRENT_DOWNLOADS"@, 1, 4096)
            &&& fits(env, "MAX_CONCAT_PARTS"@, 1, 4096)
            &&& fits(env, "TCP_BODY_INACTIVITY_SECONDS"@, 1, 3600)
            &&& fits(env, "TCP_REQUEST_TOTAL_SECONDS"@, 1, 86400)
            &&& fits(env, "TCP_MAX_CONCURRENT_REQUESTS"@, 1, 65536)
        },
        limits_settings(env) matches Ok(limits) ==> {
            &&& says(env, "MAX_FILE_SIZE_MB"@, 500, limits.max_file_size_bytes as int / 1048576)
            &&& limits.max_file_size_bytes % 1048576 == 0
            &&& says(
                env,
                "MAX_RANGE_RESPONSE_MB"@,
                16,
                limits.max_range_response_bytes as int / 1048576,
            )
            &&& limits.max_range_response_bytes % 1048576 == 0
            &&& says(env, "MAX_CONCURRENT_UPLOADS"@, 16, limits.max_concurrent_uploads as int)
            &&& says(env, "MAX_CONCURRENT_DOWNLOADS"@, 64, limits.max_concurrent_downloads as int)
            &&& says(env, "MAX_CONCAT_PARTS"@, 128, limits.max_concat_parts as int)
            &&& says(
                env,
                "TCP_BODY_INACTIVITY_SECONDS"@,
                30,
                limits.tcp_body_inactivity_seconds as int,
            )
            &&& says(
                env,
                "TCP_REQUEST_TOTAL_SECONDS"@,
                600,
                limits.tcp_request_total_seconds as int,
            )
            &&& says(
                env,
                "TCP_MAX_CONCURRENT_REQUESTS"@,
                512,
                limits.tcp_max_concurrent_requests as int,
            )
            &&& limits.min_free_space_bytes as int == 1073741824 * (match variable(
                env,
                "MIN_FREE_SPACE_GB"@,
            ) {
                Some(raw) => match unsigned(raw, u64::MAX as nat) {
                    Some(n) => n as int,
                    None => 5,
                },
                None => 5,
            })
        },
{
    let top = usize::MAX as u64;
    lemma_bounded(env, "MAX_FILE_SIZE_MB"@, 500, 1, 1048576, u64::MAX);
    lemma_bounded(env, "MAX_RANGE_RESPONSE_MB"@, 16, 1, 1024, u64::MAX);
    lemma_bounded(env, "MAX_CONCURRENT_UPLOADS"@, 16, 1, 4096, top);
    lemma_bounded(env, "MAX_CONCURRENT_DOWNLOADS"@, 64, 1, 4096, top);
    lemma_bounded(env, "MAX_CONCAT_PARTS"@, 128, 1, 4096, top);
    lemma_bounded(env, "TCP_BODY_INACTIVITY_SECONDS"@, 30, 1, 3600, u64::MAX);
    lemma_bounded(env, "TCP_REQUEST_TOTAL_SECONDS"@, 600, 1, 86400, u64::MAX);
    lemma_bounded(env, "TCP_MAX_CONCURRENT_REQUESTS"@, 512, 1, 65536, top);
}

/// Where a limit cannot be taken, the error tells of the first such one, by its name.
pub proof fn first_bad_limit_is_told(env: Seq<(Seq<char>, Seq<char>)>)
    ensures
        ({
            let told = |name: Seq<char>, min: u64, max: u64|
                limits_settings(env) matches Err(e) && tells_of(e, name, min, max);
            let ok1 = fits(env, "MAX_FILE_SIZE_MB"@, 1, 1048576);
            let ok2 = fits(env, "MAX_RANGE_RESPONSE_MB"@, 1, 1024);
            let ok3 = fits(env, "MAX_CONCURRENT_UPLOADS"@, 1, 4096);
            let ok4 = fits(env, "MAX_CONCURRENT_DOWNLOADS"@, 1, 4096);
            let ok5 = fits(env, "MAX_CONCAT_PARTS"@, 1, 4096);
            let ok6 = fits(env, "TCP_BODY_INACTIVITY_SECONDS"@, 1, 3600);
            let ok7 = fits(env, "TCP_REQUEST_TOTAL_SECONDS"@, 1, 86400);
            let ok8 = fits(env, "TCP_MAX_CONCURRENT_REQUESTS"@, 1, 65536);
            &&& !ok1 ==> told("MAX_FILE_SIZE_MB"@, 1, 1048576)
            &&& ok1 && !ok2 ==> told("MAX_RANGE_RESPONSE_MB"@, 1, 1024)
            &&& ok1 && ok2 && !ok3 ==> told("MAX_CONCURRENT_UPLOADS"@, 1, 4096)
            &&& ok1 && ok2 && ok3 && !ok4 ==> told("MAX_CONCURRENT_DOWNLOADS"@, 1, 4096)
            &&& ok1 && ok2 && ok3 && ok4 && !ok5 ==> told("MAX_CONCAT_PARTS"@, 1, 4096)
            &&& ok1 && ok2 && ok3 && ok4 && ok5 && !ok6 ==> told("TCP_BODY_INACTIVITY_SECONDS"@, 1, 3600)
            &&& ok1 && ok2 && ok3 && ok4 && ok5 && ok6 && !ok7 ==> told("TCP_REQUEST_TOTAL_SECONDS"@, 1, 86400)
            &&& ok1 && ok2 && ok3 && ok4 && ok5 && ok6 && ok7 && !ok8
                ==> told("TCP_MAX_CONCURRENT_REQUESTS"@, 1, 65536)
        }),
{
    let top = usize::MAX as u64;
    lemma_bounded(env, "MAX_FILE_SIZE_MB"@, 500, 1, 1048576, u64::MAX);
    lemma_bounded(env, "MAX_RANGE_RESPONSE_MB"@, 16, 1, 1024, u64::MAX);
    lemma_bounded(env, "MAX_CONCURRENT_UPLOADS"@, 16, 1, 4096, top);
    lemma_bounded(env, "MAX_CONCURRENT_DOWNLOADS"@, 64, 1, 4096, top);
    lemma_bounded(env, "MAX_CONCAT_PARTS"@, 128, 1, 4096, top);
    lemma_bounded(env, "TCP_BODY_INACTIVITY_SECONDS"@, 30, 1, 3600, u64::MAX);
    lemma_bounded(env, "TCP_REQUEST_TOTAL_SECONDS"@, 600, 1, 86400, u64::MAX);
    lemma_bounded(env, "TCP_MAX_CONCURRENT_REQUESTS"@, 512, 1, 65536, top);
}

} // verus!
