//! Configuration loaded from environment variables.

pub mod ban;
pub mod directory;
pub mod env;
pub mod error;
pub mod feature;
pub mod limits;
pub mod port;
pub mod public;
pub mod quic;
pub mod s3;
pub mod secret;
pub mod security;
pub mod thread;

use vstd::prelude::*;
use vstd::string::*;

use crate::config::ban::{ban_settings, BanSettings, BanView};
use crate::config::directory::{directory_settings, DirectorySettings, DirectoryView};
use crate::config::env::Environment;
use crate::config::error::{ConfigError, ConfigErrorView};
use crate::config::feature::{feature_settings, FeatureSettings, FeatureView, ParsedTtl};
use crate::config::limits::{limits_settings, min_free_gib, LimitsSettings, LimitsView, GIB, MIB};
use crate::config::public::{public_settings, PublicSettings, PublicView};
use crate::config::quic::{quic_settings, QuicSettings, QuicView};
use crate::config::s3::{s3_settings, S3Settings, S3SettingsView};
use crate::config::secret::{secret_settings, SecretSettings, SecretView};
use crate::config::security::{security_settings, DangerLevel, SecuritySettings, SecurityView};
use crate::config::thread::{thread_settings, ThreadSettings};
use crate::text::{text_view, views};

verus! {

/// Holds every setting juicehost needs to run.
#[derive(Debug, PartialEq, Eq)]
pub struct Config {
    /// Public settings
    pub public_host: String,
    pub public_port: u16,
    /// QUIC settings
    pub quic_host: String,
    pub quic_port: u16,
    pub quic_cert_path: Option<String>,
    pub quic_max_connections: usize,
    pub quic_max_requests: usize,
    pub quic_handshake_seconds: u64,
    pub quic_idle_seconds: u64,
    pub quic_request_total_seconds: u64,
    /// Thread settings
    pub worker_threads: usize,
    /// Directory settings
    pub files_dir: String,
    pub backend_url: Option<String>,
    /// The frontend that `GET /` redirects to.
    pub frontend_url: Option<String>,
    /// Security settings
    pub api_key: String,
    pub allowed_origins: Vec<String>,
    pub danger_level: DangerLevel,
    /// S3 settings
    pub s3_bucket: Option<String>,
    pub s3_region: Option<String>,
    pub s3_endpoint: Option<String>,
    pub s3_allow_http: bool,
    pub s3_access_key: Option<String>,
    pub s3_secret_key: Option<String>,
    /// Limits settings
    pub min_free_space_bytes: u64,
    pub max_file_size_bytes: u64,
    pub max_range_response_bytes: u64,
    pub max_concurrent_uploads: usize,
    pub max_concurrent_downloads: usize,
    pub max_concat_parts: usize,
    pub tcp_body_inactivity_seconds: u64,
    pub tcp_request_total_seconds: u64,
    pub tcp_max_concurrent_requests: usize,
    /// Features settings; TTLs are IEEE 754 bits.
    pub quick_link: bool,
    pub custom_id: bool,
    pub default_ttl_hours: u64,
    pub allowed_ttl_hours: Vec<u64>,
    /// Secrets
    pub ticket_jwt_secret: String,
    pub ip_pepper: String,
    /// Ban settings
    pub ban_list_file: Option<String>,
    pub ban_sync_url: Option<String>,
    pub ban_sync_interval: u64,
}

/// What everything is set to.
#[verifier::ext_equal]
pub struct ConfigView {
    pub public: PublicView,
    pub quic: QuicView,
    pub worker_threads: u64,
    pub directories: DirectoryView,
    pub security: SecurityView,
    pub s3: S3SettingsView,
    pub limits: LimitsView,
    pub features: FeatureView,
    pub secrets: SecretView,
    pub ban: BanView,
}

impl View for Config {
    type V = ConfigView;

    open spec fn view(&self) -> ConfigView {
        ConfigView {
            public: PublicView { host: self.public_host@, port: self.public_port },
            quic: QuicView {
                host: self.quic_host@,
                port: self.quic_port,
                cert_path: match self.quic_cert_path {
                    Some(path) => path@,
                    None => ""@,
                },
                max_connections: self.quic_max_connections as u64,
                max_requests: self.quic_max_requests as u64,
                handshake_seconds: self.quic_handshake_seconds,
                idle_seconds: self.quic_idle_seconds,
                request_total_seconds: self.quic_request_total_seconds,
            },
            worker_threads: self.worker_threads as u64,
            directories: DirectoryView {
                files_dir: self.files_dir@,
                backend_url: text_view(self.backend_url),
                frontend_url: text_view(self.frontend_url),
            },
            security: SecurityView {
                api_key: self.api_key@,
                allowed_origins: views(self.allowed_origins@),
                danger_level: self.danger_level,
            },
            s3: S3SettingsView {
                bucket: text_view(self.s3_bucket),
                region: text_view(self.s3_region),
                endpoint: text_view(self.s3_endpoint),
                allow_http: self.s3_allow_http,
                access_key: text_view(self.s3_access_key),
                secret_key: text_view(self.s3_secret_key),
            },
            limits: LimitsView {
                min_free_space_bytes: self.min_free_space_bytes,
                max_file_size_bytes: self.max_file_size_bytes,
                max_range_response_bytes: self.max_range_response_bytes,
                max_concurrent_uploads: self.max_concurrent_uploads as u64,
                max_concurrent_downloads: self.max_concurrent_downloads as u64,
                max_concat_parts: self.max_concat_parts as u64,
                tcp_body_inactivity_seconds: self.tcp_body_inactivity_seconds,
                tcp_request_total_seconds: self.tcp_request_total_seconds,
                tcp_max_concurrent_requests: self.tcp_max_concurrent_requests as u64,
            },
            features: FeatureView {
                quick_link: self.quick_link,
                custom_id: self.custom_id,
                default_ttl_hours: self.default_ttl_hours,
                allowed_ttl_hours: self.allowed_ttl_hours@,
            },
            secrets: SecretView {
                ticket_jwt_secret: self.ticket_jwt_secret@,
                ip_pepper: self.ip_pepper@,
            },
            ban: BanView {
                list_file: text_view(self.ban_list_file),
                sync_url: text_view(self.ban_sync_url),
                sync_interval: self.ban_sync_interval,
            },
        }
    }
}

/// The configuration in an environment. `danger_level`, `proxies` and `ttl` are what the danger
/// level, the trusted proxies and the TTLs in it mean.
pub open spec fn configuration(
    env: Seq<(Seq<char>, Seq<char>)>,
    danger_level: DangerLevel,
    proxies: Result<(), String>,
    ttl: ParsedTtl,
) -> Result<ConfigView, ConfigErrorView> {
    match public_settings(env) {
        Err(e) => Err(e),
        Ok(public) => match (
            quic_settings(env, public),
            thread_settings(env),
            security_settings(env, directory_settings(env), danger_level, proxies),
            s3_settings(env),
            limits_settings(env),
            feature_settings(env, ttl),
        ) {
            (Err(e), _, _, _, _, _) => Err(e),
            (_, Err(e), _, _, _, _) => Err(e),
            (_, _, Err(e), _, _, _) => Err(e),
            (_, _, _, Err(e), _, _) => Err(e),
            (_, _, _, _, Err(e), _) => Err(e),
            (_, _, _, _, _, Err(e)) => Err(e),
            (
                Ok(quic),
                Ok(worker_threads),
                Ok(security),
                Ok(s3),
                Ok(limits),
                Ok(features),
            ) => Ok(
                ConfigView {
                    public,
                    quic,
                    worker_threads,
                    directories: directory_settings(env),
                    security,
                    s3,
                    limits,
                    features,
                    secrets: secret_settings(env, security),
                    ban: ban_settings(env),
                },
            ),
        },
    }
}

fn owned(text: Option<&String>) -> (r: Option<String>)
    ensures
        match (text, r) {
            (Some(a), Some(b)) => a@ == b@,
            (None, None) => true,
            _ => false,
        },
{
    match text {
        Some(t) => Some(t.clone()),
        None => None,
    }
}

/// A copy of a list of texts.
pub(crate) fn copy_texts(list: &Vec<String>) -> (r: Vec<String>)
    ensures
        views(r@) == views(list@),
{
    let mut out: Vec<String> = Vec::new();
    let mut i: usize = 0;
    while i < list.len()
        invariant
            i <= list@.len(),
            out@.len() == i,
            forall|j: int| 0 <= j < i ==> #[trigger] out@[j]@ == list@[j]@,
        decreases list@.len() - i,
    {
        out.push(list[i].clone());
        i = i + 1;
    }
    assert(views(out@) =~= views(list@));
    out
}

/// A copy of a list of numbers.
pub(crate) fn copy_numbers(list: &Vec<u64>) -> (r: Vec<u64>)
    ensures
        r@ == list@,
{
    let mut out: Vec<u64> = Vec::new();
    let mut i: usize = 0;
    while i < list.len()
        invariant
            i <= list@.len(),
            out@ == list@.take(i as int),
        decreases list@.len() - i,
    {
        out.push(list[i]);
        assert(list@.take(i + 1) =~= list@.take(i as int).push(list@[i as int]));
        i = i + 1;
    }
    assert(list@.take(list@.len() as int) =~= list@);
    out
}

impl Config {
    /// Load configuration from environment variables.
    pub fn from_env(
        env: &Environment,
        danger_level: DangerLevel,
        proxies: Result<(), String>,
        ttl: ParsedTtl,
    ) -> (r: Result<Config, ConfigError>)
        requires
            min_free_gib(env@) * GIB <= u64::MAX,
        ensures
            match (r, configuration(env@, danger_level, proxies, ttl)) {
                (Ok(a), Ok(b)) => a@ == b && a.quic_cert_path is Some,
                (Err(a), Err(b)) => a@ == b,
                _ => false,
            },
    {
        let public = PublicSettings::from_env(env)?;
        let quic = QuicSettings::from_env(env, &public)?;
        let threads = ThreadSettings::from_env(env)?;
        let directories = DirectorySettings::from_env(env);
        let security = SecuritySettings::from_env(env, &directories, danger_level, proxies)?;
        let s3 = S3Settings::from_env(env)?;
        let limits = LimitsSettings::from_env(env)?;
        let features = FeatureSettings::from_env(env, ttl)?;
        let secrets = SecretSettings::from_env(env, &security);
        let ban = BanSettings::from_env(env);

        Ok(
            Config::assemble(
                public,
                quic,
                threads,
                directories,
                security,
                s3,
                limits,
                features,
                secrets,
                ban,
            ),
        )
    }

    fn assemble(
        public: PublicSettings,
        quic: QuicSettings,
        threads: ThreadSettings,
        directories: DirectorySettings,
        security: SecuritySettings,
        s3: S3Settings,
        limits: LimitsSettings,
        features: FeatureSettings,
        secrets: SecretSettings,
        ban: BanSettings,
    ) -> (r: Config)
        ensures
            r.quic_cert_path is Some,
            r@ == (ConfigView {
                public: public@,
                quic: quic@,
                worker_threads: threads@,
                directories: directories@,
                security: security@,
                s3: s3@,
                limits: limits@,
                features: features@,
                secrets: secrets@,
                ban: ban@,
            }),
    {
        Config {
            public_host: public.host().to_owned(),
            public_port: public.port(),
            quic_host: quic.host().to_owned(),
            quic_port: quic.port(),
            quic_cert_path: Some(quic.cert_path().to_owned()),
            quic_max_connections: quic.max_connections(),
            quic_max_requests: quic.max_requests(),
            quic_handshake_seconds: quic.handshake_seconds(),
            quic_idle_seconds: quic.idle_seconds(),
            quic_request_total_seconds: quic.request_total_seconds(),
            worker_threads: threads.worker_threads(),
            files_dir: directories.files_dir().to_owned(),
            backend_url: owned(directories.backend_url()),
            frontend_url: owned(directories.frontend_url()),
            api_key: security.api_key().to_owned(),
            allowed_origins: copy_texts(security.allowed_origins()),
            danger_level: security.danger_level(),
            s3_bucket: owned(s3.bucket()),
            s3_region: owned(s3.region()),
            s3_endpoint: owned(s3.endpoint()),
            s3_allow_http: s3.allow_http(),
            s3_access_key: owned(s3.access_key()),
            s3_secret_key: owned(s3.secret_key()),
            min_free_space_bytes: limits.min_free_space_bytes(),
            max_file_size_bytes: limits.max_file_size_bytes(),
            max_range_response_bytes: limits.max_range_response_bytes(),
            max_concurrent_uploads: limits.max_concurrent_uploads(),
            max_concurrent_downloads: limits.max_concurrent_downloads(),
            max_concat_parts: limits.max_concat_parts(),
            tcp_body_inactivity_seconds: limits.tcp_body_inactivity_seconds(),
            tcp_request_total_seconds: limits.tcp_request_total_seconds(),
            tcp_max_concurrent_requests: limits.tcp_max_concurrent_requests(),
            quick_link: features.quick_link(),
            custom_id: features.custom_id(),
            default_ttl_hours: features.default_ttl_hours(),
            allowed_ttl_hours: copy_numbers(features.allowed_ttl_hours()),
            ticket_jwt_secret: secrets.ticket_jwt_secret().to_owned(),
            ip_pepper: secrets.ip_pepper().to_owned(),
            ban_list_file: owned(ban.list_file()),
            ban_sync_url: owned(ban.sync_url()),
            ban_sync_interval: ban.sync_interval(),
        }
    }

    /// Tells whether files are stored in an object store.
    pub fn is_s3_mode(&self) -> (r: bool)
        ensures
            r == self@.s3.bucket is Some,
    {
        self.s3_bucket.is_some()
    }
}

/// A configuration that was loaded lies within the documented ranges: a number outside of them
/// fails the start.
pub proof fn loaded_configuration_is_in_range(
    env: Seq<(Seq<char>, Seq<char>)>,
    danger_level: DangerLevel,
    proxies: Result<(), String>,
    ttl: ParsedTtl,
)
    ensures
        configuration(env, danger_level, proxies, ttl) matches Ok(c) ==> {
            &&& 1 <= c.worker_threads <= 256
            &&& 1 <= c.quic.max_connections <= 65536
            &&& 1 <= c.quic.max_requests <= 65536
            &&& 1 <= c.quic.handshake_seconds <= 120
            &&& 1 <= c.quic.idle_seconds <= 600
            &&& 1 <= c.quic.request_total_seconds <= 86400
            &&& MIB <= c.limits.max_file_size_bytes <= 1048576 * MIB
            &&& MIB <= c.limits.max_range_response_bytes <= 1024 * MIB
            &&& 1 <= c.limits.max_concurrent_uploads <= 4096
            &&& 1 <= c.limits.max_concurrent_downloads <= 4096
            &&& 1 <= c.limits.max_concat_parts <= 4096
            &&& 1 <= c.limits.tcp_body_inactivity_seconds <= 3600
            &&& 1 <= c.limits.tcp_request_total_seconds <= 86400
            &&& 1 <= c.limits.tcp_max_concurrent_requests <= 65536
            &&& c.features.valid()
        },
{
}

/// A configuration is loaded exactly where each of its parts can be, and then holds each of them as it
/// is, in its place.
pub proof fn configuration_is_made_of_its_parts(
    env: Seq<(Seq<char>, Seq<char>)>,
    danger_level: DangerLevel,
    proxies: Result<(), String>,
    ttl: ParsedTtl,
)
    ensures
        ({
            let loaded = configuration(env, danger_level, proxies, ttl);
            let directories = directory_settings(env);
            &&& loaded is Ok <==> {
                &&& public_settings(env) is Ok
                &&& quic_settings(env, public_settings(env)->Ok_0) is Ok
                &&& thread_settings(env) is Ok
                &&& security_settings(env, directories, danger_level, proxies) is Ok
                &&& s3_settings(env) is Ok
                &&& limits_settings(env) is Ok
                &&& feature_settings(env, ttl) is Ok
            }
            &&& loaded matches Ok(c) ==> {
                &&& public_settings(env) == Ok::<PublicView, ConfigErrorView>(c.public)
                &&& quic_settings(env, c.public) == Ok::<QuicView, ConfigErrorView>(c.quic)
                &&& thread_settings(env) == Ok::<u64, ConfigErrorView>(c.worker_threads)
                &&& c.directories == directories
                &&& security_settings(env, directories, danger_level, proxies) == Ok::<
                    SecurityView,
                    ConfigErrorView,
                >(c.security)
                &&& s3_settings(env) == Ok::<S3SettingsView, ConfigErrorView>(c.s3)
                &&& limits_settings(env) == Ok::<LimitsView, ConfigErrorView>(c.limits)
                &&& feature_settings(env, ttl) == Ok::<FeatureView, ConfigErrorView>(c.features)
                &&& c.secrets == secret_settings(env, c.security)
                &&& c.ban == ban_settings(env)
            }
        }),
{
}

/// Where a part cannot be loaded, the error is that of the first such part, in the order in which they are
/// read.
pub proof fn first_bad_part_is_told(
    env: Seq<(Seq<char>, Seq<char>)>,
    danger_level: DangerLevel,
    proxies: Result<(), String>,
    ttl: ParsedTtl,
    error: ConfigErrorView,
)
    ensures
        ({
            let loaded = configuration(env, danger_level, proxies, ttl);
            let told = loaded == Err::<ConfigView, ConfigErrorView>(error);
            let public = public_settings(env);
            let quic = quic_settings(env, public->Ok_0);
            let threads = thread_settings(env);
            let security = security_settings(env, directory_settings(env), danger_level, proxies);
            let s3 = s3_settings(env);
            let limits = limits_settings(env);
            let features = feature_settings(env, ttl);
            &&& public == Err::<PublicView, ConfigErrorView>(error) ==> told
            &&& public is Ok && quic == Err::<QuicView, ConfigErrorView>(error) ==> told
            &&& public is Ok && quic is Ok && threads == Err::<u64, ConfigErrorView>(error) ==> told
            &&& public is Ok && quic is Ok && threads is Ok ==> {
                &&& security == Err::<SecurityView, ConfigErrorView>(error) ==> told
                &&& security is Ok && s3 == Err::<S3SettingsView, ConfigErrorView>(error) ==> told
                &&& security is Ok && s3 is Ok && limits == Err::<LimitsView, ConfigErrorView>(error)
                    ==> told
                &&& security is Ok && s3 is Ok && limits is Ok && features == Err::<
                    FeatureView,
                    ConfigErrorView,
                >(error) ==> told
            }
        }),
{
}

} // verus!
