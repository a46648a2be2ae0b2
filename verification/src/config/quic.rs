//! QUIC/HTTP/3 listener and limit settings.

use vstd::prelude::*;
use vstd::string::*;

use crate::config::env::{
    bounded, bounded_count, bounded_env, filled_variable, fits, lemma_bounded, says, tells_of,
    variable, variable_or, Environment,
};
use crate::config::error::{ConfigError, ConfigErrorView};
use crate::config::port::ConfigPort;
use crate::config::public::{PublicSettings, PublicView};
use crate::text::{parse_unsigned, unsigned};

verus! {

/// QUIC/HTTP/3 listener and limit settings.
#[derive(Debug, PartialEq, Eq)]
pub struct QuicSettings {
    host: String,
    port: u16,
    cert_path: String,
    max_connections: usize,
    max_requests: usize,
    handshake_seconds: u64,
    idle_seconds: u64,
    request_total_seconds: u64,
}

/// What the QUIC listener is set to.
#[verifier::ext_equal]
pub struct QuicView {
    pub host: Seq<char>,
    pub port: u16,
    pub cert_path: Seq<char>,
    pub max_connections: u64,
    pub max_requests: u64,
    pub handshake_seconds: u64,
    pub idle_seconds: u64,
    pub request_total_seconds: u64,
}

impl View for QuicSettings {
    type V = QuicView;

    closed spec fn view(&self) -> QuicView {
        QuicView {
            host: self.host@,
            port: self.port,
            cert_path: self.cert_path@,
            max_connections: self.max_connections as u64,
            max_requests: self.max_requests as u64,
            handshake_seconds: self.handshake_seconds,
            idle_seconds: self.idle_seconds,
            request_total_seconds: self.request_total_seconds,
        }
    }
}

/// The QUIC port: `QUIC_PORT`, or the one behind the public port.
pub open spec fn quic_port(env: Seq<(Seq<char>, Seq<char>)>, public: u16) -> Result<
    u16,
    ConfigErrorView,
> {
    match variable(env, "QUIC_PORT"@) {
        Some(raw) => match unsigned(raw, u16::MAX as nat) {
            Some(port) => Ok(port as u16),
            None => Err(ConfigErrorView::InvalidPort(ConfigPort::Quic)),
        },
        None => if public < u16::MAX {
            Ok((public + 1) as u16)
        } else {
            Err(ConfigErrorView::MissingQuicPort)
        },
    }
}

/// The QUIC settings in an environment.
pub open spec fn quic_settings(env: Seq<(Seq<char>, Seq<char>)>, public: PublicView) -> Result<
    QuicView,
    ConfigErrorView,
> {
    let top = usize::MAX as u64;
    match (
        quic_port(env, public.port),
        bounded(env, "QUIC_MAX_CONNECTIONS"@, 256, 1, 65536, top),
        bounded(env, "QUIC_MAX_REQUESTS"@, 256, 1, 65536, top),
        bounded(env, "QUIC_HANDSHAKE_SECONDS"@, 10, 1, 120, u64::MAX),
        bounded(env, "QUIC_IDLE_SECONDS"@, 30, 1, 600, u64::MAX),
        bounded(env, "QUIC_REQUEST_TOTAL_SECONDS"@, 600, 1, 86400, u64::MAX),
    ) {
        (Err(e), _, _, _, _, _) => Err(e),
        (_, Err(e), _, _, _, _) => Err(e),
        (_, _, Err(e), _, _, _) => Err(e),
        (_, _, _, Err(e), _, _) => Err(e),
        (_, _, _, _, Err(e), _) => Err(e),
        (_, _, _, _, _, Err(e)) => Err(e),
        (
            Ok(port),
            Ok(max_connections),
            Ok(max_requests),
            Ok(handshake_seconds),
            Ok(idle_seconds),
            Ok(request_total_seconds),
        ) => Ok(
            QuicView {
                host: variable_or(env, "QUIC_HOST"@, public.host),
                port,
                cert_path: match filled_variable(env, "QUIC_CERT_PATH"@) {
                    Some(path) => path,
                    None => "./quic-cert.der"@,
                },
                max_connections,
                max_requests,
                handshake_seconds,
                idle_seconds,
                request_total_seconds,
            },
        ),
    }
}

impl QuicSettings {
    /// The address that is listened on.
    pub fn host(&self) -> (r: &str)
        ensures
            r@ == self@.host,
    {
        self.host.as_str()
    }

    /// The port that is listened on.
    pub fn port(&self) -> (r: u16)
        ensures
            r == self@.port,
    {
        self.port
    }

    /// The path of the certificate.
    pub fn cert_path(&self) -> (r: &str)
        ensures
            r@ == self@.cert_path,
    {
        self.cert_path.as_str()
    }

    /// Accepted connections.
    pub fn max_connections(&self) -> (r: usize)
        ensures
            r == self@.max_connections,
    {
        self.max_connections
    }

    /// In-flight requests.
    pub fn max_requests(&self) -> (r: usize)
        ensures
            r == self@.max_requests,
    {
        self.max_requests
    }

    /// Handshake timeout.
    pub fn handshake_seconds(&self) -> (r: u64)
        ensures
            r == self@.handshake_seconds,
    {
        self.handshake_seconds
    }

    /// Idle timeout.
    pub fn idle_seconds(&self) -> (r: u64)
        ensures
            r == self@.idle_seconds,
    {
        self.idle_seconds
    }

    /// Total request timeout.
    pub fn request_total_seconds(&self) -> (r: u64)
        ensures
            r == self@.request_total_seconds,
    {
        self.request_total_seconds
    }

    pub fn from_env(env: &Environment, public: &PublicSettings) -> (r: Result<
        QuicSettings,
        ConfigError,
    >)
        ensures
            match (r, quic_settings(env@, public@)) {
                (Ok(a), Ok(b)) => a@ == b,
                (Err(a), Err(b)) => a@ == b,
                _ => false,
            },
    {
        let host = env.var_or("QUIC_HOST", public.host());
        let port: u16 = match env.var("QUIC_PORT") {
            Some(raw) => match parse_unsigned(raw, u16::MAX as u64) {
                Some(port) => port as u16,
                None => return Err(ConfigError::invalid_quic_port()),
            },
            None => match public.port().checked_add(1) {
                Some(port) => port,
                None => return Err(ConfigError::MissingQuicPort),
            },
        };
        let cert_path = match env.filled("QUIC_CERT_PATH") {
            Some(path) => path,
            None => "./quic-cert.der".to_owned(),
        };
        let max_connections = bounded_count(env, "QUIC_MAX_CONNECTIONS", 256, 1, 65536)?;
        let max_requests = bounded_count(env, "QUIC_MAX_REQUESTS", 256, 1, 65536)?;
        let handshake_seconds = bounded_env(env, "QUIC_HANDSHAKE_SECONDS", 10, 1, 120)?;
        let idle_seconds = bounded_env(env, "QUIC_IDLE_SECONDS", 30, 1, 600)?;
        let request_total_seconds = bounded_env(
            env,
            "QUIC_REQUEST_TOTAL_SECONDS",
            600,
            1,
            86400,
        )?;
        Ok(
            QuicSettings {
                host,
                port,
                cert_path,
                max_connections,
                max_requests,
                handshake_seconds,
                idle_seconds,
                request_total_seconds,
            },
        )
    }
}

/// The QUIC listener is set as documented: its port is the one that is set or the one behind the public
/// port, its address the one that is set or the public one, and its limits are those that are set or the
/// defaults. It is taken exactly where the port is one and every limit a number within its bounds.
pub proof fn quic_is_set_as_documented(env: Seq<(Seq<char>, Seq<char>)>, public: PublicView)
    ensures
        quic_settings(env, public) is Ok <==> {
            &&& match variable(env, "QUIC_PORT"@) {
                Some(raw) => unsigned(raw, 65535) is Some,
                None => public.port < 65535,
            }
            &&& fits(env, "QUIC_MAX_CONNECTIONS"@, 1, 65536)
            &&& fits(env, "QUIC_MAX_REQUESTS"@, 1, 65536)
            &&& fits(env, "QUIC_HANDSHAKE_SECONDS"@, 1, 120)
            &&& fits(env, "QUIC_IDLE_SECONDS"@, 1, 600)
            &&& fits(env, "QUIC_REQUEST_TOTAL_SECONDS"@, 1, 86400)
        },
        quic_settings(env, public) matches Ok(quic) ==> {
            &&& match variable(env, "QUIC_PORT"@) {
                Some(raw) => unsigned(raw, 65535) == Some(quic.port as nat),
                None => quic.port == public.port + 1,
            }
            &&& match variable(env, "QUIC_HOST"@) {
                Some(host) => quic.host == host,
                None => quic.host == public.host,
            }
            &&& match filled_variable(env, "QUIC_CERT_PATH"@) {
                Some(path) => quic.cert_path == path,
                None => quic.cert_path == "./quic-cert.der"@,
            }
            &&& says(env, "QUIC_MAX_CONNECTIONS"@, 256, quic.max_connections as int)
            &&& says(env, "QUIC_MAX_REQUESTS"@, 256, quic.max_requests as int)
            &&& says(env, "QUIC_HANDSHAKE_SECONDS"@, 10, quic.handshake_seconds as int)
            &&& says(env, "QUIC_IDLE_SECONDS"@, 30, quic.idle_seconds as int)
            &&& says(env, "QUIC_REQUEST_TOTAL_SECONDS"@, 600, quic.request_total_seconds as int)
        },
        variable(env, "QUIC_PORT"@) is None && public.port == 65535 ==> quic_settings(env, public)
            == Err::<QuicView, ConfigErrorView>(ConfigErrorView::MissingQuicPort),
{
    let top = usize::MAX as u64;
    lemma_bounded(env, "QUIC_MAX_CONNECTIONS"@, 256, 1, 65536, top);
    lemma_bounded(env, "QUIC_MAX_REQUESTS"@, 256, 1, 65536, top);
    lemma_bounded(env, "QUIC_HANDSHAKE_SECONDS"@, 10, 1, 120, u64::MAX);
    lemma_bounded(env, "QUIC_IDLE_SECONDS"@, 30, 1, 600, u64::MAX);
    lemma_bounded(env, "QUIC_REQUEST_TOTAL_SECONDS"@, 600, 1, 86400, u64::MAX);
}

/// Where the port can be taken and a limit cannot, the error tells of the first such one, by its name.
pub proof fn first_bad_quic_limit_is_told(env: Seq<(Seq<char>, Seq<char>)>, public: PublicView)
    ensures
        ({
            let told = |name: Seq<char>, min: u64, max: u64|
                quic_settings(env, public) matches Err(e) && tells_of(e, name, min, max);
            let port = quic_port(env, public.port) is Ok;
            let ok1 = fits(env, "QUIC_MAX_CONNECTIONS"@, 1, 65536);
            let ok2 = fits(env, "QUIC_MAX_REQUESTS"@, 1, 65536);
            let ok3 = fits(env, "QUIC_HANDSHAKE_SECONDS"@, 1, 120);
            let ok4 = fits(env, "QUIC_IDLE_SECONDS"@, 1, 600);
            let ok5 = fits(env, "QUIC_REQUEST_TOTAL_SECONDS"@, 1, 86400);
            &&& port && !ok1 ==> told("QUIC_MAX_CONNECTIONS"@, 1, 65536)
            &&& port && ok1 && !ok2 ==> told("QUIC_MAX_REQUESTS"@, 1, 65536)
            &&& port && ok1 && ok2 && !ok3 ==> told("QUIC_HANDSHAKE_SECONDS"@, 1, 120)
            &&& port && ok1 && ok2 && ok3 && !ok4 ==> told("QUIC_IDLE_SECONDS"@, 1, 600)
            &&& port && ok1 && ok2 && ok3 && ok4 && !ok5 ==> told("QUIC_REQUEST_TOTAL_SECONDS"@, 1, 86400)
        }),
{
    let top = usize::MAX as u64;
    lemma_bounded(env, "QUIC_MAX_CONNECTIONS"@, 256, 1, 65536, top);
    lemma_bounded(env, "QUIC_MAX_REQUESTS"@, 256, 1, 65536, top);
    lemma_bounded(env, "QUIC_HANDSHAKE_SECONDS"@, 10, 1, 120, u64::MAX);
    lemma_bounded(env, "QUIC_IDLE_SECONDS"@, 30, 1, 600, u64::MAX);
    lemma_bounded(env, "QUIC_REQUEST_TOTAL_SECONDS"@, 600, 1, 86400, u64::MAX);
}

} // verus!
