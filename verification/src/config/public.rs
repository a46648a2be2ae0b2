//! Public HTTP listener settings.

use vstd::prelude::*;
use vstd::string::*;

use crate::config::env::{variable, variable_or, Environment};
use crate::config::error::{ConfigError, ConfigErrorView};
use crate::config::port::ConfigPort;
use crate::text::{parse_unsigned, unsigned};

verus! {

/// Public HTTP listener settings.
#[derive(Debug, PartialEq, Eq)]
pub struct PublicSettings {
    host: String,
    port: u16,
}

/// What the public listener is set to.
#[verifier::ext_equal]
pub struct PublicView {
    pub host: Seq<char>,
    pub port: u16,
}

impl View for PublicSettings {
    type V = PublicView;

    closed spec fn view(&self) -> PublicView {
        PublicView { host: self.host@, port: self.port }
    }
}

/// The public listener settings in an environment.
pub open spec fn public_settings(env: Seq<(Seq<char>, Seq<char>)>) -> Result<
    PublicView,
    ConfigErrorView,
> {
    let host = variable_or(env, "PUBLIC_HOST"@, PublicSettings::DEFAULT_IP@);
    match variable(env, "PUBLIC_PORT"@) {
        None => Ok(PublicView { host, port: PublicSettings::DEFAULT_PORT }),
        Some(raw) => match unsigned(raw, u16::MAX as nat) {
            Some(port) => Ok(PublicView { host, port: port as u16 }),
            None => Err(ConfigErrorView::InvalidPort(ConfigPort::Public)),
        },
    }
}

impl PublicSettings {
    pub const DEFAULT_IP: &'static str = "127.0.0.1";

    pub const DEFAULT_PORT: u16 = 6402;

    /// The address that is listened on.
    #[must_use]
    pub fn host(&self) -> (r: &str)
        ensures
            r@ == self@.host,
    {
        self.host.as_str()
    }

    /// The port that is listened on.
    #[must_use]
    pub fn port(&self) -> (r: u16)
        ensures
            r == self@.port,
    {
        self.port
    }

    pub fn from_env(env: &Environment) -> (r: Result<PublicSettings, ConfigError>)
        ensures
            match (r, public_settings(env@)) {
                (Ok(a), Ok(b)) => a@ == b,
                (Err(a), Err(b)) => a@ == b,
                _ => false,
            },
    {
        let host = env.var_or("PUBLIC_HOST", Self::DEFAULT_IP);
        let port: u16 = match env.var("PUBLIC_PORT") {
            None => Self::DEFAULT_PORT,
            Some(raw) => match parse_unsigned(raw, u16::MAX as u64) {
                Some(port) => port as u16,
                None => return Err(ConfigError::invalid_public_port()),
            },
        };
        Ok(PublicSettings { host, port })
    }
}

/// The listener is where it is set to be, or at port 6402 of the own machine; what is no port is refused.
pub proof fn listener_is_as_documented(env: Seq<(Seq<char>, Seq<char>)>)
    ensures
        public_settings(env) is Ok <==> (variable(env, "PUBLIC_PORT"@) matches Some(raw) ==> unsigned(
            raw,
            65535,
        ) is Some),
        public_settings(env) matches Ok(public) ==> {
            &&& match variable(env, "PUBLIC_PORT"@) {
                Some(raw) => unsigned(raw, 65535) == Some(public.port as nat),
                None => public.port == 6402,
            }
            &&& match variable(env, "PUBLIC_HOST"@) {
                Some(host) => public.host == host,
                None => public.host == "127.0.0.1"@,
            }
        },
        public_settings(env) matches Err(e) ==> e == ConfigErrorView::InvalidPort(
            ConfigPort::Public,
        ),
{
}

} // verus!
