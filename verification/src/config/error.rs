//! Errors of the configuration.

use vstd::prelude::*;
use vstd::string::*;

use crate::config::port::{port_variable, ConfigPort};

verus! {

/// Errors that could happen while loading environment configuration.
#[derive(Debug, PartialEq, Eq)]
pub enum ConfigError {
    InvalidNumber { name: &'static str },
    OutOfRange { name: &'static str, min: String, max: String },
    InvalidPort { port: ConfigPort },
    MissingQuicPort,
    InvalidBoolean { name: &'static str },
    InvalidAllowedTtl(String),
    InvalidDefaultTtl(String),
    InvalidTtlConfiguration,
    InvalidTrustedProxyCidrs(String),
}

/// What a configuration error says.
pub enum ConfigErrorView {
    InvalidNumber(Seq<char>),
    OutOfRange(Seq<char>, Seq<char>, Seq<char>),
    InvalidPort(ConfigPort),
    MissingQuicPort,
    InvalidBoolean(Seq<char>),
    InvalidAllowedTtl(Seq<char>),
    InvalidDefaultTtl(Seq<char>),
    InvalidTtlConfiguration,
    InvalidTrustedProxyCidrs(Seq<char>),
}

impl View for ConfigError {
    type V = ConfigErrorView;

    open spec fn view(&self) -> ConfigErrorView {
        match self {
            ConfigError::InvalidNumber { name } => ConfigErrorView::InvalidNumber(name@),
            ConfigError::OutOfRange { name, min, max } => ConfigErrorView::OutOfRange(
                name@,
                min@,
                max@,
            ),
            ConfigError::InvalidPort { port } => ConfigErrorView::InvalidPort(*port),
            ConfigError::MissingQuicPort => ConfigErrorView::MissingQuicPort,
            ConfigError::InvalidBoolean { name } => ConfigErrorView::InvalidBoolean(name@),
            ConfigError::InvalidAllowedTtl(e) => ConfigErrorView::InvalidAllowedTtl(e@),
            ConfigError::InvalidDefaultTtl(e) => ConfigErrorView::InvalidDefaultTtl(e@),
            ConfigError::InvalidTtlConfiguration => ConfigErrorView::InvalidTtlConfiguration,
            ConfigError::InvalidTrustedProxyCidrs(e) => ConfigErrorView::InvalidTrustedProxyCidrs(
                e@,
            ),
        }
    }
}

/// The text of a configuration error.
pub open spec fn error_text(error: ConfigErrorView) -> Seq<char> {
    match error {
        ConfigErrorView::InvalidNumber(name) => name + " must be a number"@,
        ConfigErrorView::OutOfRange(name, min, max) => name + " must be between "@ + min + " and "@
            + max,
        ConfigErrorView::InvalidPort(port) => port_variable(port) + " must be a valid port"@,
        ConfigErrorView::MissingQuicPort => "QUIC_PORT must be set when PUBLIC_PORT is 65535"@,
        ConfigErrorView::InvalidBoolean(name) => name + " must be true, false, 1, or 0"@,
        ConfigErrorView::InvalidAllowedTtl(e) => "ALLOWED_TTL_HOURS contains an invalid number: "@
            + e,
        ConfigErrorView::InvalidDefaultTtl(e) => "DEFAULT_TTL_HOURS must be a number: "@ + e,
        ConfigErrorView::InvalidTtlConfiguration =>
        "TTL values must be finite, positive, and include DEFAULT_TTL_HOURS"@,
        ConfigErrorView::InvalidTrustedProxyCidrs(e) => e,
    }
}

impl ConfigError {
    /// `QUIC_PORT` is no port.
    #[must_use]
    pub fn invalid_quic_port() -> (r: ConfigError)
        ensures
            r == (ConfigError::InvalidPort { port: ConfigPort::Quic }),
    {
        ConfigError::InvalidPort { port: ConfigPort::Quic }
    }

    /// `PUBLIC_PORT` is no port.
    #[must_use]
    pub fn invalid_public_port() -> (r: ConfigError)
        ensures
            r == (ConfigError::InvalidPort { port: ConfigPort::Public }),
    {
        ConfigError::InvalidPort { port: ConfigPort::Public }
    }

    /// The text of the error.
    pub fn message(&self) -> (r: String)
        ensures
            r@ == error_text(self@),
            match self {
                ConfigError::InvalidNumber { name } => r@ == name@ + " must be a number"@,
                ConfigError::OutOfRange { name, min, max } => r@ == name@ + " must be between "@ + min@
                    + " and "@ + max@,
                ConfigError::InvalidPort { port } => r@ == (if *port == ConfigPort::Public {
                    "PUBLIC_PORT"@
                } else {
                    "QUIC_PORT"@
                }) + " must be a valid port"@,
                ConfigError::MissingQuicPort => r@
                    == "QUIC_PORT must be set when PUBLIC_PORT is 65535"@,
                ConfigError::InvalidBoolean { name } => r@ == name@ + " must be true, false, 1, or 0"@,
                ConfigError::InvalidAllowedTtl(e) => r@
                    == "ALLOWED_TTL_HOURS contains an invalid number: "@ + e@,
                ConfigError::InvalidDefaultTtl(e) => r@ == "DEFAULT_TTL_HOURS must be a number: "@ + e@,
                ConfigError::InvalidTtlConfiguration => r@
                    == "TTL values must be finite, positive, and include DEFAULT_TTL_HOURS"@,
                ConfigError::InvalidTrustedProxyCidrs(e) => r@ == e@,
            },
    {
        match self {
            ConfigError::InvalidNumber { name } => (*name).to_owned().concat(
                " must be a number",
            ),
            ConfigError::OutOfRange { name, min, max } => (*name).to_owned().concat(
                " must be between ",
            ).concat(min.as_str()).concat(" and ").concat(max.as_str()),
            ConfigError::InvalidPort { port } => port.name().to_owned().concat(
                " must be a valid port",
            ),
            ConfigError::MissingQuicPort =>
            "QUIC_PORT must be set when PUBLIC_PORT is 65535".to_owned(),
            ConfigError::InvalidBoolean { name } => (*name).to_owned().concat(
                " must be true, false, 1, or 0",
            ),
            ConfigError::InvalidAllowedTtl(e) =>
            "ALLOWED_TTL_HOURS contains an invalid number: ".to_owned().concat(e.as_str()),
            ConfigError::InvalidDefaultTtl(e) =>
            "DEFAULT_TTL_HOURS must be a number: ".to_owned().concat(e.as_str()),
            ConfigError::InvalidTtlConfiguration =>
            "TTL values must be finite, positive, and include DEFAULT_TTL_HOURS".to_owned(),
            ConfigError::InvalidTrustedProxyCidrs(e) => e.clone(),
        }
    }
}

} // verus!
