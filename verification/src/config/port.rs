//! The ports that are configured.

use vstd::prelude::*;

verus! {

/// The port environment variable that failed to parse.
#[derive(Debug, Clone, Copy, PartialEq, Eq, Structural)]
pub enum ConfigPort {
    Public,
    Quic,
}

/// The name of the variable.
pub open spec fn port_variable(port: ConfigPort) -> Seq<char> {
    match port {
        ConfigPort::Public => "PUBLIC_PORT"@,
        ConfigPort::Quic => "QUIC_PORT"@,
    }
}

impl ConfigPort {
    /// The name of the variable.
    pub fn name(self) -> (r: &'static str)
        ensures
            r@ == port_variable(self),
            self == ConfigPort::Public ==> r@ == "PUBLIC_PORT"@,
            self == ConfigPort::Quic ==> r@ == "QUIC_PORT"@,
    {
        match self {
            ConfigPort::Public => "PUBLIC_PORT",
            ConfigPort::Quic => "QUIC_PORT",
        }
    }
}

} // verus!
