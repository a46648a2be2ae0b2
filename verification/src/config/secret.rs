//! Signing secrets and ban pepper settings.

use vstd::prelude::*;
use vstd::string::*;

use crate::config::env::{variable_or, Environment};
use crate::config::security::{SecuritySettings, SecurityView};

verus! {

/// Signing secrets and ban pepper settings.
#[derive(Debug, PartialEq, Eq)]
pub struct SecretSettings {
    ticket_jwt_secret: String,
    ip_pepper: String,
}

/// What the secrets are set to.
#[verifier::ext_equal]
pub struct SecretView {
    pub ticket_jwt_secret: Seq<char>,
    pub ip_pepper: Seq<char>,
}

impl View for SecretSettings {
    type V = SecretView;

    closed spec fn view(&self) -> SecretView {
        SecretView { ticket_jwt_secret: self.ticket_jwt_secret@, ip_pepper: self.ip_pepper@ }
    }
}

/// The secrets in an environment: tickets are signed with `TICKET_JWT_SECRET`, else with
/// `JWT_SECRET`, else with the API key.
pub open spec fn secret_settings(
    env: Seq<(Seq<char>, Seq<char>)>,
    security: SecurityView,
) -> SecretView {
    SecretView {
        ticket_jwt_secret: variable_or(
            env,
            "TICKET_JWT_SECRET"@,
            variable_or(env, "JWT_SECRET"@, security.api_key),
        ),
        ip_pepper: variable_or(env, "IP_PEPPER"@, ""@),
    }
}

impl SecretSettings {
    /// The secret that tickets are signed with.
    pub fn ticket_jwt_secret(&self) -> (r: &str)
        ensures
            r@ == self@.ticket_jwt_secret,
    {
        self.ticket_jwt_secret.as_str()
    }

    /// The pepper of hashed IP bans.
    pub fn ip_pepper(&self) -> (r: &str)
        ensures
            r@ == self@.ip_pepper,
    {
        self.ip_pepper.as_str()
    }

    pub fn from_env(env: &Environment, security: &SecuritySettings) -> (r: SecretSettings)
        ensures
            r@ == secret_settings(env@, security@),
    {
        let fallback = env.var_or("JWT_SECRET", security.api_key());
        SecretSettings {
            ticket_jwt_secret: env.var_or("TICKET_JWT_SECRET", fallback.as_str()),
            ip_pepper: env.var_or("IP_PEPPER", ""),
        }
    }
}

/// Tickets are signed with their own secret where it is set, else with the common one, else with the API
/// key; bans have a pepper only where it is set.
pub proof fn ticket_secret_goes_first(env: Seq<(Seq<char>, Seq<char>)>, security: SecurityView)
    ensures
        ({
            let secrets = secret_settings(env, security);
            let own = crate::config::env::variable(env, "TICKET_JWT_SECRET"@);
            let common = crate::config::env::variable(env, "JWT_SECRET"@);
            let pepper = crate::config::env::variable(env, "IP_PEPPER"@);
            &&& own matches Some(secret) ==> secrets.ticket_jwt_secret == secret
            &&& own is None ==> (common matches Some(secret) ==> secrets.ticket_jwt_secret == secret)
            &&& own is None && common is None ==> secrets.ticket_jwt_secret == security.api_key
            &&& pepper matches Some(text) ==> secrets.ip_pepper == text
            &&& pepper is None ==> secrets.ip_pepper.len() == 0
        }),
{
    reveal_strlit("");
}

} // verus!
