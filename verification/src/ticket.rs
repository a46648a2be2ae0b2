//! Ticket JWT verification shared by the server middleware and upload handlers.

use vstd::prelude::*;
use vstd::string::*;

verus! {

/// Which tickets are accepted.
#[derive(Debug, PartialEq, Eq)]
pub struct TicketValidation {
    /// The signature algorithm.
    pub algorithm: &'static str,
    /// The claim that must be there.
    pub required: &'static str,
    /// The issuer that a ticket must come from, where it names one.
    pub issuer: &'static str,
}

/// Why a ticket is rejected.
#[derive(Debug, PartialEq, Eq)]
pub enum TicketError {
    /// It was good, as far as was looked, and has expired.
    Expired(String),
    /// It is not good at any time.
    Invalid(String),
}

/// The claims, as the JSON text that was signed, of a token that is good under the given secret,
/// algorithm, required claim and issuer until it expires.
pub uninterp spec fn token_claims(
    token: Seq<char>,
    secret: Seq<char>,
    algorithm: Seq<char>,
    required: Seq<char>,
    issuer: Seq<char>,
) -> Option<Seq<char>>;

/// `jsonwebtoken::decode` with a `Validation` of one algorithm, one required claim and one issuer,
/// and a key made by `DecodingKey::from_secret`. Whether a token has expired depends on the clock,
/// and is told before the issuer and the audience are looked at. All else is a function of the
/// arguments: a token that is accepted has claims, and one that is rejected for another reason
/// than its expiry has none. Nothing is said of a token that has expired. The claims are decoded
/// as a `serde_json` raw value, which keeps the signed text, so that a reader of it sees a name
/// that occurs twice. Claims that are no UTF-8 text are rejected.
#[verifier::external_body]
fn decode_token(
    token: &str,
    secret: &str,
    algorithm: &str,
    required: &str,
    issuer: &str,
) -> (r: Result<String, TicketError>)
    ensures
        match r {
            Ok(claims) => token_claims(token@, secret@, algorithm@, required@, issuer@) == Some(
                claims@,
            ),
            Err(TicketError::Invalid(_)) => token_claims(
                token@,
                secret@,
                algorithm@,
                required@,
                issuer@,
            ) is None,
            Err(TicketError::Expired(_)) => true,
        },
{
    let alg = algorithm.parse().map_err(|e| TicketError::Invalid(format!("{e}")))?;
    let mut validation = jsonwebtoken::Validation::new(alg);
    validation.set_required_spec_claims(&[required]);
    validation.set_issuer(&[issuer]);
    let key = jsonwebtoken::DecodingKey::from_secret(secret.as_bytes());
    match jsonwebtoken::decode::<Box<serde_json::value::RawValue>>(token, &key, &validation) {
        Ok(data) => Ok(data.claims.get().to_owned()),
        Err(e) => Err(match e.kind() {
            jsonwebtoken::errors::ErrorKind::ExpiredSignature => TicketError::Expired(e.to_string()),
            _ => TicketError::Invalid(e.to_string()),
        }),
    }
}

/// The claims, as a JSON value written out, of a token that is good under the given secret,
/// algorithm, required claim and issuer until it expires.
pub uninterp spec fn token_value(
    token: Seq<char>,
    secret: Seq<char>,
    algorithm: Seq<char>,
    required: Seq<char>,
    issuer: Seq<char>,
) -> Option<Seq<char>>;

/// `jsonwebtoken::decode` as in `decode_token`, with the claims decoded as a `serde_json` value,
/// which is handed back written out. A token whose claims are no such value, because a number is
/// too large, the nesting too deep or an escape half a surrogate pair, is rejected for that.
#[verifier::external_body]
fn decode_value(
    token: &str,
    secret: &str,
    algorithm: &str,
    required: &str,
    issuer: &str,
) -> (r: Result<String, TicketError>)
    ensures
        match r {
            Ok(claims) => token_value(token@, secret@, algorithm@, required@, issuer@) == Some(
                claims@,
            ),
            Err(TicketError::Invalid(_)) => token_value(
                token@,
                secret@,
                algorithm@,
                required@,
                issuer@,
            ) is None,
            Err(TicketError::Expired(_)) => true,
        },
{
    let alg = algorithm.parse().map_err(|e| TicketError::Invalid(format!("{e}")))?;
    let mut validation = jsonwebtoken::Validation::new(alg);
    validation.set_required_spec_claims(&[required]);
    validation.set_issuer(&[issuer]);
    let key = jsonwebtoken::DecodingKey::from_secret(secret.as_bytes());
    match jsonwebtoken::decode::<serde_json::Value>(token, &key, &validation) {
        Ok(data) => Ok(data.claims.to_string()),
        Err(e) => Err(match e.kind() {
            jsonwebtoken::errors::ErrorKind::ExpiredSignature => TicketError::Expired(e.to_string()),
            _ => TicketError::Invalid(e.to_string()),
        }),
    }
}

/// The claims, as they were signed, of a ticket that is good until it expires.
pub open spec fn ticket_claims(token: Seq<char>, secret: Seq<char>) -> Option<Seq<char>> {
    token_claims(token, secret, "HS256"@, "exp"@, "juiceback-ticket"@)
}

/// The claims, as a JSON value, of a ticket that is good until it expires.
pub open spec fn ticket_value(token: Seq<char>, secret: Seq<char>) -> Option<Seq<char>> {
    token_value(token, secret, "HS256"@, "exp"@, "juiceback-ticket"@)
}

/// Shared validation for ticket JWTs.
pub fn ticket_validation() -> (r: TicketValidation)
    ensures
        r.algorithm@ == "HS256"@,
        r.required@ == "exp"@,
        r.issuer@ == "juiceback-ticket"@,
{
    TicketValidation { algorithm: "HS256", required: "exp", issuer: "juiceback-ticket" }
}

/// Verify a ticket JWT and return its claims, a JSON value written out, on success.
pub fn verify_ticket_jwt(token: &str, secret: &str) -> (r: Result<String, TicketError>)
    ensures
        match r {
            Ok(claims) => ticket_value(token@, secret@) == Some(claims@) && token_value(
                token@,
                secret@,
                "HS256"@,
                "exp"@,
                "juiceback-ticket"@,
            ) == Some(claims@),
            Err(TicketError::Invalid(_)) => ticket_value(token@, secret@) is None,
            Err(TicketError::Expired(_)) => true,
        },
{
    let validation = ticket_validation();
    decode_value(token, secret, validation.algorithm, validation.required, validation.issuer)
}

/// Verifies a ticket JWT and returns the text of its claims as it was signed, from which an upload
/// handler reads those that it needs.
pub fn signed_ticket_claims(token: &str, secret: &str) -> (r: Result<String, TicketError>)
    ensures
        match r {
            Ok(claims) => ticket_claims(token@, secret@) == Some(claims@) && token_claims(
                token@,
                secret@,
                "HS256"@,
                "exp"@,
                "juiceback-ticket"@,
            ) == Some(claims@),
            Err(TicketError::Invalid(_)) => ticket_claims(token@, secret@) is None,
            Err(TicketError::Expired(_)) => true,
        },
{
    let validation = ticket_validation();
    decode_token(token, secret, validation.algorithm, validation.required, validation.issuer)
}

} // verus!
