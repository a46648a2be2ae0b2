//! Who may do what: API keys, file capabilities, tickets and bans.

use vstd::prelude::*;
use vstd::string::*;

use crate::error::JuicehostError;
use crate::handlers::headers::{has_header, header_text, Headers};
use crate::secrets::constant_time_eq;
use crate::text::{same, text_view, views};
use crate::ticket::{ticket_value, verify_ticket_jwt};

verus! {

/// The capability that a request carries.
pub open spec fn carried_capability(
    headers: Seq<(Seq<char>, Option<Seq<char>>)>,
) -> Option<Seq<char>> {
    match header_text(headers, "x-juicehost-file-capability"@) {
        Some(v) => if v.len() > 0 {
            Some(v)
        } else {
            None
        },
        None => None,
    }
}

/// Whether a request carries the API key of a host that has one.
pub open spec fn has_api_key(
    headers: Seq<(Seq<char>, Option<Seq<char>>)>,
    api_key: Seq<char>,
) -> bool {
    api_key.len() > 0 && header_text(headers, "x-juicehost-api-key"@) == Some(api_key)
}

/// The value of a header, empty where there is none.
pub open spec fn header_or_empty(
    headers: Seq<(Seq<char>, Option<Seq<char>>)>,
    name: Seq<char>,
) -> Seq<char> {
    match header_text(headers, name) {
        Some(v) => v,
        None => ""@,
    }
}

/// Whether an internal request is let through: on a host without an API key, with a file
/// capability, which the handler checks, or with the key and from an allowed origin.
pub open spec fn internal_request_passes(
    headers: Seq<(Seq<char>, Option<Seq<char>>)>,
    api_key: Seq<char>,
    allowed_origins: Seq<Seq<char>>,
) -> bool {
    ||| api_key.len() == 0
    ||| has_header(headers, "x-juicehost-file-capability"@)
    ||| header_or_empty(headers, "x-juicehost-api-key"@) == api_key && (allowed_origins.len() == 0
        || allowed_origins.contains(header_or_empty(headers, "x-juiceback-origin"@)))
}

/// The capability that a request carries: a header that is not empty.
pub fn optional_file_capability(headers: &Headers) -> (r: Option<String>)
    ensures
        text_view(r) == carried_capability(headers@),
{
    match headers.get("x-juicehost-file-capability") {
        Some(v) => if v.unicode_len() > 0 {
            Some(v.to_owned())
        } else {
            None
        },
        None => None,
    }
}

fn carries_api_key(headers: &Headers, api_key: &str) -> (r: bool)
    ensures
        r == has_api_key(headers@, api_key@),
{
    match headers.get("x-juicehost-api-key") {
        Some(provided) => api_key.unicode_len() > 0 && constant_time_eq(api_key, provided),
        None => false,
    }
}

/// The capability that a change of a file needs: none with the API key, else the one that the
/// request must carry.
pub fn required_file_capability(headers: &Headers, api_key: &str) -> (r: Result<
    Option<String>,
    JuicehostError,
>)
    ensures
        match r {
            Ok(None) => has_api_key(headers@, api_key@),
            Ok(Some(capability)) => !has_api_key(headers@, api_key@) && carried_capability(headers@)
                == Some(capability@),
            Err(e) => !has_api_key(headers@, api_key@) && carried_capability(headers@) is None && e
                == JuicehostError::Forbidden,
        },
{
    if carries_api_key(headers, api_key) {
        return Ok(None);
    }
    match optional_file_capability(headers) {
        Some(capability) => Ok(Some(capability)),
        None => Err(JuicehostError::Forbidden),
    }
}

fn lists(allowed: &Vec<String>, origin: &str) -> (r: bool)
    ensures
        r == views(allowed@).contains(origin@),
{
    let mut i: usize = 0;
    while i < allowed.len()
        invariant
            i <= allowed@.len(),
            forall|j: int| 0 <= j < i ==> #[trigger] views(allowed@)[j] != origin@,
        decreases allowed@.len() - i,
    {
        if same(allowed[i].as_str(), origin) {
            assert(views(allowed@)[i as int] == origin@);
            return true;
        }
        i = i + 1;
    }
    false
}

/// Authenticate internal requests with the API key and optional origin whitelist.
/// When no API key is configured, internal authentication is disabled.
pub fn require_api_key(headers: &Headers, api_key: &str, allowed_origins: &Vec<String>) -> (r:
    Result<(), JuicehostError>)
    ensures
        r == (if internal_request_passes(headers@, api_key@, views(allowed_origins@)) {
            Ok::<(), JuicehostError>(())
        } else {
            Err(JuicehostError::Forbidden)
        }),
{
    if api_key.unicode_len() == 0 {
        return Ok(());
    }
    if headers.contains("x-juicehost-file-capability") {
        return Ok(());
    }
    let provided = match headers.get("x-juicehost-api-key") {
        Some(v) => v,
        None => "",
    };
    if !constant_time_eq(api_key, provided) {
        return Err(JuicehostError::Forbidden);
    }
    if allowed_origins.len() > 0 {
        let origin = match headers.get("x-juiceback-origin") {
            Some(v) => v,
            None => "",
        };
        if !lists(allowed_origins, origin) {
            return Err(JuicehostError::Forbidden);
        }
    }
    Ok(())
}

/// Lets an upload through with the API key or with a good ticket. `ticket` tells whether the
/// bearer token of the request is one.
pub fn pass_api_key_or_ticket(headers: &Headers, api_key: &str, ticket: bool) -> (r: Result<
    (),
    JuicehostError,
>)
    ensures
        r == (if has_api_key(headers@, api_key@) || ticket {
            Ok::<(), JuicehostError>(())
        } else {
            Err(JuicehostError::Forbidden)
        }),
{
    if carries_api_key(headers, api_key) || ticket {
        Ok(())
    } else {
        Err(JuicehostError::Forbidden)
    }
}

/// Authenticates an upload with EITHER an API key OR a ticket JWT. `bearer` is the bearer token of
/// the request. Whether a ticket has expired depends on the clock.
pub fn require_api_key_or_ticket(
    headers: &Headers,
    api_key: &str,
    bearer: Option<&str>,
    secret: &str,
) -> (r: Result<(), JuicehostError>)
    ensures
        has_api_key(headers@, api_key@) ==> r is Ok,
        r is Ok && !has_api_key(headers@, api_key@) ==> bearer is Some && ticket_value(
            bearer->0@,
            secret@,
        ) is Some,
        r matches Err(e) ==> e == JuicehostError::Forbidden,
{
    if carries_api_key(headers, api_key) {
        return Ok(());
    }
    let ticket = match bearer {
        Some(token) => match verify_ticket_jwt(token, secret) {
            Ok(_) => true,
            Err(_) => false,
        },
        None => false,
    };
    pass_api_key_or_ticket(headers, api_key, ticket)
}

/// Blocks a banned client where bans are enforced.
pub fn check_ban(enabled: bool, banned: bool) -> (r: Result<(), JuicehostError>)
    ensures
        r == (if enabled && banned {
            Err::<(), JuicehostError>(JuicehostError::Forbidden)
        } else {
            Ok(())
        }),
{
    if enabled && banned {
        Err(JuicehostError::Forbidden)
    } else {
        Ok(())
    }
}

/// On a host with an API key, an internal request that is let through carries the key or a file
/// capability.
pub proof fn internal_requests_carry_key_or_capability(
    headers: Seq<(Seq<char>, Option<Seq<char>>)>,
    api_key: Seq<char>,
    allowed_origins: Seq<Seq<char>>,
)
    requires
        api_key.len() > 0,
        internal_request_passes(headers, api_key, allowed_origins),
    ensures
        has_header(headers, "x-juicehost-file-capability"@) || has_api_key(headers, api_key),
{
    reveal_strlit("");
}

/// A request has the API key exactly where the host has one and the request's header of that name
/// holds it, letter for letter.
pub proof fn api_key_must_be_exact(
    headers: Seq<(Seq<char>, Option<Seq<char>>)>,
    api_key: Seq<char>,
)
    ensures
        has_api_key(headers, api_key) <==> (api_key.len() > 0 && (header_text(
            headers,
            "x-juicehost-api-key"@,
        ) matches Some(given) && given.len() == api_key.len() && (forall|i: int|
            0 <= i < api_key.len() ==> #[trigger] given[i] == api_key[i]))),
{
    match header_text(headers, "x-juicehost-api-key"@) {
        Some(given) => {
            if given.len() == api_key.len() && (forall|i: int|
                0 <= i < api_key.len() ==> #[trigger] given[i] == api_key[i]) {
                assert(given =~= api_key);
            }
        },
        None => {},
    }
}

/// A request carries a capability exactly where its header of that name is not empty, and it carries
/// what the header holds.
pub proof fn carried_capability_is_the_header(headers: Seq<(Seq<char>, Option<Seq<char>>)>)
    ensures
        match header_text(headers, "x-juicehost-file-capability"@) {
            Some(value) => if value.len() == 0 {
                carried_capability(headers) is None
            } else {
                carried_capability(headers) == Some(value)
            },
            None => carried_capability(headers) is None,
        },
{
}

/// Without an API key of its own a host lets every internal request through.
pub proof fn host_without_key_is_open(
    headers: Seq<(Seq<char>, Option<Seq<char>>)>,
    allowed_origins: Seq<Seq<char>>,
)
    ensures
        internal_request_passes(headers, Seq::empty(), allowed_origins),
{
}

/// On a host with an API key, a request without a capability is let through exactly where it has the
/// key and, if origins are listed, names one of them.
pub proof fn internal_request_needs_key_and_origin(
    headers: Seq<(Seq<char>, Option<Seq<char>>)>,
    api_key: Seq<char>,
    allowed_origins: Seq<Seq<char>>,
)
    requires
        api_key.len() > 0,
        !has_header(headers, "x-juicehost-file-capability"@),
    ensures
        internal_request_passes(headers, api_key, allowed_origins) <==> (header_text(
            headers,
            "x-juicehost-api-key"@,
        ) == Some(api_key) && (allowed_origins.len() == 0 || (header_text(
            headers,
            "x-juiceback-origin"@,
        ) matches Some(origin) && allowed_origins.contains(origin)) || (header_text(
            headers,
            "x-juiceback-origin"@,
        ) is None && allowed_origins.contains(Seq::<char>::empty())))),
{
    reveal_strlit("");
    assert(""@ =~= Seq::<char>::empty());
}

/// A request with a capability gets as far as the handler, which checks it.
pub proof fn capability_gets_to_the_handler(
    headers: Seq<(Seq<char>, Option<Seq<char>>)>,
    api_key: Seq<char>,
    allowed_origins: Seq<Seq<char>>,
)
    requires
        carried_capability(headers) is Some,
    ensures
        internal_request_passes(headers, api_key, allowed_origins),
{
    crate::handlers::headers::read_headers_are_there(headers, "x-juicehost-file-capability"@);
}

} // verus!
