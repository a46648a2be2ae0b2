//! Optional IP banning: when and from where the ban list is refreshed.

use vstd::prelude::*;
use vstd::string::*;

use crate::config::Config;
use crate::handlers::json::{json_list, json_text, texts_of, JsonPayload};
use crate::text::views;

verus! {

/// The list of banned addresses that a backend gave: hashes, and the pepper they were made with.
#[derive(Debug, PartialEq, Eq)]
pub struct BanSnapshot {
    pub pepper: String,
    pub hashes: Vec<String>,
}

/// Whether the ban list is refreshed at all.
pub fn bans_configured(config: &Config) -> (r: bool)
    ensures
        r == (config.ip_pepper@.len() > 0 || config.ban_list_file is Some
            || config.ban_sync_url is Some),
{
    config.ip_pepper.as_str().unicode_len() > 0 || config.ban_list_file.is_some()
        || config.ban_sync_url.is_some()
}

/// Where the ban list is asked for. The API key authenticates the request, so there must be one.
pub fn snapshot_url(api_key: &str, url: &str) -> (r: Result<String, String>)
    ensures
        match r {
            Ok(full) => api_key@.len() > 0 && full@ == url@ + "/internal/ban-snapshot"@,
            Err(text) => api_key@.len() == 0 && text@
                == "JUICEHOST_API_KEY not set (needed to authenticate the ban sync)"@,
        },
{
    if api_key.unicode_len() == 0 {
        return Err(
            "JUICEHOST_API_KEY not set (needed to authenticate the ban sync)".to_owned(),
        );
    }
    Ok(url.to_owned().concat("/internal/ban-snapshot"))
}

/// What a backend answered.
#[derive(Debug, PartialEq, Eq)]
pub enum SnapshotAnswer {
    /// The client could not be built.
    NoClient(String),
    /// The request failed.
    RequestFailed(String),
    /// The answer was no success; the text tells its status.
    Status(String),
    /// The answer was no JSON.
    Invalid(String),
    Body(JsonPayload),
}

/// The error that an answer is, if it is one.
pub open spec fn answer_error(answer: SnapshotAnswer) -> Option<Seq<char>> {
    match answer {
        SnapshotAnswer::NoClient(e) => Some("failed to build http client: "@ + e@),
        SnapshotAnswer::RequestFailed(e) => Some("request failed: "@ + e@),
        SnapshotAnswer::Status(status) => Some("backend returned status "@ + status@),
        SnapshotAnswer::Invalid(e) => Some("invalid response: "@ + e@),
        SnapshotAnswer::Body(body) => match json_text(body, "pepper"@) {
            Some(pepper) => if pepper.len() > 0 {
                None
            } else {
                Some("backend returned an empty pepper"@)
            },
            None => Some("backend returned an empty pepper"@),
        },
    }
}

/// The hashes in an answer; what is no text among them is passed over.
pub open spec fn answer_hashes(body: JsonPayload) -> Seq<Seq<char>> {
    match json_list(body, "hashes"@) {
        Some(list) => texts_of(list),
        None => Seq::empty(),
    }
}

/// Reads the latest ban hashes and the pepper from what a backend answered.
pub fn sync_from_backend(answer: SnapshotAnswer) -> (r: Result<BanSnapshot, String>)
    ensures
        match r {
            Err(text) => answer_error(answer) == Some(text@),
            Ok(snapshot) => {
                &&& answer_error(answer) is None
                &&& answer matches SnapshotAnswer::Body(body)
                &&& json_text(body, "pepper"@) == Some(snapshot.pepper@)
                &&& views(snapshot.hashes@) == answer_hashes(body)
            },
        },
{
    match answer {
        SnapshotAnswer::NoClient(e) => Err(
            "failed to build http client: ".to_owned().concat(e.as_str()),
        ),
        SnapshotAnswer::RequestFailed(e) => Err("request failed: ".to_owned().concat(e.as_str())),
        SnapshotAnswer::Status(status) => Err(
            "backend returned status ".to_owned().concat(status.as_str()),
        ),
        SnapshotAnswer::Invalid(e) => Err("invalid response: ".to_owned().concat(e.as_str())),
        SnapshotAnswer::Body(body) => {
            let pepper = match body.text("pepper") {
                Some(pepper) => pepper.to_owned(),
                None => return Err("backend returned an empty pepper".to_owned()),
            };
            if pepper.as_str().unicode_len() == 0 {
                return Err("backend returned an empty pepper".to_owned());
            }
            Ok(BanSnapshot { pepper, hashes: body.texts_among("hashes") })
        },
    }
}

/// Seconds between two refreshes: as configured, and at least five.
pub fn refresh_interval(configured: u64) -> (r: u64)
    ensures
        r == (if configured > 5 {
            configured
        } else {
            5
        }),
{
    if configured > 5 {
        configured
    } else {
        5
    }
}

/// A ban list is taken exactly where the backend answered with a pepper that is not empty; every other
/// answer is an error that names what went wrong.
pub proof fn ban_list_needs_a_pepper(answer: SnapshotAnswer, e: String)
    ensures
        answer_error(answer) is None <==> (answer matches SnapshotAnswer::Body(body) && (json_text(
            body,
            "pepper"@,
        ) matches Some(pepper) && pepper.len() > 0)),
        answer == SnapshotAnswer::NoClient(e) ==> answer_error(answer) == Some(
            "failed to build http client: "@ + e@,
        ),
        answer == SnapshotAnswer::RequestFailed(e) ==> answer_error(answer) == Some(
            "request failed: "@ + e@,
        ),
        answer == SnapshotAnswer::Status(e) ==> answer_error(answer) == Some(
            "backend returned status "@ + e@,
        ),
        answer == SnapshotAnswer::Invalid(e) ==> answer_error(answer) == Some(
            "invalid response: "@ + e@,
        ),
        answer is Body && answer_error(answer) is Some ==> answer_error(answer) == Some(
            "backend returned an empty pepper"@,
        ),
{
}

/// The hashes of a ban list are all texts that the backend listed, in their order; where it listed
/// nothing there are none.
pub proof fn ban_list_holds_the_listed_hashes(body: JsonPayload)
    ensures
        json_list(body, "hashes"@) matches Some(list) ==> answer_hashes(body) == texts_of(list),
        json_list(body, "hashes"@) is None ==> answer_hashes(body).len() == 0,
{
}

} // verus!
