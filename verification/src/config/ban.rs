//! Ban list settings.

use vstd::prelude::*;
use vstd::string::*;

use crate::config::env::{filled_variable, variable, Environment};
use crate::text::{parse_unsigned, text_view, trim_end_char, unsigned, without_trailing};

verus! {

/// Ban list settings.
#[derive(Debug, PartialEq, Eq)]
pub struct BanSettings {
    list_file: Option<String>,
    sync_url: Option<String>,
    sync_interval: u64,
}

/// What the ban list is set to.
#[verifier::ext_equal]
pub struct BanView {
    pub list_file: Option<Seq<char>>,
    pub sync_url: Option<Seq<char>>,
    pub sync_interval: u64,
}

impl View for BanSettings {
    type V = BanView;

    closed spec fn view(&self) -> BanView {
        BanView {
            list_file: text_view(self.list_file),
            sync_url: text_view(self.sync_url),
            sync_interval: self.sync_interval,
        }
    }
}

/// The ban list settings in an environment: an interval that is no number counts as not set.
pub open spec fn ban_settings(env: Seq<(Seq<char>, Seq<char>)>) -> BanView {
    BanView {
        list_file: filled_variable(env, "BAN_LIST_FILE"@),
        sync_url: match filled_variable(env, "BAN_SYNC_URL"@) {
            Some(url) => Some(without_trailing(url, '/')),
            None => None,
        },
        sync_interval: match variable(env, "BAN_SYNC_INTERVAL"@) {
            Some(raw) => match unsigned(raw, u64::MAX as nat) {
                Some(n) => n as u64,
                None => 30,
            },
            None => 30,
        },
    }
}

impl BanSettings {
    /// The path of the local ban list.
    pub fn list_file(&self) -> (r: Option<&String>)
        ensures
            match r {
                Some(t) => self@.list_file == Some(t@),
                None => self@.list_file is None,
            },
    {
        self.list_file.as_ref()
    }

    /// The backend that bans are synchronized with.
    pub fn sync_url(&self) -> (r: Option<&String>)
        ensures
            match r {
                Some(t) => self@.sync_url == Some(t@),
                None => self@.sync_url is None,
            },
    {
        self.sync_url.as_ref()
    }

    /// Seconds between synchronizations.
    pub fn sync_interval(&self) -> (r: u64)
        ensures
            r == self@.sync_interval,
    {
        self.sync_interval
    }

    pub fn from_env(env: &Environment) -> (r: BanSettings)
        ensures
            r@ == ban_settings(env@),
    {
        let sync_url = match env.filled("BAN_SYNC_URL") {
            Some(url) => Some(trim_end_char(url.as_str(), '/').to_owned()),
            None => None,
        };
        let sync_interval: u64 = match env.var("BAN_SYNC_INTERVAL") {
            Some(raw) => match parse_unsigned(raw, u64::MAX) {
                Some(n) => n,
                None => 30,
            },
            None => 30,
        };
        BanSettings { list_file: env.filled("BAN_LIST_FILE"), sync_url, sync_interval }
    }
}

/// Bans are set as documented: the interval is the number that is set, or thirty seconds, and the URL of
/// the backend has no slashes at its end.
pub proof fn bans_are_set_as_documented(env: Seq<(Seq<char>, Seq<char>)>)
    ensures
        ({
            let ban = ban_settings(env);
            &&& ban.list_file == filled_variable(env, "BAN_LIST_FILE"@)
            &&& ban.sync_url is Some <==> filled_variable(env, "BAN_SYNC_URL"@) is Some
            &&& ban.sync_url matches Some(url) ==> url == without_trailing(
                filled_variable(env, "BAN_SYNC_URL"@)->0,
                '/',
            )
            &&& match variable(env, "BAN_SYNC_INTERVAL"@) {
                Some(raw) => match unsigned(raw, u64::MAX as nat) {
                    Some(n) => ban.sync_interval == n,
                    None => ban.sync_interval == 30,
                },
                None => ban.sync_interval == 30,
            }
        }),
{
}

} // verus!
