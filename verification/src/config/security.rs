//! API key, origin, file validation and proxy settings.

use vstd::prelude::*;
use vstd::string::*;

use crate::config::directory::{DirectorySettings, DirectoryView};
use crate::config::env::{variable, variable_or, Environment};
use crate::config::error::{ConfigError, ConfigErrorView};
use crate::text::{pieces, split, trim, trimmed, views};

verus! {

/// How much of the dangerous file types is rejected.
#[derive(Debug, Clone, Copy, PartialEq, Eq, Structural)]
pub enum DangerLevel {
    Off,
    Low,
    Medium,
    High,
}

/// What a level is called.
pub open spec fn level_name(level: DangerLevel) -> Seq<char> {
    match level {
        DangerLevel::Off => "none"@,
        DangerLevel::Low => "low"@,
        DangerLevel::Medium => "medium"@,
        DangerLevel::High => "high"@,
    }
}

impl DangerLevel {
    /// What the level is called.
    pub fn as_str(self) -> (r: &'static str)
        ensures
            r@ == level_name(self),
            self == DangerLevel::Off ==> r@ == "none"@,
            self == DangerLevel::Low ==> r@ == "low"@,
            self == DangerLevel::Medium ==> r@ == "medium"@,
            self == DangerLevel::High ==> r@ == "high"@,
    {
        match self {
            DangerLevel::Off => "none",
            DangerLevel::Low => "low",
            DangerLevel::Medium => "medium",
            DangerLevel::High => "high",
        }
    }
}

/// API key, origin, file validation and proxy settings.
#[derive(Debug, PartialEq, Eq)]
pub struct SecuritySettings {
    api_key: String,
    allowed_origins: Vec<String>,
    danger_level: DangerLevel,
}

/// What the security settings are.
#[verifier::ext_equal]
pub struct SecurityView {
    pub api_key: Seq<char>,
    pub allowed_origins: Seq<Seq<char>>,
    pub danger_level: DangerLevel,
}

impl View for SecuritySettings {
    type V = SecurityView;

    closed spec fn view(&self) -> SecurityView {
        SecurityView {
            api_key: self.api_key@,
            allowed_origins: views(self.allowed_origins@),
            danger_level: self.danger_level,
        }
    }
}

/// The pieces that are not blank, without white space around them.
pub open spec fn filled_pieces(list: Seq<Seq<char>>) -> Seq<Seq<char>>
    decreases list.len(),
{
    if list.len() == 0 {
        Seq::empty()
    } else if trimmed(list.last()).len() > 0 {
        filled_pieces(list.drop_last()).push(trimmed(list.last()))
    } else {
        filled_pieces(list.drop_last())
    }
}

/// The allowed origins: those of `ALLOWED_ORIGINS`, or the backend.
pub open spec fn origins(
    env: Seq<(Seq<char>, Seq<char>)>,
    backend_url: Option<Seq<char>>,
) -> Seq<Seq<char>> {
    match variable(env, "ALLOWED_ORIGINS"@) {
        Some(raw) => filled_pieces(pieces(raw, ',')),
        None => match backend_url {
            Some(url) => seq![url],
            None => Seq::empty(),
        },
    }
}

/// The security settings in an environment. `danger_level` is what `DANGER_LEVEL` means and
/// `proxies` tells why `TRUSTED_PROXY_CIDRS` cannot be read, if so.
pub open spec fn security_settings(
    env: Seq<(Seq<char>, Seq<char>)>,
    directories: DirectoryView,
    danger_level: DangerLevel,
    proxies: Result<(), String>,
) -> Result<SecurityView, ConfigErrorView> {
    match proxies {
        Err(e) => Err(ConfigErrorView::InvalidTrustedProxyCidrs(e@)),
        Ok(_) => Ok(
            SecurityView {
                api_key: trimmed(variable_or(env, "JUICEHOST_API_KEY"@, ""@)),
                allowed_origins: origins(env, directories.backend_url),
                danger_level,
            },
        ),
    }
}

/// The text that tells the danger level.
pub fn danger_level_text(env: &Environment) -> (r: String)
    ensures
        r@ == variable_or(env@, "DANGER_LEVEL"@, "high"@),
{
    env.var_or("DANGER_LEVEL", "high")
}

/// The text that lists the trusted proxies.
pub fn trusted_proxies_text(env: &Environment) -> (r: String)
    ensures
        r@ == variable_or(env@, "TRUSTED_PROXY_CIDRS"@, ""@),
{
    env.var_or("TRUSTED_PROXY_CIDRS", "")
}

fn filled_list(list: &Vec<String>) -> (r: Vec<String>)
    ensures
        views(r@) == filled_pieces(views(list@)),
{
    let mut out: Vec<String> = Vec::new();
    let mut i: usize = 0;
    while i < list.len()
        invariant
            i <= list@.len(),
            views(out@) == filled_pieces(views(list@).take(i as int)),
        decreases list@.len() - i,
    {
        let ghost now = views(list@).take(i + 1);
        assert(now.drop_last() =~= views(list@).take(i as int));
        assert(now.last() == list@[i as int]@);
        let text = trim(list[i].as_str());
        if text.unicode_len() > 0 {
            let ghost before = out@;
            out.push(text.to_owned());
            assert(views(out@) =~= views(before).push(text@));
        }
        i = i + 1;
    }
    assert(views(list@).take(list@.len() as int) =~= views(list@));
    out
}

impl SecuritySettings {
    /// The shared secret of internal requests; empty where there is none.
    pub fn api_key(&self) -> (r: &str)
        ensures
            r@ == self@.api_key,
    {
        self.api_key.as_str()
    }

    /// The allowed origins of internal requests.
    pub fn allowed_origins(&self) -> (r: &Vec<String>)
        ensures
            views(r@) == self@.allowed_origins,
    {
        &self.allowed_origins
    }

    /// The danger level.
    pub fn danger_level(&self) -> (r: DangerLevel)
        ensures
            r == self@.danger_level,
    {
        self.danger_level
    }

    pub fn from_env(
        env: &Environment,
        directories: &DirectorySettings,
        danger_level: DangerLevel,
        proxies: Result<(), String>,
    ) -> (r: Result<SecuritySettings, ConfigError>)
        ensures
            match (r, security_settings(env@, directories@, danger_level, proxies)) {
                (Ok(a), Ok(b)) => a@ == b,
                (Err(a), Err(b)) => a@ == b,
                _ => false,
            },
    {
        match proxies {
            Err(e) => return Err(ConfigError::InvalidTrustedProxyCidrs(e)),
            Ok(_) => {},
        }
        let key = env.var_or("JUICEHOST_API_KEY", "");
        let api_key = trim(key.as_str()).to_owned();
        let allowed_origins = match env.var("ALLOWED_ORIGINS") {
            Some(raw) => filled_list(&split(raw, ',')),
            None => {
                let mut list: Vec<String> = Vec::new();
                match directories.backend_url() {
                    Some(url) => list.push(url.clone()),
                    None => {},
                }
                list
            },
        };
        let r = SecuritySettings { api_key, allowed_origins, danger_level };
        assert(r@.allowed_origins =~= origins(env@, directories@.backend_url));
        Ok(r)
    }
}

/// Origins are listed one behind the other: each that is not blank counts, without the white space
/// around it, in its place.
pub proof fn origins_count_one_by_one(list: Seq<Seq<char>>, origin: Seq<char>)
    ensures
        filled_pieces(list.push(origin)) == (if trimmed(origin).len() == 0 {
            filled_pieces(list)
        } else {
            filled_pieces(list).push(trimmed(origin))
        }),
        filled_pieces(Seq::<Seq<char>>::empty()).len() == 0,
{
    assert(list.push(origin).drop_last() =~= list);
}

/// A list of origins with commas between them is read as that list. Where none is set, the backend is
/// the only origin, and without a backend there is none.
pub proof fn origins_are_read_as_they_are_listed(
    env: Seq<(Seq<char>, Seq<char>)>,
    list: Seq<Seq<char>>,
    backend_url: Option<Seq<char>>,
)
    requires
        list.len() > 0,
        forall|i: int|
            0 <= i < list.len() ==> !(#[trigger] list[i]).contains(',') && list[i].len() > 0
                && trimmed(list[i]) == list[i],
    ensures
        variable(env, "ALLOWED_ORIGINS"@) == Some(crate::text::glued(list, ',')) ==> origins(
            env,
            backend_url,
        ) == list,
        variable(env, "ALLOWED_ORIGINS"@) is None ==> match backend_url {
            Some(url) => origins(env, backend_url) == seq![url],
            None => origins(env, backend_url).len() == 0,
        },
{
    crate::text::glued_texts_come_apart(list, ',');
    lemma_filled(list);
}

proof fn lemma_filled(list: Seq<Seq<char>>)
    requires
        forall|i: int|
            0 <= i < list.len() ==> (#[trigger] list[i]).len() > 0 && trimmed(list[i]) == list[i],
    ensures
        filled_pieces(list) == list,
    decreases list.len(),
{
    if list.len() > 0 {
        let fewer = list.drop_last();
        assert forall|i: int| 0 <= i < fewer.len() implies (#[trigger] fewer[i]).len() > 0 && trimmed(
            fewer[i],
        ) == fewer[i] by {
            assert(fewer[i] == list[i]);
        }
        lemma_filled(fewer);
        assert(list[list.len() - 1] == list.last());
        assert(filled_pieces(list) =~= list);
    } else {
        assert(filled_pieces(list) =~= list);
    }
}

/// The API key is what is set, without the white space around it, and none where nothing is set. The
/// settings are taken exactly where the trusted proxies can be read.
pub proof fn security_is_set_as_documented(
    env: Seq<(Seq<char>, Seq<char>)>,
    directories: DirectoryView,
    danger_level: DangerLevel,
    proxies: Result<(), String>,
)
    ensures
        security_settings(env, directories, danger_level, proxies) is Ok <==> proxies is Ok,
        security_settings(env, directories, danger_level, proxies) matches Ok(security) ==> {
            &&& match variable(env, "JUICEHOST_API_KEY"@) {
                Some(key) => security.api_key == trimmed(key),
                None => security.api_key.len() == 0,
            }
            &&& security.danger_level == danger_level
            &&& security.allowed_origins == origins(env, directories.backend_url)
        },
        (security_settings(env, directories, danger_level, proxies) matches Err(e)) ==> (proxies
            matches Err(text) && security_settings(env, directories, danger_level, proxies)
            == Err::<SecurityView, ConfigErrorView>(
            ConfigErrorView::InvalidTrustedProxyCidrs(text@),
        )),
{
    reveal_strlit("");
    assert(trimmed(""@) =~= Seq::<char>::empty());
}

} // verus!
