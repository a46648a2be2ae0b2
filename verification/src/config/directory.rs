//! Local directory and peer URL settings.

use vstd::prelude::*;
use vstd::string::*;

use crate::config::env::{variable, variable_or, Environment};
use crate::text::{same, text_view, trim, trim_end_char, trimmed, without_trailing};

verus! {

/// Local directory and peer URL settings.
#[derive(Debug, PartialEq, Eq)]
pub struct DirectorySettings {
    files_dir: String,
    backend_url: Option<String>,
    frontend_url: Option<String>,
}

/// What the directories and peers are set to.
#[verifier::ext_equal]
pub struct DirectoryView {
    pub files_dir: Seq<char>,
    pub backend_url: Option<Seq<char>>,
    pub frontend_url: Option<Seq<char>>,
}

impl View for DirectorySettings {
    type V = DirectoryView;

    closed spec fn view(&self) -> DirectoryView {
        DirectoryView {
            files_dir: self.files_dir@,
            backend_url: text_view(self.backend_url),
            frontend_url: text_view(self.frontend_url),
        }
    }
}

/// The URL of a peer: a blank one and `none` are none, and slashes at its end are dropped.
pub open spec fn peer_url(env: Seq<(Seq<char>, Seq<char>)>, name: Seq<char>) -> Option<Seq<char>> {
    match variable(env, name) {
        Some(raw) => if trimmed(raw).len() > 0 && trimmed(raw) != "none"@ {
            Some(without_trailing(raw, '/'))
        } else {
            None
        },
        None => None,
    }
}

/// The directory settings in an environment.
pub open spec fn directory_settings(env: Seq<(Seq<char>, Seq<char>)>) -> DirectoryView {
    DirectoryView {
        files_dir: variable_or(env, "FILES_DIR"@, "./files"@),
        backend_url: peer_url(env, "BACKEND_URL"@),
        frontend_url: peer_url(env, "FRONTEND_URL"@),
    }
}

fn peer(env: &Environment, name: &str) -> (r: Option<String>)
    ensures
        text_view(r) == peer_url(env@, name@),
{
    match env.var(name) {
        Some(raw) => {
            let text = trim(raw);
            if text.unicode_len() > 0 && !same(text, "none") {
                Some(trim_end_char(raw, '/').to_owned())
            } else {
                None
            }
        },
        None => None,
    }
}

impl DirectorySettings {
    /// The local storage directory.
    pub fn files_dir(&self) -> (r: &str)
        ensures
            r@ == self@.files_dir,
    {
        self.files_dir.as_str()
    }

    /// The URL of the backend.
    pub fn backend_url(&self) -> (r: Option<&String>)
        ensures
            match r {
                Some(url) => self@.backend_url == Some(url@),
                None => self@.backend_url is None,
            },
    {
        self.backend_url.as_ref()
    }

    /// The URL of the frontend.
    pub fn frontend_url(&self) -> (r: Option<&String>)
        ensures
            match r {
                Some(url) => self@.frontend_url == Some(url@),
                None => self@.frontend_url is None,
            },
    {
        self.frontend_url.as_ref()
    }

    pub fn from_env(env: &Environment) -> (r: DirectorySettings)
        ensures
            r@ == directory_settings(env@),
    {
        DirectorySettings {
            files_dir: env.var_or("FILES_DIR", "./files"),
            backend_url: peer(env, "BACKEND_URL"),
            frontend_url: peer(env, "FRONTEND_URL"),
        }
    }
}

/// A peer is its URL without the slashes at its end; a blank one and `none` are none.
pub proof fn peer_is_its_url(env: Seq<(Seq<char>, Seq<char>)>, name: Seq<char>, url: Seq<char>)
    requires
        url.len() > 0,
        !crate::text::is_space(url[0]),
        !crate::text::is_space(url.last()),
        url.last() != '/',
    ensures
        variable(env, name) == Some(url) && url != "none"@ ==> peer_url(env, name) == Some(url),
        variable(env, name) == Some(url + seq!['/']) ==> peer_url(env, name) == Some(url),
        variable(env, name) == Some("none"@) ==> peer_url(env, name) is None,
        variable(env, name) == Some(Seq::<char>::empty()) ==> peer_url(env, name) is None,
        variable(env, name) is None ==> peer_url(env, name) is None,
{
    reveal_strlit("none");
    let none = Seq::<char>::empty();
    let slashed = url + seq!['/'];
    crate::text::outer_space_does_not_count(none, url, none);
    assert(none + url + none =~= url);
    assert(slashed[0] == url[0]);
    crate::text::outer_space_does_not_count(none, slashed, none);
    assert(none + slashed + none =~= slashed);
    assert(slashed.last() != "none"@.last());
    crate::text::outer_space_does_not_count(none, "none"@, none);
    assert(none + "none"@ + none =~= "none"@);
    crate::text::outer_space_does_not_count(none, none, none);
    assert(none + none + none =~= none);
    assert(slashed.drop_last() =~= url);
    assert(without_trailing(url, '/') == url);
}

/// Files are stored where it is set, or in `./files`; the two peers have variables of their own.
pub proof fn directories_are_set_as_documented(env: Seq<(Seq<char>, Seq<char>)>)
    ensures
        ({
            let directories = directory_settings(env);
            &&& match variable(env, "FILES_DIR"@) {
                Some(dir) => directories.files_dir == dir,
                None => directories.files_dir == "./files"@,
            }
            &&& directories.backend_url == peer_url(env, "BACKEND_URL"@)
            &&& directories.frontend_url == peer_url(env, "FRONTEND_URL"@)
        }),
{
}

} // verus!
