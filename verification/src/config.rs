//! The server's configuration: resolved once before the first request and
//! read-only from then on.

use crate::text::{chars_of, string_of};
use vstd::prelude::*;

verus! {

/// The credentials that requests must present: a user name, and the
/// SHA-512 digest of the password.
#[derive(Clone, Debug, PartialEq, Eq)]
pub struct AuthConfig {
    pub username: String,
    pub password_hash: Vec<u8>,
}

/// What the pipeline reads of the server's settings.
#[derive(Clone, Debug, PartialEq, Eq)]
pub struct ServerConfig {
    /// The directory that is served, as an absolute path.
    pub root: String,
    /// Whether a directory without `index.html` is shown as a listing.
    pub show_index: bool,
    /// Whether names that begin with a dot are served and listed.
    pub show_dotfiles: bool,
    /// Whether a path that resolves to nothing is answered with the root's
    /// `index.html`.
    pub spa_mode: bool,
    /// Whether every response forbids caching.
    pub no_cache: bool,
    /// Whether every response carries `Access-Control-Allow-Origin`.
    pub cors_enabled: bool,
    /// The origin to allow; any origin where none is given.
    pub cors_origin: Option<String>,
    /// The credentials to ask for, if any.
    pub auth: Option<AuthConfig>,
}

impl ServerConfig {
    /// The settings of a server started on `root` with no option given:
    /// listings on, everything else off.
    pub fn new(root: String) -> (config: ServerConfig)
        ensures
            config.root == root,
            config.show_index,
            !config.show_dotfiles,
            !config.spa_mode,
            !config.no_cache,
            !config.cors_enabled,
            config.cors_origin is None,
            config.auth is None,
    {
        ServerConfig {
            root,
            show_index: true,
            show_dotfiles: false,
            spa_mode: false,
            no_cache: false,
            cors_enabled: false,
            cors_origin: None,
            auth: None,
        }
    }
}

/// The prefix `\\?\` that Windows puts before a canonical path.
pub open spec fn verbatim_prefix() -> Seq<char> {
    seq!['\\', '\\', '?', '\\']
}

/// `path` as it is shown to the user: without a leading `\\?\`.
pub open spec fn displayed(path: Seq<char>) -> Seq<char> {
    if verbatim_prefix().is_prefix_of(path) {
        path.skip(4)
    } else {
        path
    }
}

/// The form in which a canonical path is shown and served: the path itself,
/// less the `\\?\` that a canonical Windows path begins with.
pub fn display_path(canonical: &str) -> (shown: String)
    ensures
        shown@ == displayed(canonical@),
{
    let chars = chars_of(canonical);
    let n = chars.len();
    let prefixed = n >= 4 && chars[0] == '\\' && chars[1] == '\\' && chars[2] == '?' && chars[3]
        == '\\';
    proof {
        let p = verbatim_prefix();
        assert(p.len() == 4 && p[0] == '\\' && p[1] == '\\' && p[2] == '?' && p[3] == '\\');
        if prefixed {
            assert(chars@.subrange(0, 4) =~= p);
        } else if n >= 4 {
            assert(chars@.subrange(0, 4) != p) by {
                let q = chars@.subrange(0, 4);
                assert(q[0] == chars@[0] && q[1] == chars@[1] && q[2] == chars@[2] && q[3]
                    == chars@[3]);
            }
        }
    }
    if prefixed {
        let shown = string_of(&chars, 4, n);
        proof {
            assert(chars@.subrange(4, n as int) =~= chars@.skip(4));
        }
        shown
    } else {
        let shown = string_of(&chars, 0, n);
        proof {
            assert(chars@.subrange(0, n as int) =~= chars@);
        }
        shown
    }
}

} // verus!
