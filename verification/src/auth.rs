//! The authentication gate: HTTP Basic credentials against the configured
//! user name and password digest.

use crate::config::AuthConfig;
use crate::text::{chars_of, first_index_of, lemma_first_index_of, string_of};
use sha2::Digest;
use vstd::prelude::*;
use vstd::utf8::encode_utf8;

verus! {

/// The SHA-512 digest of `data`, as `sha2::Sha512` computes it.
pub uninterp spec fn sha512(data: Seq<u8>) -> Seq<u8>;

/// The digest under which the password `password` is stored and compared:
/// SHA-512 of its UTF-8 bytes, without salt.
pub open spec fn password_digest(password: Seq<char>) -> Seq<u8> {
    sha512(encode_utf8(password))
}

/// Calls `sha2::Sha512::digest`: the digest of the same bytes is always the
/// same, and always 64 bytes long.
#[verifier::external_body]
fn sha512_digest(data: &[u8]) -> (digest: Vec<u8>)
    ensures
        digest@ == sha512(data@),
        digest@.len() == 64,
{
    sha2::Sha512::digest(data).to_vec()
}

/// The digest of the password `from`.
pub fn hash(from: &str) -> (digest: Vec<u8>)
    ensures
        digest@ == password_digest(from@),
        digest@.len() == 64,
{
    sha512_digest(from.as_bytes())
}

impl AuthConfig {
    /// The credentials `username` and `password`, the password kept as its
    /// digest only.
    pub fn new(username: String, password: &str) -> (auth: AuthConfig)
        ensures
            auth.username == username,
            auth.password_hash@ == password_digest(password@),
    {
        AuthConfig { username, password_hash: hash(password) }
    }
}

/// What a request presents in its `Authorization: Basic` header.
#[derive(Clone, Debug, PartialEq, Eq)]
pub struct Credentials {
    pub username: String,
    /// Absent where the header holds a user name only.
    pub password: Option<String>,
}

/// The verdict on a request's credentials.
#[derive(Clone, Copy, Debug, PartialEq, Eq, Structural)]
pub enum AuthDecision {
    Allow,
    Deny,
}

/// The password that `c` presents: the empty one where it presents none.
pub open spec fn presented_password(c: &Credentials) -> Seq<char> {
    match c.password {
        Some(p) => p@,
        None => Seq::empty(),
    }
}

/// Whether a user name and a password digest are the configured ones.
pub open spec fn accepted(auth: &AuthConfig, username: Seq<char>, digest: Seq<u8>) -> bool {
    username == auth.username@ && digest == auth.password_hash@
}

/// The verdict on the credentials `supplied` under the configuration `auth`:
/// without configured credentials every request is allowed; with them, a
/// request is allowed only if it presents that user name and a password
/// with that digest.
pub open spec fn auth_decision(
    auth: &Option<AuthConfig>,
    supplied: &Option<Credentials>,
) -> AuthDecision {
    match auth {
        None => AuthDecision::Allow,
        Some(a) => match supplied {
            None => AuthDecision::Deny,
            Some(c) => if accepted(a, c.username@, password_digest(presented_password(c))) {
                AuthDecision::Allow
            } else {
                AuthDecision::Deny
            },
        },
    }
}

/// Whether `a` and `b` hold the same bytes. Slices of one length are read to
/// their end whether or not a difference was already found.
pub fn same_bytes(a: &[u8], b: &[u8]) -> (same: bool)
    ensures
        same == (a@ == b@),
{
    if a.len() != b.len() {
        return false;
    }
    let mut same = true;
    let mut i: usize = 0;
    proof {
        assert(a@.take(0) =~= b@.take(0));
    }
    while i < a.len()
        invariant
            i <= a.len() == b.len(),
            same == (a@.take(i as int) == b@.take(i as int)),
        decreases a.len() - i,
    {
        proof {
            let x = a@.take(i + 1);
            let y = b@.take(i + 1);
            assert(x.drop_last() =~= a@.take(i as int));
            assert(y.drop_last() =~= b@.take(i as int));
            assert(x.last() == a@[i as int] && y.last() == b@[i as int]);
            if a@.take(i as int) == b@.take(i as int) && a@[i as int] == b@[i as int] {
                assert(x =~= y);
            }
        }
        if a[i] != b[i] {
            same = false;
        }
        i += 1;
    }
    proof {
        assert(a@.take(i as int) =~= a@);
        assert(b@.take(i as int) =~= b@);
    }
    same
}

/// The verdict on a user name and the digest of the password presented.
pub fn decide(auth: &AuthConfig, username: &str, digest: &[u8]) -> (d: AuthDecision)
    ensures
        d == (if accepted(auth, username@, digest@) {
            AuthDecision::Allow
        } else {
            AuthDecision::Deny
        }),
{
    let name_ok = username.eq(auth.username.as_str());
    let digest_ok = same_bytes(digest, auth.password_hash.as_slice());
    if name_ok && digest_ok {
        AuthDecision::Allow
    } else {
        AuthDecision::Deny
    }
}

/// Decides on the credentials of a request. A password is hashed only where
/// credentials are configured and the request presents some.
pub fn check_credentials(auth: &Option<AuthConfig>, supplied: &Option<Credentials>) -> (d:
    AuthDecision)
    ensures
        d == auth_decision(auth, supplied),
{
    match auth {
        None => AuthDecision::Allow,
        Some(a) => match supplied {
            None => AuthDecision::Deny,
            Some(c) => {
                let digest = match &c.password {
                    Some(p) => hash(p.as_str()),
                    None => hash(""),
                };
                proof {
                    reveal_strlit("");
                    assert(""@ =~= Seq::<char>::empty());
                }
                decide(a, c.username.as_str(), digest.as_slice())
            },
        },
    }
}

/// Why a `user:password` argument is refused.
#[derive(Clone, Copy, Debug, PartialEq, Eq, Structural)]
pub enum AuthArgError {
    PasswordNotFound,
    UsernameNotFound,
}

impl AuthArgError {
    /// The message shown for the error.
    pub fn message(&self) -> (m: &'static str)
        ensures
            m@ == (match self {
                AuthArgError::PasswordNotFound => "Password not found"@,
                AuthArgError::UsernameNotFound => "Username not found"@,
            }),
    {
        match self {
            AuthArgError::PasswordNotFound => "Password not found",
            AuthArgError::UsernameNotFound => "Username not found",
        }
    }
}

/// What a `user:password` argument holds. The text is cut at its first colon;
/// the password is asked for before the user name.
pub open spec fn auth_arg(s: Seq<char>) -> Result<(Seq<char>, Seq<char>), AuthArgError> {
    let colon = first_index_of(s, ':');
    if colon >= s.len() - 1 {
        Err(AuthArgError::PasswordNotFound)
    } else if colon == 0 {
        Err(AuthArgError::UsernameNotFound)
    } else {
        Ok((s.take(colon), s.skip(colon + 1)))
    }
}

/// Reads a `user:password` argument.
pub fn parse_auth_arg(s: &str) -> (r: Result<(String, String), AuthArgError>)
    ensures
        match r {
            Ok((user, password)) => auth_arg(s@) == Ok::<_, AuthArgError>((user@, password@)),
            Err(e) => auth_arg(s@) == Err::<(Seq<char>, Seq<char>), _>(e),
        },
{
    let chars = chars_of(s);
    let n = chars.len();
    let mut i: usize = 0;
    while i < n && chars[i] != ':'
        invariant
            i <= n == chars.len(),
            forall|k: int| 0 <= k < i ==> chars@[k] != ':',
        decreases n - i,
    {
        i += 1;
    }
    proof {
        lemma_first_index_of(chars@, ':', i as int);
    }
    if i >= n || i == n - 1 {
        Err(AuthArgError::PasswordNotFound)
    } else if i == 0 {
        Err(AuthArgError::UsernameNotFound)
    } else {
        let user = string_of(&chars, 0, i);
        let password = string_of(&chars, i + 1, n);
        proof {
            assert(chars@.subrange(0, i as int) =~= chars@.take(i as int));
            assert(chars@.subrange(i + 1, n as int) =~= chars@.skip(i + 1));
        }
        Ok((user, password))
    }
}

} // verus!
