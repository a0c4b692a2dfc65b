//! Who may use the server.
//!
//! A request names a user and proves knowledge of the password in one of two
//! ways: with a token, the MD5 digest of the password followed by a salt of the
//! client's choice, written in hexadecimal; or with the password itself,
//! written in hexadecimal and, optionally, marked by `enc:` in front.

use crate::text::chars_of;
use vstd::prelude::*;
use vstd::utf8::encode_utf8;

verus! {

/// The hexadecimal digit of `n`, in lower case, for `n < 16`.
pub open spec fn hex_digit(n: int) -> char {
    if n < 10 {
        (48 + n) as char
    } else {
        (87 + n) as char
    }
}

/// `bytes` written in hexadecimal: two lower-case digits for each byte, the
/// high half first.
pub open spec fn hex_lower(bytes: Seq<u8>) -> Seq<char>
    decreases bytes.len(),
{
    if bytes.len() == 0 {
        Seq::empty()
    } else {
        hex_lower(bytes.drop_last()) + seq![
            hex_digit(bytes.last() as int / 16),
            hex_digit(bytes.last() as int % 16),
        ]
    }
}

/// The MD5 digest of `data`, as the crate `md5` computes it.
pub uninterp spec fn md5_digest(data: Seq<u8>) -> Seq<u8>;

/// `md5::compute`: the sixteen bytes of the MD5 digest of `data`. The digest
/// depends on `data` alone; it is named here, not described.
#[verifier::external_body]
fn md5_compute(data: &[u8]) -> (digest: [u8; 16])
    ensures
        digest@ == md5_digest(data@),
{
    md5::compute(data).0
}

/// The `LowerHex` form of `md5::Digest`: each byte of the digest as two
/// lower-case hexadecimal digits, in order.
#[verifier::external_body]
fn digest_hex(digest: [u8; 16]) -> (text: String)
    ensures
        text@ == hex_lower(digest@),
{
    format!("{:x}", md5::Digest(digest))
}

/// `hex::encode`: each byte of `data` as two lower-case hexadecimal digits, in
/// order.
#[verifier::external_body]
fn hex_encode(data: &[u8]) -> (text: String)
    ensures
        text@ == hex_lower(data@),
{
    hex::encode(data)
}

/// What a request says of its sender.
pub struct Auth {
    pub username: String,
    pub password: Option<String>,
    pub token: String,
    pub salt: String,
    pub client: String,
    pub version: String,
}

/// The token that proves knowledge of `password` for the salt `salt`.
pub open spec fn token_for(password: Seq<char>, salt: Seq<char>) -> Seq<char> {
    hex_lower(md5_digest(encode_utf8(password + salt)))
}

/// A password as a request gives it, without the mark `enc:` in front.
pub open spec fn unmarked(given: Seq<char>) -> Seq<char> {
    if given.len() >= 4 && given.take(4) == seq!['e', 'n', 'c', ':'] {
        given.skip(4)
    } else {
        given
    }
}

/// Whether a request with these credentials comes from the user `username`
/// with the password `password`.
pub open spec fn accepts(
    username: Seq<char>,
    password: Seq<char>,
    given_username: Seq<char>,
    given_password: Option<Seq<char>>,
    token: Seq<char>,
    salt: Seq<char>,
) -> bool {
    given_username == username && match given_password {
        None => token == token_for(password, salt),
        Some(given) => unmarked(given) == hex_lower(encode_utf8(password)),
    }
}

/// The one user of the server.
pub struct SonicAuth {
    username: String,
    password: String,
    password_hex: String,
}

impl SonicAuth {
    pub closed spec fn username(&self) -> Seq<char> {
        self.username@
    }

    pub closed spec fn password(&self) -> Seq<char> {
        self.password@
    }

    /// The hexadecimal form of the password is kept beside it.
    pub closed spec fn wf(&self) -> bool {
        self.password_hex@ == hex_lower(encode_utf8(self.password@))
    }

    pub fn new(username: String, password: String) -> (r: SonicAuth)
        ensures
            r.wf(),
            r.username() == username@,
            r.password() == password@,
    {
        let password_hex = hex_encode(password.as_str().as_bytes());
        SonicAuth { username, password, password_hex }
    }

    /// Whether `auth` names this user and proves knowledge of the password.
    pub open spec fn allows(&self, auth: &Auth) -> bool {
        accepts(
            self.username(),
            self.password(),
            auth.username@,
            match auth.password {
                Some(given) => Some(given@),
                None => None,
            },
            auth.token@,
            auth.salt@,
        )
    }

    /// Checks the credentials of a request.
    pub fn check(&self, auth: &Auth) -> (r: bool)
        requires
            self.wf(),
        ensures
            r == self.allows(auth),
    {
        if auth.username != self.username {
            return false;
        }
        match &auth.password {
            None => {
                let mut salted = self.password.clone();
                salted.append(auth.salt.as_str());
                let token = digest_hex(md5_compute(salted.as_str().as_bytes()));
                auth.token == token
            },
            Some(given) => {
                let chars = chars_of(given.as_str());
                let marked = chars.len() >= 4 && chars[0] == 'e' && chars[1] == 'n' && chars[2]
                    == 'c' && chars[3] == ':';
                assert(marked == (given@.len() >= 4 && given@.take(4) =~= seq!['e', 'n', 'c', ':']));
                let plain = if marked {
                    String::from_str(given.as_str().substring_char(4, chars.len()))
                } else {
                    given.clone()
                };
                assert(plain@ =~= unmarked(given@));
                plain == self.password_hex
            },
        }
    }
}

/// A service behind the check of credentials.
pub struct SonicAuthMiddleware<S> {
    pub auth: SonicAuth,
    pub service: S,
}

impl<S> SonicAuthMiddleware<S> {
    /// Decides whether a request goes on to the service. `auth` is what the
    /// request says of its sender, or nothing where that could not be read.
    /// The request is turned away unless the credentials check out.
    pub fn let_through(&self, auth: Option<&Auth>) -> (r: Option<&S>)
        requires
            self.auth.wf(),
        ensures
            r is Some <==> auth is Some && self.auth.allows(auth->0),
            r is Some ==> r->0 == &self.service,
    {
        match auth {
            Some(auth) => if self.auth.check(auth) {
                Some(&self.service)
            } else {
                None
            },
            None => None,
        }
    }
}

} // verus!
