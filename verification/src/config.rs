//! The settings of the server: where it listens, who may use it, where the
//! metadata lies, and which backend serves the audio.

use vstd::prelude::*;

verus! {

pub struct Config {
    pub server: ServerConfig,
    pub repo: RepoConfig,
    pub annil: AnnilConfig,
}

pub struct ServerConfig {
    pub listen: Option<String>,
    pub username: String,
    pub password: String,
}

impl ServerConfig {
    /// The address to listen on: the one that the settings name, else
    /// `default`.
    pub fn listen(&self, default: &'static str) -> (r: &str)
        ensures
            r@ == (match self.listen {
                Some(address) => address@,
                None => default@,
            }),
    {
        if let Some(listen) = &self.listen {
            listen.as_str()
        } else {
            default
        }
    }
}

pub struct RepoConfig {
    pub root: String,
}

/// `s` without its last character, if that is a `/`.
pub open spec fn without_slash(s: Seq<char>) -> Seq<char> {
    if s.len() > 0 && s.last() == '/' {
        s.drop_last()
    } else {
        s
    }
}

/// The address of `middle` on the backend at `server`, for the bearer of
/// `token`.
pub open spec fn url(server: Seq<char>, middle: Seq<char>, token: Seq<char>) -> Seq<char> {
    without_slash(server) + seq!['/'] + middle + "?auth="@ + token
}

/// The backend that serves the audio.
#[derive(Clone)]
pub struct AnnilConfig {
    server: String,
    token: String,
}

impl AnnilConfig {
    /// The address of the backend, as the settings give it.
    pub closed spec fn server_setting(&self) -> Seq<char> {
        self.server@
    }

    /// The token that the backend asks for.
    pub closed spec fn token(&self) -> Seq<char> {
        self.token@
    }

    pub fn new(server: String, token: String) -> (r: AnnilConfig)
        ensures
            r.server_setting() == server@,
            r.token() == token@,
    {
        AnnilConfig { server, token }
    }

    /// The address of the backend without a `/` at its end.
    pub fn server(&self) -> (r: &str)
        ensures
            r@ == without_slash(self.server_setting()),
    {
        let whole = self.server.as_str();
        let len: usize = whole.unicode_len();
        if len > 0 && whole.get_char(len - 1) == '/' {
            let r = whole.substring_char(0, len - 1);
            assert(r@ =~= whole@.drop_last());
            r
        } else {
            whole
        }
    }

    /// The address of `middle` on the backend.
    pub fn get_url(&self, middle: &str) -> (r: String)
        ensures
            r@ == url(self.server_setting(), middle@, self.token()),
    {
        proof {
            reveal_strlit("/");
        }
        let mut r = String::from_str(self.server());
        r.append("/");
        r.append(middle);
        r.append("?auth=");
        r.append(self.token.as_str());
        assert(r@ =~= url(self.server_setting(), middle@, self.token()));
        r
    }
}

} // verus!
