use vstd::prelude::*;

use crate::client::MALClient;

verus! {

/// Gathers the optional configuration of a client: the client id, the
/// cache directory, an initial access token, and whether to cache.
pub struct ClientBuilder {
    pub client_secret: Option<String>,
    pub dirs: Option<String>,
    pub access_token: Option<String>,
    pub caching: bool,
}

pub open spec fn str_or_empty(v: Option<String>) -> Seq<char> {
    match v {
        Some(s) => s@,
        None => Seq::empty(),
    }
}

impl ClientBuilder {
    /// A fresh builder: nothing configured, caching off.
    pub fn new() -> (r: ClientBuilder)
        ensures
            r.client_secret is None,
            r.dirs is None,
            r.access_token is None,
            !r.caching,
    {
        ClientBuilder { client_secret: None, dirs: None, access_token: None, caching: false }
    }

    /// Sets the client id used by the authorization flow.
    pub fn secret(self, secret: Option<String>) -> (r: ClientBuilder)
        ensures
            r == (ClientBuilder { client_secret: secret, ..self }),
    {
        ClientBuilder { client_secret: secret, ..self }
    }

    /// Sets the directory used for the token cache.
    pub fn cache_dir(self, path: Option<String>) -> (r: ClientBuilder)
        ensures
            r == (ClientBuilder { dirs: path, ..self }),
    {
        ClientBuilder { dirs: path, ..self }
    }

    /// Sets the initial access token.
    pub fn access_token(self, token: Option<String>) -> (r: ClientBuilder)
        ensures
            r == (ClientBuilder { access_token: token, ..self }),
    {
        ClientBuilder { access_token: token, ..self }
    }

    /// Sets whether the client caches tokens.
    pub fn caching(self, caching: bool) -> (r: ClientBuilder)
        ensures
            r == (ClientBuilder { caching, ..self }),
    {
        ClientBuilder { caching, ..self }
    }

    /// Builds the client state without consulting the token cache: unset
    /// strings become empty, and no authorization handshake is owed yet.
    pub fn build_no_refresh(self) -> (r: MALClient)
        ensures
            r.client_secret@ == str_or_empty(self.client_secret),
            r.dirs == self.dirs,
            r.access_token@ == str_or_empty(self.access_token),
            r.caching == self.caching,
            !r.need_auth,
    {
        MALClient {
            client_secret: match self.client_secret {
                Some(s) => s,
                None => String::new(),
            },
            dirs: self.dirs,
            access_token: match self.access_token {
                Some(s) => s,
                None => String::new(),
            },
            caching: self.caching,
            need_auth: false,
        }
    }
}

} // verus!
