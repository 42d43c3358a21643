use vstd::prelude::*;
use vstd::string::StringExecFns;
use crate::errors::RegistryError;
use crate::text::{concat2, concat3};

verus! {

/// Client-side session state: the registry base address, the bearer token
/// of the logged-in user, and the local cache and install directories. It
/// is loaded at process start and saved after any mutation; the token is an
/// opaque string valid until cleared.
pub struct Config {
    pub registry_url: String,
    pub auth_token: Option<String>,
    pub cache_dir: String,
    pub install_dir: String,
}

/// Mathematical image of a `Config`.
#[verifier::ext_equal]
pub ghost struct ConfigModel {
    pub registry_url: Seq<char>,
    pub auth_token: Option<Seq<char>>,
    pub cache_dir: Seq<char>,
    pub install_dir: Seq<char>,
}

impl View for Config {
    type V = ConfigModel;

    open spec fn view(&self) -> ConfigModel {
        ConfigModel {
            registry_url: self.registry_url@,
            auth_token: crate::entities::opt_view(self.auth_token),
            cache_dir: self.cache_dir@,
            install_dir: self.install_dir@,
        }
    }
}

/// The token a session carries, or the empty string while logged out.
pub open spec fn token_or_empty(token: Option<Seq<char>>) -> Seq<char> {
    match token {
        Some(t) => t,
        None => Seq::<char>::empty(),
    }
}

impl Config {
    /// The default session under a home directory: the local registry
    /// address, no token, and the cache and install directories under
    /// `.cpkgs`.
    pub fn new_with_home(home: &str) -> (c: Config)
        ensures
            c@.registry_url == "http://localhost:3000"@,
            c@.auth_token is None,
            c@.cache_dir == home@ + "/.cpkgs/cache"@,
            c@.install_dir == home@ + "/.cpkgs/packages"@,
    {
        Config {
            registry_url: String::from_str("http://localhost:3000"),
            auth_token: None,
            cache_dir: concat2(home, "/.cpkgs/cache"),
            install_dir: concat2(home, "/.cpkgs/packages"),
        }
    }

    /// Stores the token obtained by login or registration.
    pub fn set_auth_token(&mut self, token: String)
        ensures
            final(self)@.auth_token == Some(token@),
            final(self)@.registry_url == old(self)@.registry_url,
            final(self)@.cache_dir == old(self)@.cache_dir,
            final(self)@.install_dir == old(self)@.install_dir,
    {
        self.auth_token = Some(token);
    }

    /// Clears the token on logout.
    pub fn clear_auth_token(&mut self)
        ensures
            final(self)@.auth_token is None,
            final(self)@.registry_url == old(self)@.registry_url,
            final(self)@.cache_dir == old(self)@.cache_dir,
            final(self)@.install_dir == old(self)@.install_dir,
    {
        self.auth_token = None;
    }

    /// The token, when a session is present; commands that require
    /// authentication report `Unauthorized` without contacting the service
    /// when it is absent.
    pub fn require_token(&self) -> (r: Result<&String, RegistryError>)
        ensures
            match r {
                Ok(t) => self@.auth_token == Some(t@),
                Err(e) => e == RegistryError::Unauthorized && self@.auth_token is None,
            },
    {
        match &self.auth_token {
            Some(t) => Ok(t),
            None => Err(RegistryError::Unauthorized),
        }
    }

    /// The value of the `Authorization` header every outgoing call carries:
    /// the bearer prefix followed by the token, or by nothing while logged
    /// out.
    pub fn bearer_header(&self) -> (r: String)
        ensures
            r@ == "Bearer "@ + token_or_empty(self@.auth_token),
    {
        match &self.auth_token {
            Some(t) => concat2("Bearer ", t.as_str()),
            None => {
                let r = concat2("Bearer ", "");
                proof {
                    reveal_strlit("");
                    assert(""@ =~= Seq::<char>::empty());
                }
                r
            },
        }
    }

    /// The collection address of packages.
    pub fn packages_url(&self) -> (r: String)
        ensures
            r@ == self@.registry_url + "/api/packages"@,
    {
        concat2(self.registry_url.as_str(), "/api/packages")
    }

    /// The address of one package.
    pub fn package_url(&self, id: &str) -> (r: String)
        ensures
            r@ == self@.registry_url + "/api/packages/"@ + id@,
    {
        concat3(self.registry_url.as_str(), "/api/packages/", id)
    }

    /// The download address of one package.
    pub fn download_url(&self, id: &str) -> (r: String)
        ensures
            r@ == self@.registry_url + "/api/packages/"@ + id@ + "/download"@,
    {
        let base = self.package_url(id);
        concat2(base.as_str(), "/download")
    }

    /// The search address of a query.
    pub fn search_url(&self, query: &str) -> (r: String)
        ensures
            r@ == self@.registry_url + "/api/packages/search/"@ + query@,
    {
        let r = concat3(self.registry_url.as_str(), "/api/packages/search/", query);
        proof {
            reveal_strlit("/api/packages/search/");
        }
        r
    }

    /// The address of an authentication action: login, register or logout.
    pub fn auth_url(&self, action: &str) -> (r: String)
        ensures
            r@ == self@.registry_url + "/api/auth/"@ + action@,
    {
        concat3(self.registry_url.as_str(), "/api/auth/", action)
    }

    /// The collection address of users.
    pub fn users_url(&self) -> (r: String)
        ensures
            r@ == self@.registry_url + "/api/users"@,
    {
        concat2(self.registry_url.as_str(), "/api/users")
    }
}

/// The file name under which a package artifact is installed locally.
pub fn package_file_name(name: &str, version: &str) -> (r: String)
    ensures
        r@ == name@ + "-"@ + version@ + ".deb"@,
{
    let head = concat3(name, "-", version);
    let r = concat2(head.as_str(), ".deb");
    proof {
        assert(r@ =~= name@ + "-"@ + version@ + ".deb"@);
    }
    r
}

} // verus!
