//! The sidecar's configuration, built once at start-up and handed to each
//! component, and the control API's endpoints and credential derived from it.
use vstd::prelude::*;

verus! {

/// The control API used when none is configured.
pub const DEFAULT_BASE_URL: &'static str = "https://code.squid.pink";

/// The header that carries the credential when none is configured.
pub const DEFAULT_AUTH_HEADER: &'static str = "Authorization";

/// A required value that was not supplied.
#[derive(Clone, Copy, Debug, PartialEq, Eq, Structural)]
pub enum ConfigError {
    MissingUser,
    MissingSecret,
}

#[derive(Clone, Debug)]
pub struct Config {
    /// The user identity, which also replaces the placeholder in `.json` files.
    pub user: String,
    pub secret: String,
    pub base_url: String,
    pub auth_header: String,
    /// Seconds the heartbeat monitor waits before its first observation.
    pub grace_secs: u64,
}

impl Config {
    /// Builds the configuration from the supplied values; identity and secret
    /// are required, the rest take their defaults when absent.
    pub fn from_values(
        user: Option<String>,
        secret: Option<String>,
        base_url: Option<String>,
        auth_header: Option<String>,
        grace_secs: Option<u64>,
    ) -> (r: Result<Config, ConfigError>)
        ensures
            user is None ==> r == Err::<Config, ConfigError>(ConfigError::MissingUser),
            user is Some && secret is None ==> r == Err::<Config, ConfigError>(
                ConfigError::MissingSecret,
            ),
            user is Some && secret is Some <==> r is Ok,
            r matches Ok(c) ==> {
                &&& c.user@ == user->Some_0@
                &&& c.secret@ == secret->Some_0@
                &&& c.base_url@ == match base_url {
                    Some(b) => b@,
                    None => DEFAULT_BASE_URL@,
                }
                &&& c.auth_header@ == match auth_header {
                    Some(h) => h@,
                    None => DEFAULT_AUTH_HEADER@,
                }
                &&& c.grace_secs == match grace_secs {
                    Some(g) => g,
                    None => 0,
                }
            },
    {
        let user = match user {
            Some(u) => u,
            None => return Err(ConfigError::MissingUser),
        };
        let secret = match secret {
            Some(s) => s,
            None => return Err(ConfigError::MissingSecret),
        };
        let base_url = match base_url {
            Some(b) => b,
            None => String::from_str(DEFAULT_BASE_URL),
        };
        let auth_header = match auth_header {
            Some(h) => h,
            None => String::from_str(DEFAULT_AUTH_HEADER),
        };
        let grace_secs = match grace_secs {
            Some(g) => g,
            None => 0,
        };
        Ok(Config { user, secret, base_url, auth_header, grace_secs })
    }

    /// The credential sent with every call: `user:secret`.
    pub fn auth_value(&self) -> (r: String)
        ensures
            r@ == self.user@ + ":"@ + self.secret@,
    {
        let mut r = String::from_str(self.user.as_str());
        r.append(":");
        r.append(self.secret.as_str());
        r
    }

    /// Where pending directives are listed and acknowledged.
    pub fn file_sync_url(&self) -> (r: String)
        ensures
            r@ == self.base_url@ + "/apps/file-sync/"@ + self.user@ + "/"@,
    {
        let mut r = String::from_str(self.base_url.as_str());
        r.append("/apps/file-sync/");
        r.append(self.user.as_str());
        r.append("/");
        r
    }

    /// Where the workspace is stopped when its heartbeat goes stale.
    pub fn deactivate_url(&self) -> (r: String)
        ensures
            r@ == self.base_url@ + "/deployments/"@ + self.user@ + "/token-bypass"@,
    {
        let mut r = String::from_str(self.base_url.as_str());
        r.append("/deployments/");
        r.append(self.user.as_str());
        r.append("/token-bypass");
        r
    }
}

} // verus!
