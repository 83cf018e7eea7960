//! Process configuration, supplied by the embedding program at startup and
//! immutable thereafter. The token secret and expiry live here; the secret
//! is never logged or returned.

use vstd::prelude::*;
use crate::numerals::dec_u;

verus! {

#[derive(Debug, Clone)]
pub struct Config {
    pub host: String,
    pub port: u16,
    pub database_url: String,
    pub jwt_secret: String,
    pub jwt_expiration: i64,
    pub app_env: String,
}

impl Config {
    /// Whether the environment is the production one.
    pub fn is_production(&self) -> (r: bool)
        ensures
            r == (self.app_env@ == "production"@),
    {
        crate::chars::str_eq(self.app_env.as_str(), "production")
    }

    /// The `host:port` address the embedding server binds.
    pub fn server_address(&self) -> (r: String)
        ensures
            r@ == self.host@ + seq![':'] + dec_u(self.port as int),
    {
        let mut v = crate::chars::chars_of(self.host.as_str());
        v.push(':');
        crate::numerals::push_dec(&mut v, self.port as u64);
        proof {
            assert(v@ =~= self.host@ + seq![':'] + dec_u(self.port as int));
        }
        crate::chars::string_from_chars(&v)
    }
}

} // verus!
