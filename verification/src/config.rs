//! Persistent settings: the optional API keys of the reputation providers.
//! Loading and saving the settings file is left to the caller.

use vstd::prelude::*;

use crate::text::{push_str, str_eq};

verus! {

/// The stored API keys.
pub struct AppConfig {
    pub virustotal_api_key: Option<String>,
    pub cloudflare_api_token: Option<String>,
}

impl Default for AppConfig {
    /// No keys stored.
    fn default() -> (c: Self)
        ensures
            c.virustotal_api_key is None,
            c.cloudflare_api_token is None,
    {
        AppConfig { virustotal_api_key: None, cloudflare_api_token: None }
    }
}

/// The views of an optional string.
pub open spec fn opt_str(s: Option<String>) -> Option<Seq<char>> {
    match s {
        Some(x) => Some(x@),
        None => None,
    }
}

impl AppConfig {
    /// Stores `value` under the configuration key `key`; an unknown key is an
    /// error naming it, and leaves the configuration unchanged.
    pub fn set(&mut self, key: &str, value: &str) -> (r: Result<(), String>)
        ensures
            key@ == "VIRUSTOTAL_API_KEY"@ ==> r is Ok && opt_str(final(self).virustotal_api_key) == Some(
                value@,
            ) && final(self).cloudflare_api_token == old(self).cloudflare_api_token,
            key@ == "CLOUDFLARE_API_TOKEN"@ ==> r is Ok && opt_str(final(self).cloudflare_api_token)
                == Some(value@) && final(self).virustotal_api_key == old(self).virustotal_api_key,
            key@ != "VIRUSTOTAL_API_KEY"@ && key@ != "CLOUDFLARE_API_TOKEN"@ ==> (r matches Err(m) && m@
                == "unknown config key: "@ + key@) && *final(self) == *old(self),
    {
        proof {
            reveal_strlit("VIRUSTOTAL_API_KEY");
            reveal_strlit("CLOUDFLARE_API_TOKEN");
            assert("VIRUSTOTAL_API_KEY"@.len() == 18);
            assert("CLOUDFLARE_API_TOKEN"@.len() == 20);
        }
        if str_eq(key, "VIRUSTOTAL_API_KEY") {
            self.virustotal_api_key = Some(String::from_str(value));
            Ok(())
        } else if str_eq(key, "CLOUDFLARE_API_TOKEN") {
            self.cloudflare_api_token = Some(String::from_str(value));
            Ok(())
        } else {
            let mut m = String::new();
            push_str(&mut m, "unknown config key: ");
            push_str(&mut m, key);
            Err(m)
        }
    }
}

} // verus!
