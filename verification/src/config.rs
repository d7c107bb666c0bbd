//! The configuration, read from settings in the environment.

use vstd::prelude::*;

use crate::jobs::{import_max_bytes, setting, setting_or};
use crate::text::{integer_value, opt_view, parse_u32, string_or, text_or};

verus! {

/// The settings, as the environment gives them.
#[derive(Debug)]
pub struct Settings {
    pub database_url: Option<String>,
    pub database_max_connections: Option<String>,
    pub bind_addr: Option<String>,
    pub session_ttl_hours: Option<String>,
    pub encryption_key: Option<String>,
    pub webauthn_rp_id: Option<String>,
    pub webauthn_origin: Option<String>,
    pub attachment_max_bytes: Option<String>,
    pub retention_days: Option<String>,
    pub import_max_bytes: Option<String>,
    pub places_api_key: Option<String>,
}

/// The configuration.
#[derive(Debug)]
pub struct Config {
    pub database_url: String,
    pub database_max_connections: u32,
    pub bind_addr: String,
    pub session_ttl_hours: i64,
    pub encryption_key: Option<String>,
    pub webauthn_rp_id: Option<String>,
    pub webauthn_origin: Option<String>,
    /// Bytes that an attachment may have.
    pub attachment_max_bytes: i64,
    /// Days that deleted resources are kept.
    pub retention_days: i64,
    /// Bytes that an imported file may have.
    pub import_max_bytes: i64,
    /// The key for place searches, which it turns on.
    pub places_api_key: Option<String>,
}

/// The number that a setting writes, or its default where it is missing or
/// writes none that fits 32 bits without a sign.
pub open spec fn small_setting(value: Option<Seq<char>>, default: u32) -> u32 {
    match value {
        Some(s) => match integer_value(s) {
            Some(n) => if s[0] != '-' && n <= u32::MAX {
                n as u32
            } else {
                default
            },
            None => default,
        },
        None => default,
    }
}

/// A setting that counts only where it is not empty.
pub open spec fn nonempty(value: Option<Seq<char>>) -> Option<Seq<char>> {
    match value {
        Some(s) => if s.len() > 0 {
            Some(s)
        } else {
            None
        },
        None => None,
    }
}

impl Config {
    /// Reads the settings. Only the address of the database has no default.
    pub fn from_env(s: Settings) -> (r: Result<Config, String>)
        ensures
            match r {
                Err(e) => s.database_url is None && e@ == "DATABASE_URL is required"@,
                Ok(c) => {
                    &&& s.database_url == Some(c.database_url)
                    &&& c.database_max_connections == small_setting(
                        opt_view(s.database_max_connections),
                        16,
                    )
                    &&& c.bind_addr@ == text_or(opt_view(s.bind_addr), "127.0.0.1:8080"@)
                    &&& c.session_ttl_hours == setting(opt_view(s.session_ttl_hours), 168)
                    &&& c.encryption_key == s.encryption_key
                    &&& c.webauthn_rp_id == s.webauthn_rp_id
                    &&& c.webauthn_origin == s.webauthn_origin
                    &&& c.attachment_max_bytes == setting(
                        opt_view(s.attachment_max_bytes),
                        52_428_800,
                    )
                    &&& c.retention_days == setting(opt_view(s.retention_days), 30)
                    &&& c.import_max_bytes == setting(opt_view(s.import_max_bytes), 10_485_760)
                    &&& opt_view(c.places_api_key) == nonempty(opt_view(s.places_api_key))
                },
            },
    {
        let database_url = match s.database_url {
            Some(url) => url,
            None => {
                return Err("DATABASE_URL is required".to_owned());
            },
        };
        let database_max_connections: u32 = match &s.database_max_connections {
            Some(v) => match parse_u32(v.as_str()) {
                Some(n) => n,
                None => 16,
            },
            None => 16,
        };
        let places_api_key = match s.places_api_key {
            Some(k) => {
                if k.as_str().is_empty() {
                    None
                } else {
                    Some(k)
                }
            },
            None => None,
        };
        Ok(
            Config {
                database_url,
                database_max_connections,
                bind_addr: string_or(&s.bind_addr, "127.0.0.1:8080"),
                session_ttl_hours: setting_or(&s.session_ttl_hours, 168),
                encryption_key: s.encryption_key,
                webauthn_rp_id: s.webauthn_rp_id,
                webauthn_origin: s.webauthn_origin,
                attachment_max_bytes: setting_or(&s.attachment_max_bytes, 52_428_800),
                retention_days: setting_or(&s.retention_days, 30),
                import_max_bytes: import_max_bytes(&s.import_max_bytes),
                places_api_key,
            },
        )
    }

    /// The domain and the origin that passkeys are bound to; passkeys are on
    /// only where both are set.
    pub fn passkey_party(&self) -> (r: Option<(String, String)>)
        ensures
            match r {
                Some(p) => opt_view(self.webauthn_rp_id) == Some(p.0@) && opt_view(
                    self.webauthn_origin,
                ) == Some(p.1@),
                None => self.webauthn_rp_id is None || self.webauthn_origin is None,
            },
    {
        match (&self.webauthn_rp_id, &self.webauthn_origin) {
            (Some(id), Some(origin)) => Some((id.clone(), origin.clone())),
            _ => None,
        }
    }
}

} // verus!
