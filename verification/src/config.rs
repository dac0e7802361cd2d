//! Service configuration: the settings the process starts with, checks on
//! their consistency, and a redacted copy safe to show in logs. Reading the
//! environment itself happens outside the core, which only validates the
//! values it is handed.

use vstd::prelude::*;
use vstd::string::StringSliceAdditionalSpecFns;

verus! {

broadcast use vstd::slice::group_slice_axioms;

/// Everything the service is configured with.
pub struct Config {
    pub database_url: String,
    pub database_max_connections: u32,
    pub supabase_url: String,
    pub supabase_anon_key: String,
    pub supabase_service_role_key: String,
    pub server_host: String,
    pub server_port: u16,
    pub jwt_secret: String,
    pub allowed_origins: String,
    pub websocket_timeout_seconds: u64,
    pub actix_workers: usize,
}

/// The first consistency check a configuration fails, if any.
#[derive(Clone, Copy, PartialEq, Eq, Structural, Debug)]
pub enum ConfigError {
    /// The store URL does not use HTTPS.
    SupabaseUrlScheme,
    /// The database URL is not a PostgreSQL connection string.
    DatabaseUrlScheme,
    /// The database connection pool would be empty.
    NoDatabaseConnections,
    /// The worker pool would be empty.
    NoWorkers,
}

/// `prefix` is a byte prefix of `text`.
pub open spec fn starts_with_spec(text: Seq<u8>, prefix: Seq<u8>) -> bool {
    prefix.len() <= text.len() && text.subrange(0, prefix.len() as int) == prefix
}

/// Whether one text begins with another, byte for byte.
pub fn str_starts_with(text: &str, prefix: &str) -> (r: bool)
    ensures
        r == starts_with_spec(text.spec_bytes(), prefix.spec_bytes()),
{
    let tb = text.as_bytes();
    let pb = prefix.as_bytes();
    if pb.len() > tb.len() {
        return false;
    }
    let n = pb.len();
    let mut i: usize = 0;
    while i < n
        invariant
            i <= n,
            n == pb@.len(),
            n <= tb@.len(),
            tb@ == text.spec_bytes(),
            pb@ == prefix.spec_bytes(),
            forall|j: int| 0 <= j < i ==> tb@[j] == pb@[j],
        decreases n - i,
    {
        if *vstd::slice::slice_index_get(tb, i) != *vstd::slice::slice_index_get(pb, i) {
            proof {
                assert(!starts_with_spec(tb@, pb@)) by {
                    if starts_with_spec(tb@, pb@) {
                        assert(tb@.subrange(0, n as int)[i as int] == tb@[i as int]);
                    }
                }
            }
            return false;
        }
        i += 1;
    }
    proof {
        assert(tb@.subrange(0, n as int) =~= pb@);
    }
    true
}

impl Config {
    /// Checks the configuration's consistency, in order: the store URL must
    /// be HTTPS, the database URL a PostgreSQL connection string, and both
    /// the connection pool and the worker pool non-empty.
    pub fn validate(&self) -> (r: Result<(), ConfigError>)
        ensures
            (if !starts_with_spec(vstd::utf8::encode_utf8(self.supabase_url@), "https://".spec_bytes()) {
                r == Err::<(), ConfigError>(ConfigError::SupabaseUrlScheme)
            } else if !starts_with_spec(
                vstd::utf8::encode_utf8(self.database_url@),
                "postgresql://".spec_bytes(),
            ) {
                r == Err::<(), ConfigError>(ConfigError::DatabaseUrlScheme)
            } else if self.database_max_connections == 0 {
                r == Err::<(), ConfigError>(ConfigError::NoDatabaseConnections)
            } else if self.actix_workers == 0 {
                r == Err::<(), ConfigError>(ConfigError::NoWorkers)
            } else {
                r == Ok::<(), ConfigError>(())
            }),
    {
        if !str_starts_with(self.supabase_url.as_str(), "https://") {
            return Err(ConfigError::SupabaseUrlScheme);
        }
        if !str_starts_with(self.database_url.as_str(), "postgresql://") {
            return Err(ConfigError::DatabaseUrlScheme);
        }
        if self.database_max_connections == 0 {
            return Err(ConfigError::NoDatabaseConnections);
        }
        if self.actix_workers == 0 {
            return Err(ConfigError::NoWorkers);
        }
        Ok(())
    }

    /// A copy of the configuration that is safe to display: every credential
    /// — the database connection string, the store keys, and the token
    /// secret — is replaced by a marker, and everything else is kept.
    pub fn display_safe(&self) -> (r: Config)
        ensures
            r.database_url@ == "redacted"@,
            r.supabase_anon_key@ == "redacted"@,
            r.supabase_service_role_key@ == "redacted"@,
            r.jwt_secret@ == "redacted"@,
            r.database_max_connections == self.database_max_connections,
            r.supabase_url@ == self.supabase_url@,
            r.server_host@ == self.server_host@,
            r.server_port == self.server_port,
            r.allowed_origins@ == self.allowed_origins@,
            r.websocket_timeout_seconds == self.websocket_timeout_seconds,
            r.actix_workers == self.actix_workers,
    {
        Config {
            database_url: "redacted".to_owned(),
            database_max_connections: self.database_max_connections,
            supabase_url: self.supabase_url.clone(),
            supabase_anon_key: "redacted".to_owned(),
            supabase_service_role_key: "redacted".to_owned(),
            server_host: self.server_host.clone(),
            server_port: self.server_port,
            jwt_secret: "redacted".to_owned(),
            allowed_origins: self.allowed_origins.clone(),
            websocket_timeout_seconds: self.websocket_timeout_seconds,
            actix_workers: self.actix_workers,
        }
    }
}

} // verus!
