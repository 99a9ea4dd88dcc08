//! Application configuration: which storage backend to run, where to bind
//! the RPC endpoint, and how many workers and threads to start.

use vstd::prelude::*;
use vstd::string::StringSliceAdditionalSpecFns;

use crate::values::bytes_eq;

verus! {

/// The bytes of the storage name selecting the in-memory backend:
/// "inmemory".
pub open spec fn inmemory_bytes() -> Seq<u8> {
    seq![0x69u8, 0x6eu8, 0x6du8, 0x65u8, 0x6du8, 0x6fu8, 0x72u8, 0x79u8]
}

/// The bytes of the scheme selecting the relational backend:
/// "postgres://".
pub open spec fn postgres_prefix() -> Seq<u8> {
    seq![0x70u8, 0x6fu8, 0x73u8, 0x74u8, 0x67u8, 0x72u8, 0x65u8, 0x73u8, 0x3au8, 0x2fu8, 0x2fu8]
}

/// Whether the bytes select the relational backend: they begin with
/// "postgres://".
pub open spec fn is_postgres_url(s: Seq<u8>) -> bool {
    s.len() >= 11 && s.subrange(0, 11) == postgres_prefix()
}

/// A configuration error: fatal at startup.
#[derive(Clone, Copy, Debug, PartialEq, Eq, Structural)]
pub enum ConfigError {
    /// The storage name is neither "inmemory" nor a "postgres://" URL.
    UnknownStorage,
}

/// Which storage backend to run.
#[derive(Clone, Debug)]
pub enum StorageConfig {
    /// The in-memory storage.
    InMemory,
    /// The relational storage behind the given URL.
    Postgres {
        /// Connection URL, "postgres://" included.
        url: String,
    },
}

impl StorageConfig {
    /// Parses a storage name: "inmemory" selects the in-memory backend, a
    /// "postgres://" URL the relational one, and anything else is an
    /// error.
    pub fn from_str(s: &str) -> (r: Result<StorageConfig, ConfigError>)
        ensures
            r matches Ok(StorageConfig::InMemory) <==> s.spec_bytes() == inmemory_bytes(),
            (r matches Ok(StorageConfig::Postgres { url }) && url@ == s@) <==> (s.spec_bytes()
                != inmemory_bytes() && is_postgres_url(s.spec_bytes())),
            r is Err <==> (s.spec_bytes() != inmemory_bytes() && !is_postgres_url(
                s.spec_bytes(),
            )),
            r matches Err(e) ==> e == ConfigError::UnknownStorage,
    {
        let bytes: &[u8] = s.as_bytes();
        let inmemory: [u8; 8] = [0x69, 0x6e, 0x6d, 0x65, 0x6d, 0x6f, 0x72, 0x79];
        proof {
            assert(inmemory@ =~= inmemory_bytes());
        }
        if bytes_eq(bytes, inmemory.as_slice()) {
            return Ok(StorageConfig::InMemory);
        }
        let prefix: [u8; 11] = [
            0x70,
            0x6f,
            0x73,
            0x74,
            0x67,
            0x72,
            0x65,
            0x73,
            0x3a,
            0x2f,
            0x2f,
        ];
        proof {
            assert(prefix@ =~= postgres_prefix());
        }
        if bytes.len() >= 11 {
            let head: &[u8] = &bytes[0..11];
            if bytes_eq(head, prefix.as_slice()) {
                let url = s.to_owned();
                return Ok(StorageConfig::Postgres { url });
            }
        }
        Err(ConfigError::UnknownStorage)
    }
}

/// Application configuration entry-point, as plain values; reading flags
/// or the environment is the embedding program's business.
#[derive(Clone, Debug)]
pub struct Config {
    /// Storage implementation.
    pub storage: StorageConfig,
    /// RPC binding address, as given.
    pub address: String,
    /// Number of EVM instances to run; at least one.
    pub num_evms: usize,
    /// Number of threads for global asynchronous tasks.
    pub num_async_threads: usize,
    /// Number of threads for global blocking tasks.
    pub num_blocking_threads: usize,
}

impl Config {
    /// The default configuration: in-memory storage, the default binding
    /// address, one EVM, one thread of each kind.
    pub fn defaults() -> (r: Config)
        ensures
            r.storage is InMemory,
            r.num_evms == 1,
            r.num_async_threads == 1,
            r.num_blocking_threads == 1,
    {
        Config {
            storage: StorageConfig::InMemory,
            address: default_rpc_address(),
            num_evms: 1,
            num_async_threads: 1,
            num_blocking_threads: 1,
        }
    }

    /// Whether the configuration can be run: every count is at least one.
    pub fn is_valid(&self) -> (r: bool)
        ensures
            r == (self.num_evms >= 1 && self.num_async_threads >= 1 && self.num_blocking_threads
                >= 1),
    {
        self.num_evms >= 1 && self.num_async_threads >= 1 && self.num_blocking_threads >= 1
    }
}

/// The default RPC binding address.
pub fn default_rpc_address() -> (r: String)
    ensures
        r@ == "0.0.0.0:3000"@,
{
    let r = String::from_str("0.0.0.0:3000");
    r
}

} // verus!
