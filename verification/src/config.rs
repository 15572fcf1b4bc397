//! Settings of the cache and of downloads.

use crate::text;
use vstd::prelude::*;

verus! {

/// The cache size limit in bytes where none is configured: 1 GiB.
pub const DEFAULT_CACHE_SIZE_LIMIT: u64 = 1073741824;

/// Settings of the cache and of downloads.
#[derive(Debug)]
pub struct Config {
    /// The path of the cache directory, in the platform's encoding.
    pub cache_dir: Vec<u8>,
    /// How many bytes of models the cache may hold.
    pub cache_size_limit: u64,
    /// How many times a download is attempted.
    pub http_retry_attempts: u32,
    /// How long to wait after the first failed attempt, in milliseconds.
    pub http_retry_delay_ms: u64,
    /// How long a request may take, in seconds.
    pub http_timeout_secs: u64,
}

/// The cache size limit: the configured one, or else the default.
pub fn size_limit_or_default(configured: Option<u64>) -> (r: u64)
    ensures
        r == match configured {
            Some(limit) => limit,
            None => DEFAULT_CACHE_SIZE_LIMIT,
        },
        configured is None ==> r == 1024 * 1024 * 1024,
{
    match configured {
        Some(limit) => limit,
        None => DEFAULT_CACHE_SIZE_LIMIT,
    }
}

/// The path of the directory that holds remote models.
pub fn cache_dir(config: &Config) -> (r: Vec<u8>)
    ensures
        r@ == config.cache_dir@,
{
    let r: Vec<u8> = config.cache_dir.clone();
    assert(r@ =~= config.cache_dir@);
    r
}

/// The path of the cache directory as text that can be shown.
pub fn cache_dir_text(config: &Config) -> (r: String)
    ensures
        r@ == text::utf8_lossy(config.cache_dir@),
        vstd::utf8::valid_utf8(config.cache_dir@) ==> r@ == vstd::utf8::decode_utf8(
            config.cache_dir@,
        ),
{
    text::lossy_text(config.cache_dir.as_slice())
}

/// How many bytes of models the cache may hold.
pub fn get_cache_size_limit(config: &Config) -> (r: u64)
    ensures
        r == config.cache_size_limit,
{
    config.cache_size_limit
}

} // verus!
