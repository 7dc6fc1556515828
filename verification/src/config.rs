//! Scan policy.

use vstd::prelude::*;

verus! {

/// Immutable policy for one scan.
#[derive(Debug, Clone, Copy)]
pub struct AppConfig {
    /// Files larger than this many bytes are never read for counting.
    pub max_file_size: u64,
    /// Files up to this many bytes are read whole; larger ones are mapped.
    pub small_file_size: u64,
    /// How many levels below the scan root are reported; the root is level 0.
    pub max_depth: usize,
    /// Whether files may be counted concurrently.
    pub enable_parallel_processing: bool,
    /// Whether files are counted at all.
    pub enable_token_counting: bool,
}

impl AppConfig {
    /// The policy used when the caller overrides nothing: 10 MiB size limit,
    /// 8 KiB small-file threshold, ten levels, counting on and concurrent.
    pub open spec fn standard() -> AppConfig {
        AppConfig {
            max_file_size: 10485760,
            small_file_size: 8192,
            max_depth: 10,
            enable_parallel_processing: true,
            enable_token_counting: true,
        }
    }
}

impl Default for AppConfig {
    fn default() -> (config: AppConfig)
        ensures
            config == AppConfig::standard(),
    {
        AppConfig {
            max_file_size: 10 * 1024 * 1024,
            small_file_size: 8 * 1024,
            max_depth: 10,
            enable_parallel_processing: true,
            enable_token_counting: true,
        }
    }
}

} // verus!
