//! Runtime options and their validation.
use vstd::prelude::*;

use crate::text::{chars_of, is_blank_spec, is_blank_text};

verus! {

/// The options the client runs with.
#[derive(Debug, Clone)]
pub struct Cli {
    /// Initial number of stories to load.
    pub count: usize,
    /// Number of stories fetched per prefetch page.
    pub page_size: usize,
    /// Items kept in the in-memory cache.
    pub cache_size: usize,
    /// Simultaneous item requests.
    pub concurrency: usize,
    /// Turns the on-disk cache off.
    pub no_file_cache: bool,
    /// Directory of the on-disk cache, if not the default one.
    pub file_cache_dir: Option<String>,
    /// Freshness window of cached items, in seconds.
    pub file_cache_ttl_secs: u64,
    /// Base URL of the item API.
    pub base_url: String,
    /// Path of the UI configuration file, if given.
    pub ui_config: Option<String>,
}

/// The option that failed validation.
#[derive(Debug, Clone, Copy, PartialEq, Eq)]
pub enum CliError {
    ZeroCount,
    ZeroPageSize,
    ZeroCacheSize,
    ZeroConcurrency,
    ZeroFileCacheTtl,
    BlankBaseUrl,
    EmptyUiConfig,
}

/// The first rule, in the order checked, that the options break.
pub open spec fn cli_check(c: Cli) -> Result<(), CliError> {
    if c.count == 0 {
        Err(CliError::ZeroCount)
    } else if c.page_size == 0 {
        Err(CliError::ZeroPageSize)
    } else if c.cache_size == 0 {
        Err(CliError::ZeroCacheSize)
    } else if c.concurrency == 0 {
        Err(CliError::ZeroConcurrency)
    } else if c.file_cache_ttl_secs == 0 {
        Err(CliError::ZeroFileCacheTtl)
    } else if is_blank_spec(c.base_url@) {
        Err(CliError::BlankBaseUrl)
    } else if c.ui_config is Some && c.ui_config.unwrap()@.len() == 0 {
        Err(CliError::EmptyUiConfig)
    } else {
        Ok(())
    }
}

impl Cli {
    /// Rejects non-positive sizes and durations, a blank base URL and an
    /// empty UI configuration path.
    pub fn validate(&self) -> (r: Result<(), CliError>)
        ensures
            r == cli_check(*self),
    {
        if self.count == 0 {
            return Err(CliError::ZeroCount);
        }
        if self.page_size == 0 {
            return Err(CliError::ZeroPageSize);
        }
        if self.cache_size == 0 {
            return Err(CliError::ZeroCacheSize);
        }
        if self.concurrency == 0 {
            return Err(CliError::ZeroConcurrency);
        }
        if self.file_cache_ttl_secs == 0 {
            return Err(CliError::ZeroFileCacheTtl);
        }
        let url = chars_of(self.base_url.as_str());
        if is_blank_text(&url) {
            return Err(CliError::BlankBaseUrl);
        }
        if let Some(path) = &self.ui_config {
            if path.as_str().is_empty() {
                return Err(CliError::EmptyUiConfig);
            }
        }
        Ok(())
    }
}

/// Where the disk cache lives and how long its items stay fresh.
#[derive(Debug, Clone)]
pub struct DiskCacheConfig {
    pub dir: String,
    pub ttl_secs: u64,
}

} // verus!
