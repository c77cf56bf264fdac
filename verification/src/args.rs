//! The server's settings.
use vstd::prelude::*;

verus! {

/// Settings of a static HTTP/HTTPS file server.
#[derive(Debug, Clone)]
pub struct Args {
    /// Root directory to serve files from.
    pub root: String,
    /// Port to listen on.
    pub port: u16,
    /// Address to bind to.
    pub address: String,
    /// Disable directory listing when no index.html is found.
    pub no_dir_listing: bool,
    /// Always produce a dir listing even if index.html is found.
    pub no_index: bool,
    /// Cache-Control max-age in seconds (0 disables caching).
    pub cache: u64,
    /// Silences per-request log lines.
    pub silent: bool,
    /// Silences all non-error output.
    pub quiet: bool,
    /// Enable TLS. If true, the key and cert files are given.
    pub tls: bool,
    /// Key PEM file for TLS.
    pub key: Option<String>,
    /// Cert PEM file for TLS.
    pub cert: Option<String>,
    /// Redirect HTTP to HTTPS when using TLS.
    pub https: bool,
}

impl Args {
    /// Whether a line is logged for each request: neither quiet nor silent.
    pub fn logs_requests(&self) -> (r: bool)
        ensures
            r == (!self.quiet && !self.silent),
    {
        !self.quiet && !self.silent
    }
}

} // verus!
