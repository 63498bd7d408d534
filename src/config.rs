use vstd::prelude::*;

verus! {

/// Address and port that the HTTP surface binds to.
#[derive(Debug, Clone, PartialEq, Eq)]
pub struct Config {
    pub http_address: String,
    pub http_port: u16,
}

/// Port that the HTTP surface listens on unless told otherwise.
pub const DEFAULT_HTTP_PORT: u16 = 5005;

impl Config {
    /// The default binding, `127.0.0.1:5005`.
    pub fn new() -> (r: Config)
        ensures
            r.http_address@ == "127.0.0.1"@,
            r.http_port == DEFAULT_HTTP_PORT,
    {
        Config { http_address: String::from_str("127.0.0.1"), http_port: DEFAULT_HTTP_PORT }
    }
}

impl Default for Config {
    fn default() -> (r: Config)
        ensures
            r.http_address@ == "127.0.0.1"@,
            r.http_port == DEFAULT_HTTP_PORT,
    {
        Config::new()
    }
}

} // verus!
