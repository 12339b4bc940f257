use vstd::prelude::*;

verus! {

/// Settings of the proxy.
#[derive(Clone, Debug)]
pub struct Config {
    pub listen_addr: String,
    pub max_connections: usize,
    pub blocked_domains_file: String,
    pub log_file: String,
    pub request_timeout_secs: u64,
}

impl Default for Config {
    /// Listens on `127.0.0.1:8888` for up to 100 connections, reads its block list
    /// from `config/blocked_domains.txt`, logs to `logs/proxy.log`, and gives each
    /// read and connect 30 seconds.
    fn default() -> (r: Config)
        ensures
            r.listen_addr@ == "127.0.0.1:8888"@,
            r.max_connections == 100,
            r.blocked_domains_file@ == "config/blocked_domains.txt"@,
            r.log_file@ == "logs/proxy.log"@,
            r.request_timeout_secs == 30,
    {
        Config {
            listen_addr: "127.0.0.1:8888".to_string(),
            max_connections: 100,
            blocked_domains_file: "config/blocked_domains.txt".to_string(),
            log_file: "logs/proxy.log".to_string(),
            request_timeout_secs: 30,
        }
    }
}

} // verus!
