//! The configuration of the monitor.

use vstd::prelude::*;

verus! {

/// The structure of the configuration file.
#[derive(Clone, Debug)]
pub struct Config {
    pub amqp_server_address: String,
    pub prometheus_listen_address: String,
    pub submarine_http_endpoint: String,
    pub update_history_count: u32,
    pub http_server_listen_address: String,
}

impl Default for Config {
    fn default() -> (r: Self)
        ensures
            r.amqp_server_address@ == "amqp://127.0.0.1:5672/%2f"@,
            r.prometheus_listen_address@ == "0.0.0.0:6879"@,
            r.submarine_http_endpoint@ == "http://127.0.0.1:3069"@,
            r.update_history_count == 1000,
            r.http_server_listen_address@ == "0.0.0.0:4350"@,
    {
        Config {
            amqp_server_address: "amqp://127.0.0.1:5672/%2f".to_owned(),
            prometheus_listen_address: "0.0.0.0:6879".to_owned(),
            submarine_http_endpoint: "http://127.0.0.1:3069".to_owned(),
            update_history_count: 1000,
            http_server_listen_address: "0.0.0.0:4350".to_owned(),
        }
    }
}

} // verus!
