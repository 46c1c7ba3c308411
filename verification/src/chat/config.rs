//! The settings of the high-throughput chat server.
use vstd::prelude::*;
use vstd::string::StringExecFns;

verus! {

/// How the high-throughput server is set up. Durations are in seconds.
#[derive(Debug, Clone)]
pub struct ServerConfig {
    pub bind_addr: String,
    pub num_workers: usize,
    pub max_connections: usize,
    pub connection_timeout_secs: u64,
    pub heartbeat_interval_secs: u64,
    pub max_message_size: usize,
    pub broadcast_channel_size: usize,
    pub enable_so_reuseport: bool,
    pub enable_cpu_pinning: bool,
}

/// `num_cpus::get`: the number of CPUs the process may use. It depends on
/// the machine; its documentation promises at least one, and no more is stated.
#[verifier::external_body]
fn worker_count() -> (r: usize)
    ensures
        r >= 1,
{
    num_cpus::get()
}

impl ServerConfig {
    /// The standard settings with a number of workers: on every address at
    /// port 8080, a million connections, a five-minute timeout, a heartbeat
    /// each thirty seconds, messages of up to 64 KiB, a broadcast channel
    /// of ten thousand messages; port sharing and CPU pinning on Unix only.
    pub fn with_workers(num_workers: usize, unix: bool) -> (r: ServerConfig)
        ensures
            r.bind_addr@ == "0.0.0.0:8080"@,
            r.num_workers == num_workers,
            r.max_connections == 1_000_000,
            r.connection_timeout_secs == 300,
            r.heartbeat_interval_secs == 30,
            r.max_message_size == 64 * 1024,
            r.broadcast_channel_size == 10_000,
            r.enable_so_reuseport == unix,
            r.enable_cpu_pinning == unix,
    {
        ServerConfig {
            bind_addr: String::from_str("0.0.0.0:8080"),
            num_workers,
            max_connections: 1_000_000,
            connection_timeout_secs: 300,
            heartbeat_interval_secs: 30,
            max_message_size: 64 * 1024,
            broadcast_channel_size: 10_000,
            enable_so_reuseport: unix,
            enable_cpu_pinning: unix,
        }
    }

    /// The standard settings, one worker per CPU this process may use.
    pub fn for_platform(unix: bool) -> (r: ServerConfig)
        ensures
            r.bind_addr@ == "0.0.0.0:8080"@,
            r.max_connections == 1_000_000,
            r.connection_timeout_secs == 300,
            r.heartbeat_interval_secs == 30,
            r.max_message_size == 64 * 1024,
            r.broadcast_channel_size == 10_000,
            r.enable_so_reuseport == unix,
            r.enable_cpu_pinning == unix,
            r.num_workers >= 1,
    {
        Self::with_workers(worker_count(), unix)
    }
}

} // verus!
