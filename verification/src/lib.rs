//! Verified core of the edge runtime: the decisions that the server, the
//! worker pool and the per-isolate supervisors make, written as functions
//! from plain values to plain values with contracts that Verus checks.
pub mod units;
pub mod policy;
pub mod assoc;
pub mod registry;
pub mod pool;
pub mod pool_laws;
pub mod supervisor;
pub mod supervisor_laws;
pub mod timeout;
pub mod user_agent;
pub mod runtime;
pub mod server;
pub mod json;
pub mod worker;
pub mod tls;
pub mod ca_store;
pub mod upgrade;
pub mod paths;
pub mod urls;
pub mod inspector;
pub mod import_map;
pub mod env_vars;
