//! A periodic telemetry collector: it polls heterogeneous sources (chain-node
//! RPC endpoints, GraphQL dictionary services, config-map and Redis lookups)
//! for a progress counter and republishes the readings as labeled gauges.

pub mod config;
pub mod cycle;
pub mod errors;
pub mod gauge;
pub mod json;
pub mod numbers;
pub mod rpc;
pub mod schedule;
pub mod shell;
pub mod sink;
pub mod target;
pub mod text;
