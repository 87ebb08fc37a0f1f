//! Verified core of a serverless-platform benchmark driver: command-line
//! interpretation, function configuration resolution, request argument
//! preparation, latency metrics and their aggregation.
pub mod text;
pub mod strmap;
pub mod config;
pub mod cli;
pub mod modes;
pub mod metric;
pub mod call_arg;
pub mod data;
pub mod bench;
pub mod platform;
pub mod logging;
pub mod demos;
pub mod response;
