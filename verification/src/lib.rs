//! The logic of a tunnel that makes services behind a NAT reachable through a
//! server: the command line, the configuration, the control interface on both of
//! its sides, and the routing of HTTP requests by domain.
//!
//! Verus proves the contracts of the functions here, and takes on trust those of
//! the few that only call another crate. What reads and writes sockets and files
//! stands outside and calls in here.

pub mod api;
pub mod api_client;
pub mod api_client_laws;
pub mod api_laws;
pub mod cli;
pub mod config;
pub mod config_file;
pub mod config_file_laws;
pub mod config_laws;
pub mod headers;
pub mod http_proxy;
pub mod http_proxy_laws;
pub mod keys;
pub mod name_map;
pub mod run;
pub mod run_laws;
pub mod text;
pub mod text_laws;

pub use cli::Cli;
pub use config::Config;
