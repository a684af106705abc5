//! ARP: shared protocol, configuration, authentication and routing logic of
//! a reverse proxy, with its contracts proved by Verus.
pub mod text;
pub mod outside;
pub mod error;
pub mod netaddr;
pub mod config;
pub mod protocol;
pub mod auth;
pub mod vhost;
pub mod resource;
pub mod metrics;
pub mod crypto;
pub mod transport;
pub mod base64;
pub mod client_admin;
pub mod proxy_registry;
pub mod proxy_table;
pub mod control;
pub mod nathole;
pub mod web;
pub mod client_control;
pub mod server_session;
pub mod routes;
pub mod backends;
pub mod tunnel;
pub mod proxy_setup;
pub mod client_proxy;
pub mod logging;
pub mod audit;

pub use error::{Error, Result};
