//! A transparent reverse proxy, one listener per configured port.
//!
//! The crate holds the decisions of the proxy as plain functions and state
//! machines: how a configuration entry becomes a mapping, how an inbound
//! request is rewritten towards its upstream, how one listener moves through
//! its life, and how a set of listeners is supervised and shut down together.
//! Sockets, signals and the HTTP client live in the program around it.

pub mod config;
pub mod forward;
pub mod instance;
pub mod mapping;
pub mod shutdown;
pub mod supervisor;
pub mod text;
pub mod uri;
