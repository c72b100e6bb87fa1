//! Reconnaissance against one target domain, as a pipeline of stages:
//! subdomain discovery, a resolution filter, port probing and lightweight
//! checks of the HTTP(S) services found.
//!
//! The library holds every decision of a scan and performs no I/O: each
//! stage is handed what the network answered and returns the next stage.
pub mod action;
pub mod modules;
pub mod names;
pub mod order;
pub mod ports;
pub mod text;
