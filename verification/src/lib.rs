//! Decision logic of a client-side network redirector.

pub mod addr;
pub mod calls;
pub mod config;
pub mod connect;
pub mod diagnostics;
pub mod encoding;
pub mod hello;
pub mod host;
pub mod modules;
pub mod network;
pub mod relay;
pub mod route;
pub mod startup;
pub mod text;
pub mod tls;
pub mod util;
