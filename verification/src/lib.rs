use vstd::prelude::*;

pub mod ascii;
pub mod ascii_client;
pub mod ascii_server;
pub mod client;
pub mod codec;
pub mod config;
pub mod error;
pub mod exception;
pub mod framing;
pub mod function_codes;
pub mod helpers;
pub mod metrics;
pub mod rtu;
pub mod rtu_adapter;
pub mod transport;
