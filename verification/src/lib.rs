//! Peer directory, liveness monitoring and connection multiplexing for
//! serverless chat between processes on a local network.

pub mod config;
pub mod networking;
pub mod peer;
pub mod sys;
pub mod text;
pub mod utils;
pub mod ws;
