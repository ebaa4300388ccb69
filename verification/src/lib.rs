//! Core logic of an intercepting TCP proxy: bounded traffic histories, the
//! decisions of the raw and HTTP flow engines, hook result handling and the
//! synthesis of TCP conversations for packet captures.

pub mod clock;
pub mod config;
pub mod dumper;
pub mod edit;
pub mod engine;
pub mod filter;
pub mod flow;
pub mod history;
pub mod http;
pub mod iter;
pub mod proxy;
pub mod service;
pub mod stream;
pub mod text;
pub mod uri;
pub mod wire;
