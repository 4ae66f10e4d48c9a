//! Desynchronization strategy engine of a transparent SOCKS5 proxy.

pub mod args;
pub mod config;
pub mod disoob;
pub mod disorder;
pub mod doh;
pub mod dispatch;
pub mod fake;
pub mod help;
pub mod packet;
pub mod plan;
pub mod scan;
pub mod sni;
pub mod socks;
pub mod split;
pub mod stack;
pub mod tamper;
pub mod text;
