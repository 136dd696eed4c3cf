//! The logic of an SSH based system proxy: host profiles, the local SOCKS5 and HTTP
//! front ends, the life of a tunnel, traffic figures and the state behind the window.

pub mod channel;
pub mod config;
pub mod flow;
pub mod fonts;
pub mod http_proxy;
pub mod keys;
pub mod macos_proxy;
pub mod pages;
pub mod proxy;
pub mod session;
pub mod socks5;
pub mod startup;
pub mod stats;
pub mod text;
pub mod tunnel;
pub mod windows_proxy;
