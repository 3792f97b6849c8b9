pub mod cert;
pub mod config;
pub mod error;
pub mod hostlist;
pub mod hosts;
pub mod http;
pub mod laws;
pub mod resolver;
pub mod snimap;
pub mod spiders;
pub mod text;
