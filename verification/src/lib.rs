pub mod config;
pub mod engine;
pub mod logging;
pub mod mail_log;
pub mod net;
pub mod proto;
pub mod server;
pub mod spf;
pub mod srs;
pub mod text;
pub mod whitelist;
