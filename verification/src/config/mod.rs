pub mod load;
pub mod model;
pub mod policy;

pub use crate::net::SocketAddress;
pub use load::ConfigError;
pub use model::{
    Config, HeaderConfig, HeaderMode, ListenAddr, ListenAddrParseError, LogConfig, LogLevel,
    MessageTemplates, PolicyConfig, RelayConfig, ServerConfig, SkipConfig, SpfConfig, SrsConfig,
    WhitelistConfig, EXAMPLE_TOML,
};
pub use policy::RejectPolicy;
