pub mod cidr_set;
pub mod ip;
pub mod parse;
pub mod round_trip;
pub mod socket;

pub use cidr_set::{Cidr, CidrSet};
pub use ip::IpAddress;
pub use socket::SocketAddress;
