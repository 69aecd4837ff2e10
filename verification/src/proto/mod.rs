pub mod codec;
pub mod request;
pub mod response;

pub use codec::{PolicyRequestCodec, ProtoError};
pub use request::{Attributes, PolicyRequest, RequestParseError};
pub use response::{Action, ActionView};
