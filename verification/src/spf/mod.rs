pub mod header;
pub mod identity;
pub mod outcome;
pub mod override_resolver;

pub use header::build_received_spf;
pub use outcome::{ErrorCause, ExplanationString, Identity, SpfOutcome, SpfResult, SpfResultCause};
pub use override_resolver::OverrideLookup;
