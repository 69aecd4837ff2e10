use vstd::prelude::*;

verus! {

/// How to react to a given SPF identity's (HELO or MAIL FROM) result.
#[derive(Debug, Clone, Copy, PartialEq, Eq, Structural)]
pub enum RejectPolicy {
    /// Reject only on `Fail`.
    Fail,
    /// Reject on `Fail` or `SoftFail`.
    SoftFail,
    /// Reject on anything other than `Pass`.
    SpfNotPass,
    /// Never reject based on this identity's Fail/SoftFail/Neutral/None
    /// result. `permerror_reject`/`temperror_defer` still apply.
    Never,
    /// Like `Never`, but also suppresses `permerror_reject`/`temperror_defer`
    /// for this identity: its result can never affect the action.
    NoCheck,
}

impl Default for RejectPolicy {
    fn default() -> (r: RejectPolicy)
        ensures
            r == RejectPolicy::Fail,
    {
        RejectPolicy::Fail
    }
}

} // verus!
