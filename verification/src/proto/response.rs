use vstd::prelude::*;

use crate::text::append_str;

verus! {

/// The Postfix policy delegation response action.
///
/// See the `action_...` grammar in
/// <https://www.postfix.org/SMTPD_POLICY_README.html#protocol>.
#[derive(Debug, Clone, PartialEq, Eq)]
pub enum Action {
    /// No opinion; let the remaining `smtpd_recipient_restrictions` decide.
    Dunno,
    /// Accept, but prepend this header (e.g. `Received-SPF: ...`) to the message.
    Prepend(String),
    /// Reject with an explicit SMTP reply, e.g. `"550 5.7.1 SPF check failed"`.
    Reject(String),
    /// Defer for now, but only if the mail would otherwise be accepted later.
    DeferIfPermit(String),
}

/// An [`Action`] with its texts as character sequences.
pub enum ActionView {
    Dunno,
    Prepend(Seq<char>),
    Reject(Seq<char>),
    DeferIfPermit(Seq<char>),
}

impl View for Action {
    type V = ActionView;

    open spec fn view(&self) -> ActionView {
        match self {
            Action::Dunno => ActionView::Dunno,
            Action::Prepend(h) => ActionView::Prepend(h@),
            Action::Reject(r) => ActionView::Reject(r@),
            Action::DeferIfPermit(r) => ActionView::DeferIfPermit(r@),
        }
    }
}

/// The response line of an action, without the terminator.
pub open spec fn action_text(a: ActionView) -> Seq<char> {
    match a {
        ActionView::Dunno => "action=dunno"@,
        ActionView::Prepend(h) => "action=PREPEND "@ + h,
        ActionView::Reject(r) => "action="@ + r,
        ActionView::DeferIfPermit(r) => "action=defer_if_permit "@ + r,
    }
}

/// The full wire response: the response line and a blank line.
pub open spec fn wire_text(a: ActionView) -> Seq<char> {
    action_text(a) + "\n\n"@
}

impl Action {
    /// The response line, e.g. `action=dunno`.
    pub fn to_string(&self) -> (r: String)
        ensures
            r@ == action_text(self@),
    {
        match self {
            Action::Dunno => String::from_str("action=dunno"),
            Action::Prepend(h) => {
                let mut out = String::from_str("action=PREPEND ");
                append_str(&mut out, h.as_str());
                out
            },
            Action::Reject(reason) => {
                let mut out = String::from_str("action=");
                append_str(&mut out, reason.as_str());
                out
            },
            Action::DeferIfPermit(reason) => {
                let mut out = String::from_str("action=defer_if_permit ");
                append_str(&mut out, reason.as_str());
                out
            },
        }
    }

    /// Render the full wire response, including the blank-line terminator.
    pub fn to_wire(&self) -> (r: String)
        ensures
            r@ == wire_text(self@),
    {
        let mut out = self.to_string();
        append_str(&mut out, "\n\n");
        out
    }
}

} // verus!
