//! The failures a bind or unbind request can report.

use vstd::prelude::*;

verus! {

/// Why a bind or unbind request failed. The message is surfaced
/// verbatim at the command boundary; the variant keeps the kind
/// distinguishable for callers that want more than a string.
#[derive(Debug)]
pub enum ShortcutError {
    /// The shortcut descriptor did not parse; carries the parser's message.
    Parse(String),
    /// The registration was refused; carries the refusal's message.
    Registration(String),
    /// The removal was refused; carries the refusal's message.
    Unregistration(String),
}

impl ShortcutError {
    /// The human-readable message this failure carries.
    pub open spec fn spec_message(self) -> Seq<char> {
        match self {
            ShortcutError::Parse(m) => m@,
            ShortcutError::Registration(m) => m@,
            ShortcutError::Unregistration(m) => m@,
        }
    }

    /// Returns the carried message, for display at the command boundary.
    pub fn message(&self) -> (r: &str)
        ensures
            r@ == self.spec_message(),
    {
        match self {
            ShortcutError::Parse(m) => m.as_str(),
            ShortcutError::Registration(m) => m.as_str(),
            ShortcutError::Unregistration(m) => m.as_str(),
        }
    }
}

} // verus!
