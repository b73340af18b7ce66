//! The contact-form message and its validation rule.

use vstd::prelude::*;

verus! {

/// A contact-form submission: the sender's address and the message.
pub struct ContactRequest {
    pub email: String,
    pub message: String,
}

impl ContactRequest {
    /// The acceptance rule: both the address and the message must be
    /// non-empty.
    pub fn is_valid(&self) -> (r: bool)
        ensures
            r == (self.email@.len() > 0 && self.message@.len() > 0),
    {
        !self.email.as_str().is_empty() && !self.message.as_str().is_empty()
    }
}

} // verus!
