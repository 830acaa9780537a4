//! Construction of the outbound notification client.
//!
//! The client is bound once, at startup, to a base URL, a sender identity
//! and a bearer credential, with a fixed per-call timeout. The sender
//! identity must be a syntactically valid email address — the same shape
//! required of a subscriber's email — and an invalid one makes
//! construction fail, which is fatal: the process must not start. No
//! delivery is invoked anywhere in the intake path; sending is a future
//! collaborator outside this library.
use vstd::prelude::*;
use vstd::utf8::encode_utf8;
use crate::form::{email_shape_ok, valid_email_bytes};

verus! {

/// Why the outbound client could not be constructed.
#[derive(Clone, Copy, Debug, PartialEq, Eq, Structural)]
pub enum ClientError {
    /// The sender identity is not a syntactically valid email address.
    InvalidSender,
}

/// Identity and settings of the outbound notification client.
#[derive(Clone, Debug)]
pub struct EmailClient {
    /// Base URL of the outbound API.
    pub base_url: String,
    /// Sender identity; always a syntactically valid email address.
    pub sender: String,
    /// Bearer credential for the outbound API.
    pub authorization_token: String,
    /// Per-call timeout, in milliseconds.
    pub timeout_ms: u64,
}

impl EmailClient {
    /// Invariant established at construction: the sender identity has the
    /// shape of an email address.
    pub open spec fn wf(&self) -> bool {
        valid_email_bytes(encode_utf8(self.sender@))
    }

    /// Validates the sender identity and binds the client's settings.
    /// Construction succeeds exactly when the sender is a syntactically
    /// valid email address and then carries the arguments unchanged.
    pub fn new(
        base_url: String,
        sender: String,
        authorization_token: String,
        timeout_ms: u64,
    ) -> (r: Result<EmailClient, ClientError>)
        ensures
            r is Ok <==> valid_email_bytes(encode_utf8(sender@)),
            r matches Ok(c) ==> c.wf() && c.base_url@ == base_url@ && c.sender@ == sender@
                && c.authorization_token@ == authorization_token@ && c.timeout_ms == timeout_ms,
            r is Err ==> r == Err::<EmailClient, _>(ClientError::InvalidSender),
    {
        let sender_bytes = vstd::slice::slice_to_vec(sender.as_str().as_bytes());
        if email_shape_ok(&sender_bytes) {
            Ok(EmailClient { base_url, sender, authorization_token, timeout_ms })
        } else {
            Err(ClientError::InvalidSender)
        }
    }
}

} // verus!
