//! What an HTTP mail provider's answer means for a send.
use vstd::prelude::*;
use crate::error::MailError;
use crate::text::{copy_str, push_str};

verus! {

/// The failure text for a provider that answered with a non-success status.
pub open spec fn api_error_text(provider: Seq<char>, status: Seq<char>, body: Seq<char>) -> Seq<char> {
    provider + " API error ("@ + status + "): "@ + body
}

/// The outcome of a provider request: success when the status is a success
/// status, else `SendFailed` naming the provider, the status and the answer.
pub fn api_outcome(provider: &str, success: bool, status: &str, body: &str) -> (r: Result<(), MailError>)
    ensures
        success <==> r is Ok,
        match r {
            Err(MailError::SendFailed(m)) => m@ == api_error_text(provider@, status@, body@),
            Err(_) => false,
            Ok(_) => true,
        },
{
    if success {
        Ok(())
    } else {
        let mut m = copy_str(provider);
        push_str(&mut m, " API error (");
        push_str(&mut m, status);
        push_str(&mut m, "): ");
        push_str(&mut m, body);
        Err(MailError::SendFailed(m))
    }
}

} // verus!
