//! Mock mailer for testing: succeeds or fails as configured.
use vstd::prelude::*;
use crate::error::MailError;
use crate::message::Message;
use crate::text::copy_str;

verus! {

/// Mock mailer that either always succeeds or always fails.
#[derive(Clone, Copy, Debug)]
pub struct MockMailer {
    should_fail: bool,
}

impl MockMailer {
    /// Whether every send fails.
    pub closed spec fn fails(&self) -> bool {
        self.should_fail
    }

    /// Create new mock mailer that succeeds.
    pub fn new() -> (m: Self)
        ensures
            !m.fails(),
    {
        MockMailer { should_fail: false }
    }

    /// Create mock mailer that always fails.
    pub fn with_failure() -> (m: Self)
        ensures
            m.fails(),
    {
        MockMailer { should_fail: true }
    }

    /// "Send" a message: fails with `SendFailed("Mock failure")` exactly when
    /// the mailer was built to fail.
    pub fn send(&self, message: &Message) -> (r: Result<(), MailError>)
        ensures
            r is Ok <==> !self.fails(),
            r matches Err(e) ==> e matches MailError::SendFailed(m) && m@ == "Mock failure"@,
    {
        if self.should_fail {
            return Err(MailError::SendFailed(copy_str("Mock failure")));
        }
        Ok(())
    }
}

impl Default for MockMailer {
    fn default() -> (m: Self)
        ensures
            !m.fails(),
    {
        Self::new()
    }
}

} // verus!
