//! In-memory mailer for testing: stores every sent message for inspection.
use vstd::prelude::*;
use crate::error::MailError;
use crate::message::{Message, same_message};
use crate::text::str_eq;

verus! {

/// In-memory mailer for testing.
pub struct MemoryMailer {
    sent: Vec<Message>,
}

/// Whether two message lists agree element by element.
pub open spec fn same_messages(a: Seq<Message>, b: Seq<Message>) -> bool {
    a.len() == b.len() && forall|i: int| 0 <= i < a.len() ==> same_message(#[trigger] a[i], b[i])
}

/// Whether some message in `msgs` lists `email` among its To addresses.
pub open spec fn sent_to(msgs: Seq<Message>, email: Seq<char>) -> bool {
    exists|i: int, j: int|
        0 <= i < msgs.len() && 0 <= j < msgs[i].to@.len() && (#[trigger] msgs[i].to@[j]).email@
            == email
}

/// Whether some message in `msgs` has exactly the subject `subject`.
pub open spec fn sent_with_subject(msgs: Seq<Message>, subject: Seq<char>) -> bool {
    exists|i: int| 0 <= i < msgs.len() && (#[trigger] msgs[i]).subject@ == subject
}

impl View for MemoryMailer {
    type V = Seq<Message>;

    closed spec fn view(&self) -> Seq<Message> {
        self.sent@
    }
}

impl MemoryMailer {
    /// Create new memory mailer with no sent messages.
    pub fn new() -> (m: Self)
        ensures
            m@.len() == 0,
    {
        MemoryMailer { sent: Vec::new() }
    }

    /// Record a message as sent; always succeeds.
    pub fn send(&mut self, message: &Message) -> (r: Result<(), MailError>)
        ensures
            r is Ok,
            final(self)@.len() == old(self)@.len() + 1,
            final(self)@.take(old(self)@.len() as int) == old(self)@,
            same_message(final(self)@.last(), *message),
    {
        let ghost before = self@;
        self.sent.push(message.duplicate());
        proof {
            assert(self@.take(before.len() as int) =~= before);
        }
        Ok(())
    }

    /// Get copies of all sent messages, oldest first.
    pub fn sent_messages(&self) -> (v: Vec<Message>)
        ensures
            same_messages(v@, self@),
    {
        let mut v: Vec<Message> = Vec::new();
        let mut i: usize = 0;
        while i < self.sent.len()
            invariant
                i <= self.sent@.len(),
                v@.len() == i,
                forall|j: int| 0 <= j < i ==> same_message(#[trigger] v@[j], self.sent@[j]),
            decreases self.sent.len() - i,
        {
            v.push(self.sent[i].duplicate());
            i = i + 1;
        }
        v
    }

    /// Get number of sent messages.
    pub fn sent_count(&self) -> (n: usize)
        ensures
            n == self@.len(),
    {
        self.sent.len()
    }

    /// Clear all sent messages.
    pub fn clear(&mut self)
        ensures
            final(self)@.len() == 0,
    {
        self.sent.clear();
    }

    /// Check if any message was sent to the given email.
    pub fn was_sent_to(&self, email: &str) -> (b: bool)
        ensures
            b == sent_to(self@, email@),
    {
        let mut i: usize = 0;
        while i < self.sent.len()
            invariant
                i <= self.sent@.len(),
                forall|a: int, j: int|
                    0 <= a < i && 0 <= j < self.sent@[a].to@.len() ==> (#[trigger] self.sent@[a].to@[j]).email@
                        != email@,
            decreases self.sent.len() - i,
        {
            let msg = &self.sent[i];
            let mut k: usize = 0;
            while k < msg.to.len()
                invariant
                    i < self.sent@.len(),
                    *msg == self.sent@[i as int],
                    k <= msg.to@.len(),
                    forall|j: int| 0 <= j < k ==> (#[trigger] msg.to@[j]).email@ != email@,
                decreases msg.to.len() - k,
            {
                if str_eq(msg.to[k].email.as_str(), email) {
                    proof {
                        assert(self.sent@[i as int].to@[k as int].email@ == email@);
                    }
                    return true;
                }
                k = k + 1;
            }
            i = i + 1;
        }
        false
    }

    /// Check if any message was sent with the given subject.
    pub fn was_sent_with_subject(&self, subject: &str) -> (b: bool)
        ensures
            b == sent_with_subject(self@, subject@),
    {
        let mut i: usize = 0;
        while i < self.sent.len()
            invariant
                i <= self.sent@.len(),
                forall|a: int| 0 <= a < i ==> (#[trigger] self.sent@[a]).subject@ != subject@,
            decreases self.sent.len() - i,
        {
            if str_eq(self.sent[i].subject.as_str(), subject) {
                proof {
                    assert(self.sent@[i as int].subject@ == subject@);
                }
                return true;
            }
            i = i + 1;
        }
        false
    }

    /// Get a copy of the last sent message.
    pub fn last_message(&self) -> (m: Option<Message>)
        ensures
            match m {
                Some(msg) => self@.len() > 0 && same_message(msg, self@.last()),
                None => self@.len() == 0,
            },
    {
        if self.sent.len() == 0 {
            None
        } else {
            Some(self.sent[self.sent.len() - 1].duplicate())
        }
    }
}

impl Default for MemoryMailer {
    fn default() -> (m: Self)
        ensures
            m@.len() == 0,
    {
        Self::new()
    }
}

/// A message sent through a memory mailer is reported as sent to each of its
/// To addresses and with its subject, and earlier records stay.
pub proof fn lemma_send_is_recorded(before: Seq<Message>, after: Seq<Message>, message: Message, j: int)
    requires
        after.len() == before.len() + 1,
        after.take(before.len() as int) == before,
        same_message(after.last(), message),
        0 <= j < message.to@.len(),
    ensures
        sent_to(after, message.to@[j].email@),
        sent_with_subject(after, message.subject@),
        forall|e: Seq<char>| sent_to(before, e) ==> sent_to(after, e),
{
    let last = before.len() as int;
    assert(after[last] == after.last());
    assert(after[last].to@[j].email@ == message.to@[j].email@);
    assert(after[last].subject@ == message.subject@);
    assert forall|e: Seq<char>| sent_to(before, e) implies sent_to(after, e) by {
        let (a, k) = choose|a: int, k: int|
            0 <= a < before.len() && 0 <= k < before[a].to@.len() && (#[trigger] before[a].to@[k]).email@ == e;
        assert(after[a] == after.take(before.len() as int)[a]);
        assert(after[a].to@[k].email@ == e);
    }
}

} // verus!
