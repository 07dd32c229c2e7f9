//! A ground station posting messages to CubeSats through a shared mailbox,
//! in several ownership styles. Delivery always takes the most recently
//! posted message addressed to the recipient.

use std::rc::Rc;
use vstd::prelude::*;

verus! {

/// A satellite, identified by number.
pub struct CubeSat {
    pub id: u64,
}

/// A message addressed to one satellite.
pub struct Message {
    pub to: u64,
    pub content: String,
}

impl Clone for Message {
    fn clone(&self) -> (r: Self)
        ensures
            r == *self,
    {
        Message { to: self.to, content: self.content.clone() }
    }
}

/// The mailbox that stores pending messages in posting order.
pub struct Mailbox {
    pub messages: Vec<Message>,
}

/// Whether some pending message is addressed to `id`.
pub open spec fn has_msg_for(s: Seq<Message>, id: u64) -> bool {
    exists|i: int| 0 <= i < s.len() && s[i].to == id
}

/// The position of the most recently posted message addressed to `id`,
/// or `-1` when there is none.
pub open spec fn last_index_for(s: Seq<Message>, id: u64) -> int
    decreases s.len(),
{
    if s.len() == 0 {
        -1
    } else if s.last().to == id {
        s.len() - 1
    } else {
        last_index_for(s.drop_last(), id)
    }
}

/// How many pending messages are addressed to `id`.
pub open spec fn count_for(s: Seq<Message>, id: u64) -> int
    decreases s.len(),
{
    if s.len() == 0 {
        0
    } else {
        count_for(s.drop_last(), id) + (if s.last().to == id {
            1int
        } else {
            0int
        })
    }
}

proof fn lemma_last_index_found(s: Seq<Message>, id: u64, j: int)
    requires
        0 <= j < s.len(),
        s[j].to == id,
        forall|k: int| j < k < s.len() ==> s[k].to != id,
    ensures
        last_index_for(s, id) == j,
    decreases s.len(),
{
    if j == s.len() - 1 {
    } else {
        assert(s.last().to != id);
        let d = s.drop_last();
        assert(forall|k: int| j < k < d.len() ==> d[k].to != id);
        lemma_last_index_found(d, id, j);
    }
}

proof fn lemma_no_index(s: Seq<Message>, id: u64)
    requires
        forall|k: int| 0 <= k < s.len() ==> s[k].to != id,
    ensures
        last_index_for(s, id) == -1,
        !has_msg_for(s, id),
    decreases s.len(),
{
    if s.len() > 0 {
        let d = s.drop_last();
        assert(forall|k: int| 0 <= k < d.len() ==> d[k].to != id);
        lemma_no_index(d, id);
    }
}

impl Clone for Mailbox {
    fn clone(&self) -> (r: Self)
        ensures
            r.messages@ == self.messages@,
    {
        let mut out: Vec<Message> = Vec::new();
        let mut i: usize = 0;
        while i < self.messages.len()
            invariant
                0 <= i <= self.messages@.len(),
                out@ =~= self.messages@.subrange(0, i as int),
            decreases self.messages@.len() - i,
        {
            out.push(self.messages[i].clone());
            i += 1;
        }
        proof {
            assert(self.messages@.subrange(0, self.messages@.len() as int) =~= self.messages@);
        }
        Mailbox { messages: out }
    }
}

impl Mailbox {
    /// Appends a message at the end.
    pub fn post(&mut self, msg: Message)
        ensures
            final(self).messages@ == old(self).messages@.push(msg),
    {
        self.messages.push(msg);
    }

    /// Removes and returns the most recently posted message addressed to
    /// the recipient, or returns `None` and leaves the mailbox unchanged.
    pub fn deliver(&mut self, recipient: &CubeSat) -> (r: Option<Message>)
        ensures
            match r {
                Some(m) => {
                    &&& has_msg_for(old(self).messages@, recipient.id)
                    &&& m == old(self).messages@[last_index_for(
                        old(self).messages@,
                        recipient.id,
                    )]
                    &&& m.to == recipient.id
                    &&& final(self).messages@ == old(self).messages@.remove(
                        last_index_for(old(self).messages@, recipient.id),
                    )
                },
                None => {
                    &&& !has_msg_for(old(self).messages@, recipient.id)
                    &&& *final(self) == *old(self)
                },
            },
    {
        let mut i = self.messages.len();
        while i > 0
            invariant
                0 <= i <= self.messages@.len(),
                *self == *old(self),
                forall|k: int| i <= k < self.messages@.len() ==> self.messages@[k].to != recipient.id,
            decreases i,
        {
            i -= 1;
            if self.messages[i].to == recipient.id {
                proof {
                    lemma_last_index_found(self.messages@, recipient.id, i as int);
                }
                return Some(self.messages.remove(i));
            }
        }
        proof {
            lemma_no_index(self.messages@, recipient.id);
        }
        None
    }
}

/// The station that connects to satellites and posts their messages.
pub struct GroundStation;

impl GroundStation {
    pub fn connect(&self, sat_id: u64) -> (r: CubeSat)
        ensures
            r.id == sat_id,
    {
        CubeSat { id: sat_id }
    }

    /// Posts through a mutable borrow of the mailbox.
    pub fn send_with_reference(&self, mailbox: &mut Mailbox, msg: Message)
        ensures
            final(mailbox).messages@ == old(mailbox).messages@.push(msg),
    {
        mailbox.post(msg);
    }

    /// Posts into a copy of the mailbox and returns the copy; the source
    /// mailbox is consumed unchanged.
    pub fn send_with_clone(&self, mailbox: Mailbox, msg: Message) -> (r: Mailbox)
        ensures
            r.messages@ == mailbox.messages@.push(msg),
    {
        let mut mailbox_clone = mailbox.clone();
        mailbox_clone.post(msg);
        mailbox_clone
    }

    /// Takes ownership of the mailbox, posts, and hands it back.
    pub fn send_with_refactor(&self, mailbox: Mailbox, msg: Message) -> (r: Mailbox)
        ensures
            r.messages@ == mailbox.messages@.push(msg),
    {
        let mut mailbox = mailbox;
        mailbox.post(msg);
        mailbox
    }

    /// Posts into a private copy taken out of the shared handle. The copy is
    /// dropped at once, so a shared, immutable mailbox is never changed:
    /// the demonstration is exactly that nothing observable happens.
    pub fn send_with_rc(&self, mailbox: Rc<Mailbox>, msg: Message) {
        let mut mailbox_clone = (*mailbox).clone();
        mailbox_clone.post(msg);
    }
}

impl CubeSat {
    /// Receives this satellite's most recently posted message, if any.
    pub fn recv(&self, mailbox: &mut Mailbox) -> (r: Option<Message>)
        ensures
            match r {
                Some(m) => {
                    &&& has_msg_for(old(mailbox).messages@, self.id)
                    &&& m == old(mailbox).messages@[last_index_for(old(mailbox).messages@, self.id)]
                    &&& m.to == self.id
                    &&& final(mailbox).messages@ == old(mailbox).messages@.remove(
                        last_index_for(old(mailbox).messages@, self.id),
                    )
                },
                None => {
                    &&& !has_msg_for(old(mailbox).messages@, self.id)
                    &&& *final(mailbox) == *old(mailbox)
                },
            },
    {
        mailbox.deliver(self)
    }

    /// How many pending messages are addressed to this satellite.
    pub fn pending_count(&self, mailbox: &Mailbox) -> (r: usize)
        ensures
            r == count_for(mailbox.messages@, self.id),
    {
        let mut c: usize = 0;
        let mut i: usize = 0;
        while i < mailbox.messages.len()
            invariant
                0 <= i <= mailbox.messages@.len(),
                c == count_for(mailbox.messages@.subrange(0, i as int), self.id),
                c <= i,
            decreases mailbox.messages@.len() - i,
        {
            let ghost prefix = mailbox.messages@.subrange(0, i as int);
            proof {
                assert(mailbox.messages@.subrange(0, i + 1).drop_last() =~= prefix);
                assert(mailbox.messages@.subrange(0, i + 1).last() == mailbox.messages@[i as int]);
            }
            if mailbox.messages[i].to == self.id {
                c += 1;
            }
            i += 1;
        }
        proof {
            assert(mailbox.messages@.subrange(0, mailbox.messages@.len() as int)
                =~= mailbox.messages@);
        }
        c
    }
}

/// The satellite fleet used by the simulation.
pub fn fetch_sat_ids() -> (r: Vec<u64>)
    ensures
        r@ == seq![1u64, 2u64, 3u64],
{
    let mut v: Vec<u64> = Vec::new();
    v.push(1);
    v.push(2);
    v.push(3);
    proof {
        assert(v@ =~= seq![1u64, 2u64, 3u64]);
    }
    v
}

} // verus!
