//! The manager's side of one running skiddo: its process, its channels, and the
//! last message of the conversation with it.

use crate::message::{follow, lemma_first, lemma_follow_numbering, Message, Op};
use vstd::prelude::*;

verus! {

/// One running skiddo as the manager keeps it. `P` is the worker process, `T`
/// the channel to it and `R` the channel from it. The channels are handed out
/// only once a conversation has begun.
pub struct SkiddoInstance<P, T, R> {
    skiddo_file: String,
    proc: P,
    tx: T,
    rx: R,
    message: Option<Message>,
}

impl<P, T, R> SkiddoInstance<P, T, R> {
    /// The last message of the conversation, if one has begun.
    pub closed spec fn last_message(&self) -> Option<Message> {
        self.message
    }

    /// The skiddo file this instance runs.
    pub closed spec fn spec_skiddo_file(&self) -> Seq<char> {
        self.skiddo_file@
    }

    /// The worker process.
    pub closed spec fn spec_proc(&self) -> P {
        self.proc
    }

    /// The channel to the worker.
    pub closed spec fn spec_tx(&self) -> T {
        self.tx
    }

    /// The channel from the worker.
    pub closed spec fn spec_rx(&self) -> R {
        self.rx
    }

    /// A skiddo just started: no conversation yet.
    pub fn new(skiddo_file: String, proc: P, tx: T, rx: R) -> (s: Self)
        ensures
            s.spec_skiddo_file() == skiddo_file@,
            s.spec_proc() == proc,
            s.spec_tx() == tx,
            s.spec_rx() == rx,
            s.last_message() is None,
    {
        SkiddoInstance { skiddo_file, proc, tx, rx, message: None }
    }

    /// The skiddo file this instance runs.
    pub fn skiddo_file(&self) -> (r: &String)
        ensures
            r@ == self.spec_skiddo_file(),
    {
        &self.skiddo_file
    }

    /// The worker process.
    pub fn proc(&self) -> (r: &P)
        ensures
            *r == self.spec_proc(),
    {
        &self.proc
    }

    /// The last message of the conversation, if one has begun.
    pub fn last(&self) -> (r: Option<&Message>)
        ensures
            r is Some == self.last_message() is Some,
            r matches Some(m) ==> *m == self.last_message()->0,
    {
        match &self.message {
            Some(m) => Some(m),
            None => None,
        }
    }

    /// The channel to the worker, once a conversation has begun.
    pub fn tx(&self) -> (r: Option<&T>)
        ensures
            r is Some == self.last_message() is Some,
            r matches Some(t) ==> *t == self.spec_tx(),
    {
        if self.message.is_some() {
            Some(&self.tx)
        } else {
            None
        }
    }

    /// The channel from the worker, once a conversation has begun.
    pub fn rx(&self) -> (r: Option<&R>)
        ensures
            r is Some == self.last_message() is Some,
            r matches Some(t) ==> *t == self.spec_rx(),
    {
        if self.message.is_some() {
            Some(&self.rx)
        } else {
            None
        }
    }

    /// Records and returns the message that follows the last one, carrying `op`.
    pub fn next(&mut self, op: Op) -> (m: Message)
        requires
            old(self).last_message() is Some,
            old(self).last_message()->0.spec_seq() < u64::MAX,
        ensures
            m == old(self).last_message()->0.successor(op),
            m.spec_seq() == old(self).last_message()->0.spec_seq() + 1,
            m.spec_op() == op,
            final(self).last_message() == Some(m),
            final(self).spec_skiddo_file() == old(self).spec_skiddo_file(),
            final(self).spec_proc() == old(self).spec_proc(),
            final(self).spec_tx() == old(self).spec_tx(),
            final(self).spec_rx() == old(self).spec_rx(),
    {
        let last = self.message.clone().unwrap();
        let next = last.next(op);
        self.message = Some(next.clone());
        next
    }

    /// Begins a new conversation, recording and returning its first message.
    pub fn init(&mut self) -> (m: Message)
        ensures
            m == Message::first(),
            m.spec_seq() == 0,
            m.spec_op() == Op::Init,
            final(self).last_message() == Some(m),
            final(self).spec_skiddo_file() == old(self).spec_skiddo_file(),
            final(self).spec_proc() == old(self).spec_proc(),
            final(self).spec_tx() == old(self).spec_tx(),
            final(self).spec_rx() == old(self).spec_rx(),
    {
        let first = Message::init();
        self.message = Some(first.clone());
        first
    }
}

/// Instance numbering law. After `init`, an instance records `Message::first()`;
/// each `next(op)` then records and returns the successor of what was recorded.
/// So when the replies carry `ops[0]`, `ops[1]`, … in turn (with no `init` in
/// between), the `i`-th of them (counting from 1) is
/// `follow(Message::first(), ops.take(i))`: it is the successor of the one before,
/// it is numbered `i` and carries `ops[i - 1]`, and the one before is numbered
/// below `u64::MAX`, so `next` may be called. The numbers handed out are 1, 2, …,
/// k, consecutive and never repeated.
pub proof fn lemma_instance_numbering(ops: Seq<Op>, i: int)
    requires
        1 <= i <= ops.len(),
        ops.len() <= u64::MAX,
    ensures
        follow(Message::first(), ops.take(i)) == follow(Message::first(), ops.take(i - 1)).successor(
            ops[i - 1],
        ),
        follow(Message::first(), ops.take(i - 1)).spec_seq() < u64::MAX,
        follow(Message::first(), ops.take(i)).spec_seq() == i,
        follow(Message::first(), ops.take(i)).spec_op() == ops[i - 1],
{
    lemma_first();
    assert(ops.take(i).drop_last() =~= ops.take(i - 1));
    assert(ops.take(i).last() == ops[i - 1]);
    lemma_follow_numbering(Message::first(), ops.take(i));
    lemma_follow_numbering(Message::first(), ops.take(i - 1));
}

} // verus!
