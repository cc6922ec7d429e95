use vstd::prelude::*;

verus! {

/// An operation carried by a [`Message`] between the manager and a worker.
#[derive(Debug, PartialEq, Eq)]
pub enum Op {
    /// Initialize the skiddo
    Init,
    /// Initialization complete
    InitComplete,
    /// Evaluate a string
    Eval(String),
    /// Result of an evaluation
    EvalComplete(String),
    /// No operation (with optional message)
    ///
    /// Message MUST NOT be used to determine
    /// behavior
    Noop(Option<String>),
    /// Error (with optional message)
    ///
    /// Message is strongly encouraged
    /// and can be used to determine behavior
    Error(Option<String>),
    /// Shutdown the skiddo
    Shutdown,
}

/// A numbered message: each reply in a conversation carries the next number.
#[derive(Debug, PartialEq, Eq)]
pub struct Message {
    seq: u64,
    op: Op,
}

impl Message {
    /// The sequence number of this message.
    pub closed spec fn spec_seq(&self) -> nat {
        self.seq as nat
    }

    /// The operation of this message.
    pub closed spec fn spec_op(&self) -> Op {
        self.op
    }

    /// The message that follows this one, carrying `op`.
    pub closed spec fn successor(&self, op: Op) -> Message {
        Message { seq: (self.seq + 1) as u64, op }
    }

    /// The first message of a conversation, as a value.
    pub closed spec fn first() -> Message {
        Message { seq: 0, op: Op::Init }
    }

    /// The first message of a conversation: number zero, asking to initialize.
    pub fn init() -> (m: Self)
        ensures
            m.spec_seq() == 0,
            m.spec_op() == Op::Init,
            m == Message::first(),
    {
        Message { seq: 0, op: Op::Init }
    }

    /// A message with the given number and operation, as read off the wire.
    pub fn from_parts(seq: u64, op: Op) -> (m: Self)
        ensures
            m.spec_seq() == seq,
            m.spec_op() == op,
    {
        Message { seq, op }
    }

    /// The operation this message carries.
    pub fn op(&self) -> (r: &Op)
        ensures
            *r == self.spec_op(),
    {
        &self.op
    }

    /// The sequence number this message carries.
    pub fn seq(&self) -> (r: u64)
        ensures
            r == self.spec_seq(),
    {
        self.seq
    }

    /// The message that follows this one in its conversation, carrying `op`.
    pub fn next(&self, op: Op) -> (m: Self)
        requires
            self.spec_seq() < u64::MAX,
        ensures
            m.spec_seq() == self.spec_seq() + 1,
            m.spec_op() == op,
            m == self.successor(op),
    {
        Message { seq: self.seq + 1, op }
    }
}

/// The message reached from `m` by replying with each operation of `ops` in turn.
pub open spec fn follow(m: Message, ops: Seq<Op>) -> Message
    decreases ops.len(),
{
    if ops.len() == 0 {
        m
    } else {
        follow(m, ops.drop_last()).successor(ops.last())
    }
}

/// The first message of a conversation is numbered zero and asks to initialize.
pub proof fn lemma_first()
    ensures
        Message::first().spec_seq() == 0,
        Message::first().spec_op() == Op::Init,
{
}

/// What a successor is: one number further, carrying the given operation.
pub proof fn lemma_successor(m: Message, op: Op)
    requires
        m.spec_seq() < u64::MAX,
    ensures
        m.successor(op).spec_seq() == m.spec_seq() + 1,
        m.successor(op).spec_op() == op,
{
}

/// Numbering law: replying with a run of operations raises the sequence number by
/// exactly the length of the run, and the last message carries the last operation.
pub proof fn lemma_follow_numbering(m: Message, ops: Seq<Op>)
    requires
        m.spec_seq() + ops.len() <= u64::MAX,
    ensures
        follow(m, ops).spec_seq() == m.spec_seq() + ops.len(),
        ops.len() > 0 ==> follow(m, ops).spec_op() == ops.last(),
    decreases ops.len(),
{
    if ops.len() > 0 {
        lemma_follow_numbering(m, ops.drop_last());
        lemma_successor(follow(m, ops.drop_last()), ops.last());
    }
}

/// A conversation started by [`Message::init`] numbers its messages from zero:
/// after `n` replies the last message carries the number `n`.
pub proof fn lemma_conversation_numbering(ops: Seq<Op>)
    requires
        ops.len() <= u64::MAX,
    ensures
        follow(Message::first(), ops).spec_seq() == ops.len(),
{
    lemma_follow_numbering(Message::first(), ops);
}

impl Clone for Op {
    fn clone(&self) -> (r: Self)
        ensures
            r == *self,
    {
        match self {
            Op::Init => Op::Init,
            Op::InitComplete => Op::InitComplete,
            Op::Eval(code) => Op::Eval(code.clone()),
            Op::EvalComplete(out) => Op::EvalComplete(out.clone()),
            Op::Noop(note) => Op::Noop(clone_note(note)),
            Op::Error(note) => Op::Error(clone_note(note)),
            Op::Shutdown => Op::Shutdown,
        }
    }
}

fn clone_note(note: &Option<String>) -> (r: Option<String>)
    ensures
        r == *note,
{
    match note {
        Some(text) => Some(text.clone()),
        None => None,
    }
}

impl Clone for Message {
    fn clone(&self) -> (r: Self)
        ensures
            r == *self,
    {
        Message { seq: self.seq, op: self.op.clone() }
    }
}

} // verus!
