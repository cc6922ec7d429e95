//! How a worker answers the messages it receives.

use crate::message::{Message, Op};
use vstd::prelude::*;

verus! {

/// What a worker does with one received frame.
#[derive(Debug, PartialEq, Eq)]
pub enum WorkerStep {
    /// Initialize, answering the given message.
    Initialize(Message),
    /// Evaluate the code, answering the given message.
    Evaluate(Message, String),
    /// Leave the message loop.
    Stop,
    /// Ignore the frame and wait for the next one.
    Skip,
}

impl WorkerStep {
    /// Whether the worker keeps receiving after this step.
    pub open spec fn spec_keeps_running(&self) -> bool {
        !(self is Stop)
    }

    /// Whether the worker keeps receiving after this step.
    pub fn keeps_running(&self) -> (r: bool)
        ensures
            r == self.spec_keeps_running(),
    {
        match self {
            WorkerStep::Stop => false,
            _ => true,
        }
    }
}

/// The step for a received frame: `None` when the frame did not decode as a
/// message. Initialization, evaluation and shutdown are acted on; every other
/// operation, and every frame that did not decode, is skipped.
pub open spec fn spec_route(received: Option<Message>) -> WorkerStep {
    match received {
        None => WorkerStep::Skip,
        Some(msg) => match msg.spec_op() {
            Op::Init => WorkerStep::Initialize(msg),
            Op::Eval(code) => WorkerStep::Evaluate(msg, code),
            Op::Shutdown => WorkerStep::Stop,
            _ => WorkerStep::Skip,
        },
    }
}

/// Decides what to do with a received frame (see [`spec_route`]).
pub fn route(received: Option<Message>) -> (r: WorkerStep)
    ensures
        r == spec_route(received),
        received is None ==> r == WorkerStep::Skip,
        received matches Some(m) ==> match m.spec_op() {
            Op::Init => r == WorkerStep::Initialize(m),
            Op::Eval(code) => r == WorkerStep::Evaluate(m, code),
            Op::Shutdown => r == WorkerStep::Stop,
            _ => r == WorkerStep::Skip,
        },
{
    proof {
        if received is Some {
            lemma_route_acts_on_every_request(received->0);
        }
    }
    match received {
        None => WorkerStep::Skip,
        Some(msg) => {
            let op = msg.op().clone();
            match op {
                Op::Init => WorkerStep::Initialize(msg),
                Op::Eval(code) => WorkerStep::Evaluate(msg, code),
                Op::Shutdown => WorkerStep::Stop,
                _ => WorkerStep::Skip,
            }
        },
    }
}

/// The answer to an initialization request: initialization complete.
pub fn init_reply(msg: &Message) -> (r: Message)
    requires
        msg.spec_seq() < u64::MAX,
    ensures
        r == msg.successor(Op::InitComplete),
        r.spec_seq() == msg.spec_seq() + 1,
        r.spec_op() == Op::InitComplete,
{
    msg.next(Op::InitComplete)
}

/// The answer to an evaluation request, carrying the rendered result.
pub fn eval_reply(msg: &Message, rendered: String) -> (r: Message)
    requires
        msg.spec_seq() < u64::MAX,
    ensures
        r == msg.successor(Op::EvalComplete(rendered)),
        r.spec_seq() == msg.spec_seq() + 1,
        r.spec_op() == Op::EvalComplete(rendered),
{
    msg.next(Op::EvalComplete(rendered))
}

/// Routing law: what a worker does with a decoded message depends on its
/// operation alone, never on its number. Every initialization request is
/// initialized, every evaluation request is evaluated with exactly its code,
/// every shutdown request stops the worker, and everything else is skipped.
pub proof fn lemma_route_acts_on_every_request(m: Message)
    ensures
        m.spec_op() is Init ==> spec_route(Some(m)) == WorkerStep::Initialize(m),
        m.spec_op() matches Op::Eval(code) ==> spec_route(Some(m)) == WorkerStep::Evaluate(m, code),
        m.spec_op() is Shutdown ==> spec_route(Some(m)) == WorkerStep::Stop,
        !(m.spec_op() is Init || m.spec_op() is Eval || m.spec_op() is Shutdown) ==> spec_route(
            Some(m),
        ) == WorkerStep::Skip,
{
}

/// Two messages with the same operation and different numbers are routed to the
/// same kind of step, carrying the same code.
pub proof fn lemma_route_ignores_number(a: Message, b: Message)
    requires
        a.spec_op() == b.spec_op(),
    ensures
        spec_route(Some(a)) is Initialize <==> spec_route(Some(b)) is Initialize,
        spec_route(Some(a)) is Stop <==> spec_route(Some(b)) is Stop,
        spec_route(Some(a)) is Skip <==> spec_route(Some(b)) is Skip,
        spec_route(Some(a)) matches WorkerStep::Evaluate(_, ca) ==> spec_route(Some(b)) matches WorkerStep::Evaluate(_, cb) && ca == cb,
{
    lemma_route_acts_on_every_request(a);
    lemma_route_acts_on_every_request(b);
}

/// The text of a `Noop` never decides what a worker does: two `Noop` messages
/// lead to the same step, whatever their texts and numbers.
pub proof fn lemma_noop_text_is_ignored(a: Message, b: Message)
    requires
        a.spec_op() is Noop,
        b.spec_op() is Noop,
    ensures
        spec_route(Some(a)) == spec_route(Some(b)),
        spec_route(Some(a)) == WorkerStep::Skip,
{
}

/// Only a shutdown request ends the message loop; every other frame, decoded or
/// not, leaves the worker receiving.
pub proof fn lemma_only_shutdown_stops(received: Option<Message>)
    ensures
        !spec_route(received).spec_keeps_running() <==> (received matches Some(m)
            && m.spec_op() is Shutdown),
{
}

} // verus!
