use skiddo_bot::message::{Message, Op};
use skiddo_bot::worker::{eval_reply, init_reply, route, WorkerStep};

fn msg(seq: u64, op: Op) -> Message {
    Message::from_parts(seq, op)
}

#[test]
fn route_init_evaluates_initialize() {
    let m = msg(0, Op::Init);
    assert_eq!(route(Some(m.clone())), WorkerStep::Initialize(m));
}

#[test]
fn route_eval_carries_code() {
    let m = msg(4, Op::Eval("skiddo.x()".to_string()));
    assert_eq!(
        route(Some(m.clone())),
        WorkerStep::Evaluate(m, "skiddo.x()".to_string())
    );
}

#[test]
fn route_shutdown_stops() {
    let step = route(Some(msg(9, Op::Shutdown)));
    assert_eq!(step, WorkerStep::Stop);
    assert!(!step.keeps_running());
}

#[test]
fn route_skips_undecoded_and_other_ops() {
    assert_eq!(route(None), WorkerStep::Skip);
    assert_eq!(route(Some(msg(1, Op::InitComplete))), WorkerStep::Skip);
    assert_eq!(route(Some(msg(1, Op::EvalComplete("r".to_string())))), WorkerStep::Skip);
    assert_eq!(route(Some(msg(1, Op::Error(None)))), WorkerStep::Skip);
    assert!(route(None).keeps_running());
}

#[test]
fn noop_text_does_not_matter() {
    let a = route(Some(msg(1, Op::Noop(Some("stop now".to_string())))));
    let b = route(Some(msg(2, Op::Noop(None))));
    assert_eq!(a, WorkerStep::Skip);
    assert_eq!(a, b);
    assert!(a.keeps_running());
}

#[test]
fn replies_are_numbered_next() {
    let m = msg(7, Op::Eval("1".to_string()));
    let r = eval_reply(&m, "1".to_string());
    assert_eq!(r.seq(), 8);
    assert_eq!(*r.op(), Op::EvalComplete("1".to_string()));
    let i = init_reply(&msg(0, Op::Init));
    assert_eq!(i.seq(), 1);
    assert_eq!(*i.op(), Op::InitComplete);
}

#[test]
fn evaluate_keeps_running() {
    let m = msg(0, Op::Eval("x".to_string()));
    assert!(route(Some(m)).keeps_running());
}
