use skiddo_bot::message::{Message, Op};

#[test]
fn init_starts_at_zero_with_init() {
    let m = Message::init();
    assert_eq!(m.seq(), 0);
    assert_eq!(*m.op(), Op::Init);
}

#[test]
fn next_increments_and_carries_op() {
    let m = Message::init();
    let n = m.next(Op::Eval("1 + 1".to_string()));
    assert_eq!(n.seq(), 1);
    assert_eq!(*n.op(), Op::Eval("1 + 1".to_string()));
    // the original message is unchanged
    assert_eq!(m.seq(), 0);
    assert_eq!(*m.op(), Op::Init);
}

#[test]
fn conversation_numbering_counts_replies() {
    let mut m = Message::init();
    let ops = vec![
        Op::InitComplete,
        Op::Noop(None),
        Op::Error(Some("bad".to_string())),
        Op::EvalComplete("2".to_string()),
        Op::Shutdown,
    ];
    for op in ops {
        m = m.next(op);
    }
    assert_eq!(m.seq(), 5);
    assert_eq!(*m.op(), Op::Shutdown);
}

#[test]
fn from_parts_keeps_number_and_op() {
    let m = Message::from_parts(41, Op::Noop(Some("x".to_string())));
    assert_eq!(m.seq(), 41);
    assert_eq!(*m.op(), Op::Noop(Some("x".to_string())));
    let n = m.next(Op::Shutdown);
    assert_eq!(n.seq(), 42);
}

#[test]
fn next_just_below_the_limit() {
    let m = Message::from_parts(u64::MAX - 1, Op::Init);
    assert_eq!(m.next(Op::InitComplete).seq(), u64::MAX);
}

#[test]
fn clone_is_equal() {
    let m = Message::from_parts(3, Op::Error(Some("e".to_string())));
    let c = m.clone();
    assert_eq!(c, m);
    assert_eq!(Op::Eval("a".to_string()).clone(), Op::Eval("a".to_string()));
}
