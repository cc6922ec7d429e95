use skiddo_bot::instance::SkiddoInstance;
use skiddo_bot::message::Op;

#[test]
fn channels_only_after_init() {
    let mut inst = SkiddoInstance::new("f.skiddo".to_string(), 77u32, "to", "from");
    assert!(inst.tx().is_none());
    assert!(inst.rx().is_none());
    let first = inst.init();
    assert_eq!(first.seq(), 0);
    assert_eq!(*first.op(), Op::Init);
    assert_eq!(inst.tx(), Some(&"to"));
    assert_eq!(inst.rx(), Some(&"from"));
    assert_eq!(inst.skiddo_file(), "f.skiddo");
    assert_eq!(*inst.proc(), 77u32);
}

#[test]
fn next_continues_the_conversation() {
    let mut inst = SkiddoInstance::new("f".to_string(), (), 1u8, 2u8);
    inst.init();
    let a = inst.next(Op::Eval("x".to_string()));
    let b = inst.next(Op::Shutdown);
    assert_eq!(a.seq(), 1);
    assert_eq!(*a.op(), Op::Eval("x".to_string()));
    assert_eq!(b.seq(), 2);
    assert_eq!(*b.op(), Op::Shutdown);
    let again = inst.init();
    assert_eq!(again.seq(), 0);
    assert_eq!(inst.next(Op::Noop(None)).seq(), 1);
}

#[test]
fn numbers_run_one_to_k_after_init() {
    let mut inst = SkiddoInstance::new("f".to_string(), (), (), ());
    inst.init();
    for i in 1..=20u64 {
        let m = inst.next(Op::EvalComplete(i.to_string()));
        assert_eq!(m.seq(), i);
        assert_eq!(*m.op(), Op::EvalComplete(i.to_string()));
        assert_eq!(inst.last().unwrap().seq(), i);
    }
}
