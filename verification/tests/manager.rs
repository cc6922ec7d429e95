use skiddo_bot::manager::SkiddoManagerInterface;

fn sorted(mut v: Vec<String>) -> Vec<String> {
    v.sort();
    v
}

#[test]
fn empty_registry_lists_nothing() {
    let m: SkiddoManagerInterface<u32> = SkiddoManagerInterface::new();
    assert!(m.instances().is_empty());
}

#[test]
fn spawn_registers_each_file_once() {
    let mut m = SkiddoManagerInterface::new();
    m.spawn("a.skiddo".to_string(), 1u32);
    m.spawn("b.skiddo".to_string(), 2u32);
    m.spawn("a.skiddo".to_string(), 3u32);
    assert_eq!(
        sorted(m.instances()),
        vec!["a.skiddo".to_string(), "b.skiddo".to_string()]
    );
}

#[test]
fn manager_eval_placeholder() {
    let m: SkiddoManagerInterface<u32> = SkiddoManagerInterface::new();
    assert_eq!(
        m.eval("/dev/sda".to_string(), "1+1".to_string()),
        "TODO: Implement. {/dev/sda 1+1}"
    );
}
