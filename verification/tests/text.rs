use skiddo_bot::text::{
    bot_log_prefix, decimal_string, eval_command_reply, instance_log_prefix, js_log_line,
    manager_log_prefix, ready_message, spawn_command_reply,
};

#[test]
fn decimal_matches_display() {
    for n in [0u32, 7, 9, 10, 42, 100, 1234567, u32::MAX] {
        assert_eq!(decimal_string(n), format!("{}", n));
    }
}

#[test]
fn log_prefixes() {
    assert_eq!(bot_log_prefix(4021), "SkiddoBot (PID 4021):");
    assert_eq!(manager_log_prefix(0), "SkiddoManager (PID 0):");
    assert_eq!(instance_log_prefix("a.skiddo", 99), "Skiddo \"a.skiddo\" (PID 99):");
}

#[test]
fn command_replies() {
    assert_eq!(eval_command_reply("1+1"), "```js\nskiddo.eval(\"1+1\")```");
    assert_eq!(spawn_command_reply("x.skiddo"), "Booting up skiddo from Skiddo File x.skiddo");
    assert_eq!(ready_message("Skiddo"), "Skiddo has started and connected to discord.");
    assert_eq!(js_log_line("hi"), "JS: hi");
}
