use skiddo_bot::args::{flag_value_of, last_flag_value, select_role, skiddo_file_arg, worker_args, Role};

fn strings(v: &[&str]) -> Vec<String> {
    v.iter().map(|s| s.to_string()).collect()
}

#[test]
fn flag_value_strips_every_leading_prefix() {
    assert_eq!(flag_value_of("--worker=abc", "--worker="), Some("abc".to_string()));
    assert_eq!(
        flag_value_of("--worker=--worker=abc", "--worker="),
        Some("abc".to_string())
    );
    assert_eq!(flag_value_of("--worker=", "--worker="), None);
    assert_eq!(flag_value_of("--worker=--worker=", "--worker="), None);
    assert_eq!(flag_value_of("worker=abc", "--worker="), None);
    assert_eq!(flag_value_of("", "--worker="), None);
    assert_eq!(flag_value_of("--worker=a--worker=", "--worker="), Some("a--worker=".to_string()));
}

#[test]
fn flag_value_handles_non_ascii() {
    assert_eq!(flag_value_of("--skiddo-file=héllo✓", "--skiddo-file="), Some("héllo✓".to_string()));
}

#[test]
fn last_flag_value_takes_the_last_non_empty() {
    let args = strings(&["--worker=a", "--worker=b", "--worker=", "other"]);
    assert_eq!(last_flag_value(&args, "--worker="), Some("b".to_string()));
    assert_eq!(last_flag_value(&strings(&[]), "--worker="), None);
    assert_eq!(last_flag_value(&strings(&["x", "y"]), "--worker="), None);
}

#[test]
fn select_role_worker_needs_both_flags() {
    let args = strings(&["--worker=sock", "--skiddo-file=/a.skiddo"]);
    assert_eq!(
        select_role(&args),
        Role::Instance {
            socket: "sock".to_string(),
            skiddo_file: "/a.skiddo".to_string()
        }
    );
    assert_eq!(select_role(&strings(&["--worker=sock"])), Role::Manager);
    assert_eq!(select_role(&strings(&["--skiddo-file=/a"])), Role::Manager);
    assert_eq!(select_role(&strings(&[])), Role::Manager);
    assert_eq!(
        select_role(&strings(&["--worker=", "--skiddo-file=/a"])),
        Role::Manager
    );
}

#[test]
fn select_role_order_of_flags_does_not_matter() {
    let args = strings(&["--skiddo-file=f", "junk", "--worker=s"]);
    assert_eq!(
        select_role(&args),
        Role::Instance {
            socket: "s".to_string(),
            skiddo_file: "f".to_string()
        }
    );
}

#[test]
fn worker_args_round_trip() {
    let args = worker_args("/tmp/ipc-123", "/home/me/x.skiddo");
    assert_eq!(args, strings(&["--worker=/tmp/ipc-123", "--skiddo-file=/home/me/x.skiddo"]));
    assert_eq!(
        select_role(&args),
        Role::Instance {
            socket: "/tmp/ipc-123".to_string(),
            skiddo_file: "/home/me/x.skiddo".to_string()
        }
    );
    assert_eq!(skiddo_file_arg(&args), Some("/home/me/x.skiddo".to_string()));
}

#[test]
fn skiddo_file_arg_absent() {
    assert_eq!(skiddo_file_arg(&strings(&["--worker=s"])), None);
}
