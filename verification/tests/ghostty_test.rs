use apprunner::ghostty::{build_ghostty_command, is_ghostty_available};

#[test]
fn test_is_ghostty_available_does_not_panic() {
    let _ = is_ghostty_available();
}

#[test]
fn test_build_ghostty_command_basic() {
    let args = build_ghostty_command("/tmp/myapp", "npm start");
    assert_eq!(args.len(), 4);
    assert_eq!(args[0], "-e");
    assert_eq!(args[1], "/bin/sh");
    assert_eq!(args[2], "-c");
    assert_eq!(args[3], "cd '/tmp/myapp' && npm start");
}

#[test]
fn test_build_ghostty_command_handles_spaces() {
    let args = build_ghostty_command("/home/user/my project", "cargo run");
    assert_eq!(args[3], "cd '/home/user/my project' && cargo run");
}

#[test]
fn test_build_ghostty_command_handles_single_quotes() {
    let args = build_ghostty_command("/home/user/it's a dir", "echo hello");
    assert_eq!(args[3], "cd '/home/user/it'\\''s a dir' && echo hello");
}

#[test]
fn build_ghostty_command_escapes_every_quote() {
    let args = build_ghostty_command("''", "true");
    assert_eq!(args[3], "cd ''\\'''\\''' && true");
}
