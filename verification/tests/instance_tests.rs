use captura::instance::{lock_conflict, lock_contents, lock_file_path, lock_file_path_from, parse_lock_pid, parse_u32};

#[test]
fn lock_file_location() {
    assert_eq!(
        lock_file_path_from(Some("/cfg".to_string()), None),
        "/cfg/captura/captura.lock"
    );
    assert_eq!(
        lock_file_path_from(None, Some("/home/u".to_string())),
        "/home/u/.config/captura/captura.lock"
    );
    assert!(lock_file_path().ends_with("captura/captura.lock"));
}

#[test]
fn pid_is_read_like_u32_from_str() {
    for s in ["123", "+7", "0", "0042", "4294967295", "", "+", "-1", "4294967296", "12a", " 1"] {
        let v: Vec<char> = s.chars().collect();
        assert_eq!(parse_u32(&v), s.parse::<u32>().ok(), "{s:?}");
    }
}

#[test]
fn lock_contents_are_trimmed() {
    assert_eq!(parse_lock_pid(" 4711\n"), Some(4711));
    assert_eq!(parse_lock_pid("garbage"), None);
    assert_eq!(parse_lock_pid(&lock_contents(99)), Some(99));
    assert_eq!(lock_contents(1234), "1234");
}

#[test]
fn only_a_live_process_blocks_startup() {
    assert_eq!(
        lock_conflict(Some(42), true),
        Some("another instance is running (PID 42)".to_string())
    );
    assert_eq!(lock_conflict(Some(42), false), None);
    assert_eq!(lock_conflict(None, true), None);
}
