use run_in_roblox::{new_session_id, session_id_from};

#[test]
fn session_id_from_value() {
    assert_eq!(session_id_from(0xdeadbeef), "run-in-roblox-deadbeef");
    assert_eq!(session_id_from(0), "run-in-roblox-0");
}

#[test]
fn new_session_ids_have_prefix_and_differ() {
    let a = new_session_id();
    let b = new_session_id();
    assert!(a.starts_with("run-in-roblox-"));
    assert!(a["run-in-roblox-".len()..].chars().all(|c| c.is_ascii_hexdigit()));
    assert_ne!(a, b);
}
