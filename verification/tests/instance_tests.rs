use platform_core::single_instance::{
    activation_payload, choose_runtime_dir, payload_triggers_activation, send_activate_to_existing,
    socket_path, AlreadyRunning, SendError, SingleInstance, SocketSpace,
};

#[test]
fn socket_path_is_derived_from_dir_and_id() {
    assert_eq!(socket_path("/run/user/1000", "myapp"), "/run/user/1000/myapp.sock");
}

#[test]
fn runtime_dir_prefers_xdg_then_tmp() {
    assert_eq!(
        choose_runtime_dir(Some("/run/user/1".to_string()), Some("/var/tmp".to_string())),
        "/run/user/1"
    );
    assert_eq!(choose_runtime_dir(None, Some("/var/tmp".to_string())), "/var/tmp");
    assert_eq!(choose_runtime_dir(None, None), "/tmp");
}

#[test]
fn first_acquire_succeeds_second_is_denied() {
    let mut space = SocketSpace::new();
    let first = SingleInstance::acquire(&mut space, "/tmp", "myapp");
    assert!(first.is_ok());
    let second = SingleInstance::acquire(&mut space, "/tmp", "myapp");
    assert_eq!(second.err(), Some(AlreadyRunning));
}

#[test]
fn different_app_ids_do_not_interact() {
    let mut space = SocketSpace::new();
    assert!(SingleInstance::acquire(&mut space, "/tmp", "one").is_ok());
    assert!(SingleInstance::acquire(&mut space, "/tmp", "two").is_ok());
}

#[test]
fn acquire_succeeds_again_after_release() {
    let mut space = SocketSpace::new();
    let guard = SingleInstance::acquire(&mut space, "/tmp", "myapp").unwrap();
    guard.release(&mut space);
    assert!(SingleInstance::acquire(&mut space, "/tmp", "myapp").is_ok());
}

#[test]
fn stale_socket_file_does_not_block_acquire() {
    let mut space = SocketSpace::new();
    let guard = SingleInstance::acquire(&mut space, "/tmp", "myapp").unwrap();
    // the holder dies without cleanup: the file stays, nothing listens
    space.crash_holder(guard.path.as_str());
    assert!(!space.probe_connect("/tmp/myapp.sock"));
    let fresh = SingleInstance::acquire(&mut space, "/tmp", "myapp");
    assert!(fresh.is_ok());
}

#[test]
fn send_reaches_an_armed_listener_once() {
    let mut space = SocketSpace::new();
    let _guard = SingleInstance::acquire(&mut space, "/tmp", "myapp").unwrap();
    let payload = send_activate_to_existing(&space, "/tmp", "myapp").unwrap();
    // what was delivered asks for activation: exactly one callback fires
    // for this connection
    assert!(payload_triggers_activation(&payload, payload.len()));
}

#[test]
fn send_without_listener_is_a_soft_failure() {
    let space = SocketSpace::new();
    let r = send_activate_to_existing(&space, "/tmp", "myapp");
    assert_eq!(r.err(), Some(SendError::NoListener));
}

#[test]
fn activation_payload_is_the_sentinel() {
    assert_eq!(activation_payload(), b"activate".to_vec());
}

#[test]
fn short_or_foreign_payloads_do_not_activate() {
    let exact = b"activate";
    assert!(payload_triggers_activation(exact, 8));
    let padded = b"activate now";
    assert!(payload_triggers_activation(padded, padded.len()));
    // a short read of the right bytes is not enough
    assert!(!payload_triggers_activation(exact, 7));
    assert!(!payload_triggers_activation(b"ACTIVATE", 8));
    assert!(!payload_triggers_activation(b"activanot", 9));
    assert!(!payload_triggers_activation(b"", 0));
}
