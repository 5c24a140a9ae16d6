use backend_supervisor::coordinator::ShutdownCoordinator;

#[test]
fn close_request_begins_cleanup_once() {
    let mut gate = ShutdownCoordinator::new();
    assert!(gate.request_close());
    assert!(!gate.request_close());
    assert!(!gate.request_close());
}
