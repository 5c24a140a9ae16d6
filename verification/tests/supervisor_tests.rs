use backend_supervisor::supervisor::OutputEvent;
use backend_supervisor::supervisor::Supervisor;

#[test]
fn monitoring_loop_converges_on_printed_port() {
    let mut sup = Supervisor::new();
    assert!(!sup.handle_event(OutputEvent::StdoutLine("starting up".to_string())));
    assert!(!sup.handle_event(OutputEvent::StdoutLine(
        "listening on port 52345".to_string()
    )));
    assert!(sup.handle_event(OutputEvent::Terminated(Some(0))));
    assert_eq!(sup.get_backend_port(), 52345);
    assert_eq!(sup.get_backend_url(), "http://127.0.0.1:52345");
}

#[test]
fn stderr_lines_are_scanned_too() {
    let mut sup = Supervisor::new();
    sup.handle_event(OutputEvent::StderrLine(
        "Uvicorn running on http://127.0.0.1:8123".to_string(),
    ));
    assert_eq!(sup.get_backend_port(), 8123);
}

#[test]
fn first_detection_is_authoritative() {
    let mut sup = Supervisor::new();
    sup.handle_event(OutputEvent::StdoutLine("port 2000".to_string()));
    sup.handle_event(OutputEvent::StdoutLine("port 3000".to_string()));
    assert_eq!(sup.get_backend_port(), 2000);
}

#[test]
fn spawn_error_keeps_loop_and_registry() {
    let mut sup = Supervisor::new();
    assert!(!sup.handle_event(OutputEvent::SpawnError("broken pipe".to_string())));
    assert_eq!(sup.get_backend_port(), 0);
}

#[test]
fn silent_child_falls_back_to_server_info_file() {
    let mut sup = Supervisor::new();
    assert!(sup.handle_event(OutputEvent::Terminated(None)));
    assert!(sup.needs_fallback());
    sup.apply_fallback("{\"backend_port\": 9001}");
    assert_eq!(sup.get_backend_port(), 9001);
    assert_eq!(sup.get_backend_url(), "http://127.0.0.1:9001");
}

#[test]
fn fallback_never_overwrites_a_discovered_port() {
    let mut sup = Supervisor::new();
    sup.handle_event(OutputEvent::StdoutLine("port 2000".to_string()));
    assert!(!sup.needs_fallback());
    sup.apply_fallback("{\"backend_port\": 9001}");
    assert_eq!(sup.get_backend_port(), 2000);
}

#[test]
fn malformed_fallback_leaves_default_url() {
    let mut sup = Supervisor::new();
    sup.apply_fallback("not json at all");
    assert_eq!(sup.get_backend_port(), 0);
    assert_eq!(sup.get_backend_url(), "http://localhost:8002");
}

#[test]
fn fallback_without_field_leaves_default_url() {
    let mut sup = Supervisor::new();
    sup.apply_fallback("{\"pid\": 4242}");
    assert_eq!(sup.get_backend_url(), "http://localhost:8002");
}

#[test]
fn fallback_out_of_range_is_ignored() {
    let mut sup = Supervisor::new();
    sup.apply_fallback("{\"backend_port\": 80}");
    assert_eq!(sup.get_backend_port(), 0);
    sup.apply_fallback("{\"backend_port\": 99999}");
    assert_eq!(sup.get_backend_port(), 0);
}

#[test]
fn fallback_non_numeric_field_is_ignored() {
    let mut sup = Supervisor::new();
    sup.apply_fallback("{\"backend_port\": \"9001\"}");
    assert_eq!(sup.get_backend_port(), 0);
}

#[test]
fn at_most_one_backend_is_live() {
    let mut sup = Supervisor::new();
    assert!(sup.may_start());
    sup.attach_child(4242);
    assert!(!sup.may_start());
}

#[test]
fn shutdown_twice_is_a_safe_no_op() {
    let mut sup = Supervisor::new();
    sup.attach_child(4242);
    sup.handle_event(OutputEvent::StdoutLine("port 2000".to_string()));
    assert_eq!(sup.shutdown(), Some(4242));
    assert_eq!(sup.shutdown(), None);
    assert_eq!(sup.get_backend_port(), 2000);
}
