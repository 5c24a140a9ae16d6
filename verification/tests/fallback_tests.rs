use backend_supervisor::fallback::port_from_server_info;

#[test]
fn server_info_text_yields_its_port() {
    assert_eq!(
        port_from_server_info("{\"backend_port\": 9001, \"pid\": 77}"),
        Some(9001)
    );
}

#[test]
fn server_info_rejects_what_is_not_a_port() {
    assert_eq!(port_from_server_info(""), None);
    assert_eq!(port_from_server_info("{}"), None);
    assert_eq!(port_from_server_info("{\"backend_port\": 9001.5}"), None);
    assert_eq!(port_from_server_info("[9001]"), None);
}

#[test]
fn server_info_nested_field_is_not_top_level() {
    assert_eq!(
        port_from_server_info("{\"info\": {\"backend_port\": 9001}}"),
        None
    );
}
