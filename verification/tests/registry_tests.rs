use backend_supervisor::registry::PortRegistry;

#[test]
fn first_offer_sticks() {
    let mut reg = PortRegistry::new();
    reg.offer(2000);
    reg.offer(3000);
    assert_eq!(reg.get(), Some(2000));
}

#[test]
fn query_url_default_when_empty() {
    let reg = PortRegistry::new();
    assert_eq!(reg.query_url(), "http://localhost:8002");
}

#[test]
fn query_url_with_discovered_port() {
    let mut reg = PortRegistry::new();
    reg.offer(52345);
    assert_eq!(reg.query_url(), "http://127.0.0.1:52345");
}

#[test]
fn query_url_renders_every_digit_count() {
    let mut low = PortRegistry::new();
    low.offer(1025);
    assert_eq!(low.query_url(), "http://127.0.0.1:1025");
    let mut high = PortRegistry::new();
    high.offer(65534);
    assert_eq!(high.query_url(), "http://127.0.0.1:65534");
}
