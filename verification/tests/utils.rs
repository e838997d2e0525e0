use grpcmock::utils::{candidate_port, PORT_RANGE_END, PORT_RANGE_START};

#[test]
fn candidate_ports_are_in_range() {
    assert_eq!((PORT_RANGE_START, PORT_RANGE_END), (40000, 60000));
    for _ in 0..10_000 {
        let port = candidate_port();
        assert!((40000..60000).contains(&port), "{port}");
    }
}

#[test]
fn candidate_ports_vary() {
    let first = candidate_port();
    assert!((0..1000).any(|_| candidate_port() != first));
}
