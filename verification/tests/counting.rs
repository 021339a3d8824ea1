use hello4000::host::{cassandra_addr, greeting};
use hello4000::{get_hostname, get_nodename, Counter};

#[test]
fn the_counter_starts_at_zero_and_counts_requests() {
    let mut c = Counter::default();
    assert_eq!(c.count(), 0);
    c.on_request();
    c.on_request();
    c.on_request();
    assert_eq!(c.count(), 3);
}

#[test]
fn the_count_is_served_for_a_get_of_its_path_that_found_nothing() {
    let mut c = Counter::default();
    for _ in 0..12 {
        c.on_request();
    }
    assert_eq!(
        c.on_response(true, true, "/count", "pod-1", "node-a"),
        Some("Requests served from pod-1 on node node-a: 12\n".to_string())
    );
    assert_eq!(c.count(), 12);
}

#[test]
fn other_responses_are_left_alone() {
    let c = Counter::default();
    assert_eq!(c.on_response(false, true, "/count", "h", "n"), None);
    assert_eq!(c.on_response(true, false, "/count", "h", "n"), None);
    assert_eq!(c.on_response(true, true, "/counts", "h", "n"), None);
    assert_eq!(c.on_response(true, true, "/", "h", "n"), None);
    assert_eq!(c.on_response(true, true, "", "h", "n"), None);
    assert_eq!(
        c.on_response(true, true, "/count", "", ""),
        Some("Requests served from  on node : 0\n".to_string())
    );
}

#[test]
fn the_node_name_defaults_to_unknown() {
    assert_eq!(get_nodename(None), "UNKNOWN");
    assert_eq!(get_nodename(Some("worker-3".to_string())), "worker-3");
    assert_eq!(get_nodename(Some(String::new())), "");
}

#[test]
fn the_greeting_names_node_and_pod() {
    assert_eq!(
        greeting("UNKNOWN", "web-0"),
        "Hello k8s world! I am a simple server running on node UNKNOWN in pod web-0\n"
    );
}

#[test]
fn the_host_name_is_what_the_system_reports() {
    let expected: String = gethostname::gethostname().to_string_lossy().into();
    assert_eq!(get_hostname(), expected);
}

#[test]
fn the_node_address_ends_in_the_cluster_port() {
    assert_eq!(cassandra_addr("10.0.0.7"), "10.0.0.7:9042");
    assert_eq!(cassandra_addr(""), ":9042");
}
