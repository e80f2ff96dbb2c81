use netauth::{
    Address, AuditLog, AuthorizationResult, Endpoint, Fingerprint, NetworkId, RequestLogItem,
};

fn item(network: u64, timestamp: i64, result: AuthorizationResult) -> RequestLogItem {
    RequestLogItem {
        network_id: NetworkId { value: network },
        node_id: Address { value: 0x2a },
        node_fingerprint: Fingerprint { bytes: vec![0x11; 48] },
        controller_node_id: Address { value: 0xdeadbeef01 },
        metadata: Vec::new(),
        peer_version: None,
        peer_protocol_version: None,
        timestamp,
        source_remote_endpoint: Endpoint { ip0: 10, ip1: 0, ip2: 0, ip3: 5, port: 9993 },
        source_hops: 3,
        result,
        config: None,
    }
}

#[test]
fn log_line_exact() {
    let line = item(0x1122334455667788, 1234567890, AuthorizationResult::Rejected).to_line();
    assert_eq!(
        line,
        "deadbeef01 1122334455667788 000000002a ts=1234567890 s=10.0.0.5/9993,3 r"
    );
}

#[test]
fn log_line_negative_timestamp_and_code() {
    let line = item(1, -5, AuthorizationResult::RejectedTooOld).to_line();
    assert_eq!(line, "deadbeef01 0000000000000001 000000002a ts=-5 s=10.0.0.5/9993,3 ro");
}

#[test]
fn audit_append_keeps_order() {
    let mut log = AuditLog::new();
    assert_eq!(log.len(), 0);
    log.append(item(1, 100, AuthorizationResult::Rejected));
    log.append(item(2, 200, AuthorizationResult::RejectedViaToken));
    log.append(item(1, 300, AuthorizationResult::Rejected));
    assert_eq!(log.len(), 3);
    assert_eq!(log.entry(0).timestamp, 100);
    assert_eq!(log.entry(1).network_id.value, 2);
    assert_eq!(log.entry(2).timestamp, 300);
}

#[test]
fn audit_query_is_forward_ordered_and_restartable() {
    let mut log = AuditLog::new();
    log.append(item(1, 100, AuthorizationResult::Rejected));
    log.append(item(2, 200, AuthorizationResult::Rejected));
    log.append(item(1, 300, AuthorizationResult::Rejected));
    log.append(item(1, 900, AuthorizationResult::Rejected));
    let nid = Some(NetworkId { value: 1 });
    let first = log.next_match(0, nid, 0, 500).unwrap();
    assert_eq!(first, 0);
    let second = log.next_match(first + 1, nid, 0, 500).unwrap();
    assert_eq!(second, 2);
    assert!(log.next_match(second + 1, nid, 0, 500).is_none());
}

#[test]
fn audit_query_filters_by_time_range() {
    let mut log = AuditLog::new();
    log.append(item(1, 100, AuthorizationResult::Rejected));
    log.append(item(1, 300, AuthorizationResult::Rejected));
    let nid = Some(NetworkId { value: 1 });
    assert_eq!(log.next_match(0, nid, 200, 400), Some(1));
    assert!(log.next_match(0, nid, 301, 400).is_none());
    assert!(log.next_match(0, Some(NetworkId { value: 9 }), 0, 1000).is_none());
}
