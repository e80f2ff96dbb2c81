use netauth::{AccessPolicy, Address, Network, NetworkId, Route, Rule, StaleRevision};

fn network() -> Network {
    Network {
        id: NetworkId { value: 0x99 },
        policy: AccessPolicy::Manual,
        credential_window: 3600,
        config_window: 120,
        routes: vec![Route { target: 4, via: Some(5) }],
        rules: vec![Rule { word: 2 }],
        multicast_limit: 16,
    }
}

#[test]
fn synthesis_is_idempotent() {
    let n = network();
    let a = netauth::synthesize(&n, Address { value: 7 }, 3, 3).unwrap();
    let b = netauth::synthesize(&n, Address { value: 7 }, 3, 3).unwrap();
    assert_eq!(a, b);
}

#[test]
fn synthesis_stamps_revision_and_window() {
    let n = network();
    let c = netauth::synthesize(&n, Address { value: 7 }, 3, 3).unwrap();
    assert_eq!(c.network_id.value, 0x99);
    assert_eq!(c.issued_to.value, 7);
    assert_eq!(c.revision, 3);
    assert_eq!(c.validity_window, 120);
    assert_eq!(c.routes, n.routes);
    assert_eq!(c.rules, n.rules);
    assert_eq!(c.multicast_limit, 16);
}

#[test]
fn synthesis_refuses_stale_snapshot() {
    let n = network();
    assert_eq!(
        netauth::synthesize(&n, Address { value: 7 }, 3, 4).unwrap_err(),
        StaleRevision
    );
}
