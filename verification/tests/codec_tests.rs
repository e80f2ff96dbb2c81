use netauth::{
    AccessPolicy, Address, Fingerprint, IssuedToken, Member, Network, NetworkExport, NetworkId,
    Route, Rule, SsoBinding,
};

fn sample_export() -> NetworkExport {
    let network = Network {
        id: NetworkId { value: 0xfeedface12345678 },
        policy: AccessPolicy::Token,
        credential_window: 86_400,
        config_window: 600,
        routes: vec![
            Route { target: 0x0a000000, via: None },
            Route { target: 0x0a000100, via: Some(0x2a) },
        ],
        rules: vec![Rule { word: 1 }, Rule { word: 0xffff_ffff_ffff_ffff }],
        multicast_limit: 64,
    };
    let members = vec![
        Member {
            address: Address { value: 0x2a },
            authorized: Some(true),
            fingerprint: Some(Fingerprint { bytes: vec![7; 48] }),
            sso: Some(SsoBinding { subject: 9, expires_at: -12 }),
            token: Some(IssuedToken { secret: vec![1, 2, 3], expires_at: 55 }),
            revision: 3,
            removed: false,
        },
        Member {
            address: Address { value: 0x3b },
            authorized: Some(false),
            fingerprint: None,
            sso: None,
            token: None,
            revision: 0,
            removed: true,
        },
        Member {
            address: Address { value: 0x4c },
            authorized: None,
            fingerprint: Some(Fingerprint { bytes: vec![0; 48] }),
            sso: None,
            token: Some(IssuedToken { secret: Vec::new(), expires_at: i64::MIN }),
            revision: u64::MAX - 1,
            removed: false,
        },
    ];
    NetworkExport { network, members }
}

#[test]
fn export_round_trip() {
    let export = sample_export();
    let blob = export.serialize();
    let back = NetworkExport::deserialize(&blob).unwrap();
    assert_eq!(back, export);
}

#[test]
fn export_round_trip_empty_members() {
    let mut export = sample_export();
    export.members = Vec::new();
    export.network.routes = Vec::new();
    export.network.rules = Vec::new();
    let blob = export.serialize();
    let back = NetworkExport::deserialize(&blob).unwrap();
    assert_eq!(back, export);
}

#[test]
fn serialization_is_deterministic() {
    assert_eq!(sample_export().serialize(), sample_export().serialize());
}

#[test]
fn deserialize_rejects_truncated_blob() {
    let mut blob = sample_export().serialize();
    blob.pop();
    assert!(NetworkExport::deserialize(&blob).is_none());
}

#[test]
fn deserialize_rejects_trailing_bytes() {
    let mut blob = sample_export().serialize();
    blob.push(0);
    assert!(NetworkExport::deserialize(&blob).is_none());
}

#[test]
fn deserialize_rejects_garbage() {
    assert!(NetworkExport::deserialize(&vec![0xff, 0x00, 0x13]).is_none());
    assert!(NetworkExport::deserialize(&Vec::new()).is_none());
}

#[test]
fn export_wf_checks_canonical_form() {
    assert!(sample_export().is_wf());
    let mut unsorted = sample_export();
    unsorted.members.swap(0, 1);
    assert!(!unsorted.is_wf());
    let mut duplicate = sample_export();
    duplicate.members[1].address = duplicate.members[0].address;
    assert!(!duplicate.is_wf());
    let mut bad_window = sample_export();
    bad_window.network.credential_window = -1;
    assert!(!bad_window.is_wf());
}

#[test]
fn deserialize_rejects_unknown_policy_tag() {
    let mut blob = vec![0u8; 8];
    blob.push(9);
    assert!(NetworkExport::deserialize(&blob).is_none());
}
