use netauth::{
    AccessPolicy, Address, AuthorizationResult, Fingerprint, IssuedToken, Member, Network,
    NetworkId, RequestClaims, RequestContext, Route, Rule, SsoAssertion, StaleRevision,
};

fn fingerprint(fill: u8) -> Fingerprint {
    Fingerprint { bytes: vec![fill; 48] }
}

fn network(policy: AccessPolicy) -> Network {
    Network {
        id: NetworkId { value: 0x1122334455667788 },
        policy,
        credential_window: 3600,
        config_window: 600,
        routes: vec![Route { target: 7, via: Some(9) }, Route { target: 8, via: None }],
        rules: vec![Rule { word: 0xabcd }],
        multicast_limit: 32,
    }
}

fn member(authorized: Option<bool>) -> Member {
    Member {
        address: Address { value: 0x2a },
        authorized,
        fingerprint: Some(fingerprint(0x11)),
        sso: None,
        token: None,
        revision: 5,
        removed: false,
    }
}

fn claims() -> RequestClaims {
    RequestClaims {
        claimed_address: Address { value: 0x2a },
        presented_fingerprint: fingerprint(0x11),
        identity_self_consistent: true,
        sso: None,
        token: None,
        timestamp: 1_000_000,
    }
}

fn ctx() -> RequestContext {
    RequestContext {
        controller_node_id: Address { value: 0xdeadbeef01 },
        source_remote_endpoint: netauth::Endpoint { ip0: 10, ip1: 0, ip2: 0, ip3: 5, port: 9993 },
        source_hops: 3,
        metadata: Vec::new(),
        peer_version: Some((1, 2, 3)),
        peer_protocol_version: Some(12),
    }
}

#[test]
fn public_network_no_member_approved() {
    let snapshot = Some((network(AccessPolicy::Open), None));
    let outcome = netauth::process_request(&snapshot, 0, &claims(), &ctx()).unwrap();
    assert_eq!(outcome.result, AuthorizationResult::ApprovedOnPublicNetwork);
    assert!(outcome.result.approved());
    let config = outcome.log_item.config.as_ref().unwrap();
    assert_eq!(config.network_id.value, 0x1122334455667788);
    assert_eq!(config.issued_to.value, 0x2a);
    assert_eq!(config.revision, 0);
    assert!(outcome.member_update.is_none());
}

#[test]
fn manual_network_unset_flag_rejected() {
    let snapshot = Some((network(AccessPolicy::Manual), Some(member(None))));
    let outcome = netauth::process_request(&snapshot, 5, &claims(), &ctx()).unwrap();
    assert_eq!(outcome.result, AuthorizationResult::Rejected);
    assert!(outcome.log_item.config.is_none());
}

#[test]
fn manual_network_authorized_approved() {
    let snapshot = Some((network(AccessPolicy::Manual), Some(member(Some(true)))));
    let outcome = netauth::process_request(&snapshot, 5, &claims(), &ctx()).unwrap();
    assert_eq!(outcome.result, AuthorizationResult::Approved);
    let config = outcome.log_item.config.as_ref().unwrap();
    assert_eq!(config.revision, 5);
    assert_eq!(config.validity_window, 600);
    assert_eq!(config.routes, network(AccessPolicy::Manual).routes);
    assert_eq!(config.rules, network(AccessPolicy::Manual).rules);
    assert_eq!(config.multicast_limit, 32);
}

fn token_member(expires_at: i64) -> Member {
    let mut m = member(Some(true));
    m.token = Some(IssuedToken { secret: vec![9, 9, 9, 9], expires_at });
    m
}

#[test]
fn token_match_but_expired_rejected_too_old() {
    let snapshot = Some((network(AccessPolicy::Token), Some(token_member(999_999))));
    let mut c = claims();
    c.token = Some(vec![9, 9, 9, 9]);
    let outcome = netauth::process_request(&snapshot, 5, &c, &ctx()).unwrap();
    assert_eq!(outcome.result, AuthorizationResult::RejectedTooOld);
    assert!(outcome.log_item.config.is_none());
}

#[test]
fn token_missing_rejected_via_token() {
    let snapshot = Some((network(AccessPolicy::Token), Some(token_member(2_000_000))));
    let outcome = netauth::process_request(&snapshot, 5, &claims(), &ctx()).unwrap();
    assert_eq!(outcome.result, AuthorizationResult::RejectedViaToken);
}

#[test]
fn token_mismatch_rejected_via_token() {
    let snapshot = Some((network(AccessPolicy::Token), Some(token_member(2_000_000))));
    let mut c = claims();
    c.token = Some(vec![9, 9, 9, 8]);
    let outcome = netauth::process_request(&snapshot, 5, &c, &ctx()).unwrap();
    assert_eq!(outcome.result, AuthorizationResult::RejectedViaToken);
}

#[test]
fn token_valid_approved_via_token() {
    let snapshot = Some((network(AccessPolicy::Token), Some(token_member(2_000_000))));
    let mut c = claims();
    c.token = Some(vec![9, 9, 9, 9]);
    let outcome = netauth::process_request(&snapshot, 5, &c, &ctx()).unwrap();
    assert_eq!(outcome.result, AuthorizationResult::ApprovedViaToken);
    assert!(outcome.log_item.config.is_some());
}

fn assertion() -> SsoAssertion {
    SsoAssertion {
        subject: 77,
        issued_at: 999_000,
        expires_at: 1_001_000,
        signature_valid: true,
    }
}

#[test]
fn sso_revoked_member_rejected() {
    let snapshot = Some((network(AccessPolicy::Sso), Some(member(Some(false)))));
    let mut c = claims();
    c.sso = Some(assertion());
    let outcome = netauth::process_request(&snapshot, 5, &c, &ctx()).unwrap();
    assert_eq!(outcome.result, AuthorizationResult::Rejected);
    assert!(outcome.log_item.config.is_none());
}

#[test]
fn sso_valid_approved_refreshes_binding() {
    let snapshot = Some((network(AccessPolicy::Sso), Some(member(None))));
    let mut c = claims();
    c.sso = Some(assertion());
    let outcome = netauth::process_request(&snapshot, 5, &c, &ctx()).unwrap();
    assert_eq!(outcome.result, AuthorizationResult::ApprovedViaSSO);
    let updated = outcome.member_update.unwrap();
    let binding = updated.sso.unwrap();
    assert_eq!(binding.subject, 77);
    assert_eq!(binding.expires_at, 1_001_000);
    assert_eq!(updated.revision, 6);
}

#[test]
fn sso_invalid_signature_rejected_via_sso() {
    let snapshot = Some((network(AccessPolicy::Sso), Some(member(Some(true)))));
    let mut c = claims();
    let mut a = assertion();
    a.signature_valid = false;
    c.sso = Some(a);
    let outcome = netauth::process_request(&snapshot, 5, &c, &ctx()).unwrap();
    assert_eq!(outcome.result, AuthorizationResult::RejectedViaSSO);
}

#[test]
fn sso_expired_rejected_via_sso() {
    let snapshot = Some((network(AccessPolicy::Sso), Some(member(Some(true)))));
    let mut c = claims();
    let mut a = assertion();
    a.expires_at = 999_500;
    c.sso = Some(a);
    let outcome = netauth::process_request(&snapshot, 5, &c, &ctx()).unwrap();
    assert_eq!(outcome.result, AuthorizationResult::RejectedViaSSO);
}

#[test]
fn sso_absent_rejected_via_sso() {
    let snapshot = Some((network(AccessPolicy::Sso), Some(member(Some(true)))));
    let outcome = netauth::process_request(&snapshot, 5, &claims(), &ctx()).unwrap();
    assert_eq!(outcome.result, AuthorizationResult::RejectedViaSSO);
}

#[test]
fn sso_assertion_longer_than_window_rejected_via_sso() {
    let snapshot = Some((network(AccessPolicy::Sso), Some(member(Some(true)))));
    let mut c = claims();
    let mut a = assertion();
    a.issued_at = 990_000;
    a.expires_at = 1_000_000_000;
    c.sso = Some(a);
    let outcome = netauth::process_request(&snapshot, 5, &c, &ctx()).unwrap();
    assert_eq!(outcome.result, AuthorizationResult::RejectedViaSSO);
}

#[test]
fn identity_mismatch_overrides_credentials() {
    // A matching token on a token network cannot save a request whose
    // recomputed fingerprint disagrees with the one on file.
    let snapshot = Some((network(AccessPolicy::Token), Some(token_member(2_000_000))));
    let mut c = claims();
    c.presented_fingerprint = fingerprint(0x12);
    c.token = Some(vec![9, 9, 9, 9]);
    let outcome = netauth::process_request(&snapshot, 5, &c, &ctx()).unwrap();
    assert_eq!(outcome.result, AuthorizationResult::RejectedIdentityMismatch);
    assert!(outcome.log_item.config.is_none());
}

#[test]
fn identity_mismatch_on_public_network() {
    let snapshot = Some((network(AccessPolicy::Open), None));
    let mut c = claims();
    c.identity_self_consistent = false;
    let outcome = netauth::process_request(&snapshot, 0, &c, &ctx()).unwrap();
    assert_eq!(outcome.result, AuthorizationResult::RejectedIdentityMismatch);
}

#[test]
fn storage_failure_rejected_due_to_error() {
    let snapshot = None;
    let outcome = netauth::process_request(&snapshot, 0, &claims(), &ctx()).unwrap();
    assert_eq!(outcome.result, AuthorizationResult::RejectedDueToError);
    assert!(outcome.log_item.config.is_none());
}

#[test]
fn malformed_member_rejected_due_to_error() {
    let mut bad = member(Some(true));
    bad.address = Address { value: 1 << 41 };
    let snapshot = Some((network(AccessPolicy::Manual), Some(bad)));
    let outcome = netauth::process_request(&snapshot, 5, &claims(), &ctx()).unwrap();
    assert_eq!(outcome.result, AuthorizationResult::RejectedDueToError);
}

#[test]
fn stale_revision_returns_err() {
    // A revocation write completed after the snapshot was read: the
    // store's revision moved past the snapshot's, and no config may
    // be served from the superseded record.
    let snapshot = Some((network(AccessPolicy::Manual), Some(member(Some(true)))));
    let r = netauth::process_request(&snapshot, 6, &claims(), &ctx());
    assert_eq!(r.unwrap_err(), StaleRevision);
}

#[test]
fn stale_revision_only_checked_on_approval() {
    let snapshot = Some((network(AccessPolicy::Manual), Some(member(Some(false)))));
    let outcome = netauth::process_request(&snapshot, 6, &claims(), &ctx()).unwrap();
    assert_eq!(outcome.result, AuthorizationResult::Rejected);
}

#[test]
fn removed_member_rejected_on_manual_network() {
    let mut m = member(Some(true));
    m.removed = true;
    let snapshot = Some((network(AccessPolicy::Manual), Some(m)));
    let outcome = netauth::process_request(&snapshot, 5, &claims(), &ctx()).unwrap();
    assert_eq!(outcome.result, AuthorizationResult::Rejected);
}

#[test]
fn removed_member_token_no_longer_grants() {
    let mut m = token_member(2_000_000);
    m.removed = true;
    let snapshot = Some((network(AccessPolicy::Token), Some(m)));
    let mut c = claims();
    c.token = Some(vec![9, 9, 9, 9]);
    let outcome = netauth::process_request(&snapshot, 5, &c, &ctx()).unwrap();
    assert_eq!(outcome.result, AuthorizationResult::RejectedViaToken);
}

#[test]
fn removed_member_rejoins_via_sso_with_fresh_record() {
    let mut m = member(Some(false));
    m.removed = true;
    let snapshot = Some((network(AccessPolicy::Sso), Some(m)));
    let mut c = claims();
    c.sso = Some(assertion());
    let outcome = netauth::process_request(&snapshot, 5, &c, &ctx()).unwrap();
    assert_eq!(outcome.result, AuthorizationResult::ApprovedViaSSO);
    let updated = outcome.member_update.unwrap();
    assert!(!updated.removed);
    assert_eq!(updated.authorized, None);
    assert_eq!(updated.revision, 6);
}

#[test]
fn log_item_mirrors_request() {
    let snapshot = Some((network(AccessPolicy::Manual), Some(member(Some(true)))));
    let outcome = netauth::process_request(&snapshot, 5, &claims(), &ctx()).unwrap();
    let item = &outcome.log_item;
    assert_eq!(item.network_id.value, 0x1122334455667788);
    assert_eq!(item.node_id.value, 0x2a);
    assert_eq!(item.controller_node_id.value, 0xdeadbeef01);
    assert_eq!(item.node_fingerprint.bytes, vec![0x11u8; 48]);
    assert_eq!(item.timestamp, 1_000_000);
    assert_eq!(item.source_hops, 3);
    assert_eq!(item.peer_version, Some((1, 2, 3)));
    assert_eq!(item.peer_protocol_version, Some(12));
    assert_eq!(item.result, AuthorizationResult::Approved);
}
