use netauth::AuthorizationResult;

fn all_variants() -> Vec<AuthorizationResult> {
    vec![
        AuthorizationResult::Rejected,
        AuthorizationResult::RejectedViaSSO,
        AuthorizationResult::RejectedViaToken,
        AuthorizationResult::RejectedTooOld,
        AuthorizationResult::RejectedDueToError,
        AuthorizationResult::RejectedIdentityMismatch,
        AuthorizationResult::Approved,
        AuthorizationResult::ApprovedViaSSO,
        AuthorizationResult::ApprovedViaToken,
        AuthorizationResult::ApprovedOnPublicNetwork,
    ]
}

#[test]
fn approved_partition_is_exact() {
    let approved = [
        AuthorizationResult::Approved,
        AuthorizationResult::ApprovedViaSSO,
        AuthorizationResult::ApprovedViaToken,
        AuthorizationResult::ApprovedOnPublicNetwork,
    ];
    for v in all_variants() {
        let in_approved = approved.contains(&v);
        assert_eq!(v.approved(), in_approved);
    }
}

#[test]
fn result_short_codes() {
    let expected = [
        (AuthorizationResult::Rejected, "r"),
        (AuthorizationResult::RejectedViaSSO, "rs"),
        (AuthorizationResult::RejectedViaToken, "rt"),
        (AuthorizationResult::RejectedTooOld, "ro"),
        (AuthorizationResult::RejectedDueToError, "re"),
        (AuthorizationResult::RejectedIdentityMismatch, "rm"),
        (AuthorizationResult::Approved, "a"),
        (AuthorizationResult::ApprovedViaSSO, "as"),
        (AuthorizationResult::ApprovedViaToken, "at"),
        (AuthorizationResult::ApprovedOnPublicNetwork, "ap"),
    ];
    for (v, code) in expected {
        assert_eq!(v.as_str(), code);
    }
}
