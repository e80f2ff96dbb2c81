//! Authorization policy evaluator: a pure decision function mapping
//! (network state, member state, request claims) to exactly one
//! `AuthorizationResult`.
//!
//! The whole decision order is stated once, as the spec function
//! `decision`; the executable evaluator is proved to return exactly
//! that.

use vstd::prelude::*;

use crate::crypto::secure_eq;
use crate::identity::{Address, Fingerprint};
use crate::model::AuthorizationResult;
use crate::records::{AccessPolicy, Member, MemberModel, Network, NetworkModel, SsoBinding, TokenModel};

verus! {

/// A signed, time-bounded claim issued by an external identity
/// provider.  The signature itself is checked by the cryptographic
/// primitive layer below this core; `signature_valid` carries its
/// verdict, and this core decides everything above it (expiry,
/// window, revocation).
#[derive(Clone, Copy, PartialEq, Eq, Structural, Debug)]
pub struct SsoAssertion {
    pub subject: u64,
    pub issued_at: i64,
    pub expires_at: i64,
    /// Verdict of the identity layer's signature verification over
    /// the assertion bytes.
    pub signature_valid: bool,
}

/// Ghost model of `RequestClaims`.
pub ghost struct ClaimsModel {
    pub claimed_address: Address,
    pub presented_fingerprint: Seq<u8>,
    pub identity_self_consistent: bool,
    pub sso: Option<SsoAssertion>,
    pub token: Option<Seq<u8>>,
    pub timestamp: i64,
}

/// What a join/config request claims: an address, the fingerprint
/// recomputed by the identity layer from the presented identity
/// material, and optional SSO/token credentials.
#[derive(Clone, PartialEq, Eq, Debug)]
pub struct RequestClaims {
    pub claimed_address: Address,
    /// Fingerprint recomputed from the presented identity material.
    pub presented_fingerprint: Fingerprint,
    /// Verdict of the identity layer: the claimed address really
    /// derives from the presented identity material.
    pub identity_self_consistent: bool,
    pub sso: Option<SsoAssertion>,
    pub token: Option<Vec<u8>>,
    /// Wall-clock timestamp the request was observed at.
    pub timestamp: i64,
}

impl View for RequestClaims {
    type V = ClaimsModel;

    open spec fn view(&self) -> ClaimsModel {
        ClaimsModel {
            claimed_address: self.claimed_address,
            presented_fingerprint: self.presented_fingerprint@,
            identity_self_consistent: self.identity_self_consistent,
            sso: self.sso,
            token: match self.token {
                Some(ref t) => Some(t@),
                None => None,
            },
            timestamp: self.timestamp,
        }
    }
}

/// A soft-removed record no longer grants or binds anything: the
/// evaluator reads it as absent.  The record itself stays in the
/// store for audit history, and its revision counter still guards
/// the conditional write.
pub open spec fn live(member: Option<MemberModel>) -> Option<MemberModel> {
    match member {
        Some(m) => if m.removed {
            None
        } else {
            Some(m)
        },
        None => None,
    }
}

/// The fingerprint on file for the member, if any.
pub open spec fn on_file_fingerprint(member: Option<MemberModel>) -> Option<Seq<u8>> {
    match member {
        Some(m) => m.fingerprint,
        None => None,
    }
}

/// The member's authorization flag, if a record exists.
pub open spec fn authorized_flag(member: Option<MemberModel>) -> Option<bool> {
    match member {
        Some(m) => m.authorized,
        None => None,
    }
}

/// The member's issued-token record, if any.
pub open spec fn token_record(member: Option<MemberModel>) -> Option<TokenModel> {
    match member {
        Some(m) => m.token,
        None => None,
    }
}

/// The identity check: the recomputed fingerprint must agree with
/// the one on file; with no prior fingerprint on file, the claimed
/// address must derive from the presented identity material.
pub open spec fn identity_ok(member: Option<MemberModel>, claims: ClaimsModel) -> bool {
    match on_file_fingerprint(member) {
        Some(f) => f == claims.presented_fingerprint,
        None => claims.identity_self_consistent,
    }
}

/// An SSO assertion is valid when its signature verified, the
/// request's timestamp lies inside its lifetime, and that lifetime
/// is no longer than the network's validity window.
pub open spec fn sso_assertion_valid(network: NetworkModel, a: SsoAssertion, now: i64) -> bool {
    &&& a.signature_valid
    &&& a.issued_at <= now < a.expires_at
    &&& a.expires_at - a.issued_at <= network.credential_window
}

/// The decision order, first matching rule wins:
/// identity mismatch, public network, SSO gate, token gate, manual
/// allow-list.  A soft-removed member record counts as absent
/// throughout.
pub open spec fn decision(
    network: NetworkModel,
    snapshot: Option<MemberModel>,
    claims: ClaimsModel,
) -> AuthorizationResult {
    let member = live(snapshot);
    if !identity_ok(member, claims) {
        AuthorizationResult::RejectedIdentityMismatch
    } else if network.policy is Open {
        AuthorizationResult::ApprovedOnPublicNetwork
    } else if network.policy is Sso {
        match claims.sso {
            None => AuthorizationResult::RejectedViaSSO,
            Some(a) => if !sso_assertion_valid(network, a, claims.timestamp) {
                AuthorizationResult::RejectedViaSSO
            } else if authorized_flag(member) == Some(false) {
                AuthorizationResult::Rejected
            } else {
                AuthorizationResult::ApprovedViaSSO
            },
        }
    } else if network.policy is Token {
        match (token_record(member), claims.token) {
            (Some(t), Some(p)) => if t.secret != p {
                AuthorizationResult::RejectedViaToken
            } else if t.expires_at <= claims.timestamp {
                AuthorizationResult::RejectedTooOld
            } else {
                AuthorizationResult::ApprovedViaToken
            },
            _ => AuthorizationResult::RejectedViaToken,
        }
    } else {
        if authorized_flag(member) == Some(true) {
            AuthorizationResult::Approved
        } else {
            AuthorizationResult::Rejected
        }
    }
}

/// Identity errors dominate: whenever the identity check fails, the
/// decision is exactly `RejectedIdentityMismatch`, regardless of any
/// other valid credential presented.
pub proof fn lemma_identity_mismatch_rejects(
    network: NetworkModel,
    member: Option<MemberModel>,
    claims: ClaimsModel,
)
    requires
        !identity_ok(live(member), claims),
    ensures
        decision(network, member, claims) == AuthorizationResult::RejectedIdentityMismatch,
{
}

/// The member record as it must be written back after an SSO
/// approval: the claim binding refreshed from the accepted
/// assertion, the presented fingerprint learned if none was on
/// file, and the revision bumped for the conditional write.  A
/// soft-removed record is not resurrected: the fresh record starts
/// over.
pub open spec fn refreshed_member(
    member: Option<MemberModel>,
    claims: ClaimsModel,
    a: SsoAssertion,
) -> MemberModel {
    let base = match live(member) {
        Some(m) => m,
        None => MemberModel {
            address: claims.claimed_address,
            authorized: None,
            fingerprint: None,
            sso: None,
            token: None,
            revision: 0,
            removed: false,
        },
    };
    let prior_revision = match member {
        Some(m) => m.revision,
        None => 0u64,
    };
    MemberModel {
        sso: Some(SsoBinding { subject: a.subject, expires_at: a.expires_at }),
        fingerprint: match base.fingerprint {
            Some(f) => Some(f),
            None => Some(claims.presented_fingerprint),
        },
        revision: (prior_revision + 1) as u64,
        ..base
    }
}

/// What one evaluation produced: the terminal result, and the member
/// record to write back when the decision mutated it (an SSO claim
/// refresh).
pub struct Evaluation {
    pub result: AuthorizationResult,
    pub member_update: Option<Member>,
}

/// Evaluate one join/config request against a consistent snapshot of
/// the network and member records.  Pure: reads only its arguments.
pub fn evaluate(network: &Network, member: &Option<Member>, claims: &RequestClaims) -> (ev:
    Evaluation)
    requires
        match member {
            Some(m) => m.revision < u64::MAX,
            None => true,
        },
    ensures
        ev.result == decision(network@, member_snapshot(*member), claims@),
        ev.result == AuthorizationResult::ApprovedViaSSO ==> (ev.member_update matches Some(u)
            && claims@.sso matches Some(a)
            && u@ == refreshed_member(member_snapshot(*member), claims@, a)),
        ev.result != AuthorizationResult::ApprovedViaSSO ==> ev.member_update is None,
{
    let identity_good: bool = match member {
        Some(m) => {
            if m.removed {
                claims.identity_self_consistent
            } else {
                match &m.fingerprint {
                    Some(f) => secure_eq(
                        f.bytes.as_slice(),
                        claims.presented_fingerprint.bytes.as_slice(),
                    ),
                    None => claims.identity_self_consistent,
                }
            }
        },
        None => claims.identity_self_consistent,
    };
    if !identity_good {
        return Evaluation { result: AuthorizationResult::RejectedIdentityMismatch, member_update: None };
    }
    match network.policy {
        AccessPolicy::Open => Evaluation {
            result: AuthorizationResult::ApprovedOnPublicNetwork,
            member_update: None,
        },
        AccessPolicy::Sso => {
            match &claims.sso {
                None => Evaluation { result: AuthorizationResult::RejectedViaSSO, member_update: None },
                Some(a) => {
                    let in_lifetime: bool = a.issued_at <= claims.timestamp
                        && claims.timestamp < a.expires_at;
                    let in_window: bool = (a.expires_at as i128) - (a.issued_at as i128)
                        <= (network.credential_window as i128);
                    if !(a.signature_valid && in_lifetime && in_window) {
                        Evaluation { result: AuthorizationResult::RejectedViaSSO, member_update: None }
                    } else if member_revoked(member) {
                        Evaluation { result: AuthorizationResult::Rejected, member_update: None }
                    } else {
                        let updated = refresh_member(member, claims, *a);
                        Evaluation {
                            result: AuthorizationResult::ApprovedViaSSO,
                            member_update: Some(updated),
                        }
                    }
                },
            }
        },
        AccessPolicy::Token => {
            let token_good: bool = match (member_token(member), &claims.token) {
                (Some(t), Some(p)) => secure_eq(t.secret.as_slice(), p.as_slice()),
                _ => false,
            };
            if !token_good {
                Evaluation { result: AuthorizationResult::RejectedViaToken, member_update: None }
            } else {
                let expired: bool = match member_token(member) {
                    Some(t) => t.expires_at <= claims.timestamp,
                    None => false,
                };
                if expired {
                    Evaluation { result: AuthorizationResult::RejectedTooOld, member_update: None }
                } else {
                    Evaluation { result: AuthorizationResult::ApprovedViaToken, member_update: None }
                }
            }
        },
        AccessPolicy::Manual => {
            let allowed: bool = match member {
                Some(m) => !m.removed && m.authorized == Some(true),
                None => false,
            };
            if allowed {
                Evaluation { result: AuthorizationResult::Approved, member_update: None }
            } else {
                Evaluation { result: AuthorizationResult::Rejected, member_update: None }
            }
        },
    }
}

/// The model of an optional member snapshot.
pub open spec fn member_snapshot(member: Option<Member>) -> Option<MemberModel> {
    match member {
        Some(m) => Some(m@),
        None => None,
    }
}

/// True when a live record exists and its flag was explicitly
/// revoked.
fn member_revoked(member: &Option<Member>) -> (r: bool)
    ensures
        r == (authorized_flag(live(member_snapshot(*member))) == Some(false)),
{
    match member {
        Some(m) => !m.removed && m.authorized == Some(false),
        None => false,
    }
}

/// The live record's issued-token record, borrowed.
fn member_token(member: &Option<Member>) -> (r: Option<&crate::records::IssuedToken>)
    ensures
        match r {
            Some(t) => token_record(live(member_snapshot(*member))) == Some(t@),
            None => token_record(live(member_snapshot(*member))) is None,
        },
{
    match member {
        Some(m) => {
            if m.removed {
                None
            } else {
                match &m.token {
                    Some(t) => Some(t),
                    None => None,
                }
            }
        },
        None => None,
    }
}

/// Build the written-back record of an SSO approval.
fn refresh_member(member: &Option<Member>, claims: &RequestClaims, a: SsoAssertion) -> (r: Member)
    requires
        match member {
            Some(m) => m.revision < u64::MAX,
            None => true,
        },
    ensures
        r@ == refreshed_member(member_snapshot(*member), claims@, a),
{
    let existing: Option<&Member> = match member {
        Some(m) => if m.removed {
            None
        } else {
            Some(m)
        },
        None => None,
    };
    let base: Member = match existing {
        Some(m) => m.duplicate(),
        None => Member {
            address: claims.claimed_address,
            authorized: None,
            fingerprint: None,
            sso: None,
            token: None,
            revision: 0,
            removed: false,
        },
    };
    let prior_revision: u64 = match member {
        Some(m) => m.revision,
        None => 0,
    };
    let fingerprint = match base.fingerprint {
        Some(f) => Some(f),
        None => Some(claims.presented_fingerprint.duplicate()),
    };
    Member {
        sso: Some(SsoBinding { subject: a.subject, expires_at: a.expires_at }),
        fingerprint,
        revision: prior_revision + 1,
        ..base
    }
}

} // verus!
