//! The stored records the policy evaluator and the synthesizer read:
//! one `Network` per virtual network, one `Member` per (network,
//! node) pair.  Both are owned by the storage collaborator; this core
//! only reads a snapshot of them.  Each record type has a ghost model
//! (its view), and every contract speaks over the models.

use vstd::prelude::*;

use crate::identity::{Address, Fingerprint, NetworkId, FINGERPRINT_SIZE};
use crate::util::copy_bytes;

verus! {

/// Membership policy of a network: how a node earns the right to a
/// configuration.  Exactly one policy is in force per network.
#[derive(Clone, Copy, PartialEq, Eq, Structural, Debug)]
pub enum AccessPolicy {
    /// Public network with no membership gating: every node with
    /// valid identity material is admitted.
    Open,
    /// Manual allow-list: a member is admitted iff its authorization
    /// flag is set.
    Manual,
    /// SSO-gated: a member is admitted on a valid signed assertion,
    /// unless explicitly revoked.
    Sso,
    /// Token-gated: a member is admitted on presenting the issued
    /// token before its expiry.
    Token,
}

/// One route of a network's configuration template.
#[derive(Clone, Copy, PartialEq, Eq, Structural, Debug)]
pub struct Route {
    pub target: u64,
    pub via: Option<u64>,
}

/// One firewall/traffic rule of a network's configuration template,
/// carried as an opaque encoded word.
#[derive(Clone, Copy, PartialEq, Eq, Structural, Debug)]
pub struct Rule {
    pub word: u64,
}

/// Ghost model of a `Network`.
pub ghost struct NetworkModel {
    pub id: NetworkId,
    pub policy: AccessPolicy,
    pub credential_window: i64,
    pub config_window: i64,
    pub routes: Seq<Route>,
    pub rules: Seq<Rule>,
    pub multicast_limit: u32,
}

impl NetworkModel {
    /// A well-formed network record: both windows are durations.
    pub open spec fn wf(self) -> bool {
        &&& self.credential_window >= 0
        &&& self.config_window >= 0
    }
}

/// One virtual network's stored configuration.  Mutated only by
/// network administrators; read by the evaluator and the
/// synthesizer.
#[derive(Clone, PartialEq, Eq, Debug)]
pub struct Network {
    pub id: NetworkId,
    pub policy: AccessPolicy,
    /// Longest accepted life of an SSO assertion or issued token,
    /// in the same clock unit as request timestamps.
    pub credential_window: i64,
    /// Freshness window stamped into every synthesized config.
    pub config_window: i64,
    /// Route template handed to approved members.
    pub routes: Vec<Route>,
    /// Rule-set template handed to approved members.
    pub rules: Vec<Rule>,
    /// Multicast policy template handed to approved members.
    pub multicast_limit: u32,
}

impl View for Network {
    type V = NetworkModel;

    open spec fn view(&self) -> NetworkModel {
        NetworkModel {
            id: self.id,
            policy: self.policy,
            credential_window: self.credential_window,
            config_window: self.config_window,
            routes: self.routes@,
            rules: self.rules@,
            multicast_limit: self.multicast_limit,
        }
    }
}

impl Network {
    /// Runtime form of the model's `wf`.
    pub fn is_wf(&self) -> (r: bool)
        ensures
            r == self@.wf(),
    {
        self.credential_window >= 0 && self.config_window >= 0
    }
}

/// A member's stored SSO claim binding: the subject of the last
/// accepted assertion and when that assertion expires.
#[derive(Clone, Copy, PartialEq, Eq, Structural, Debug)]
pub struct SsoBinding {
    pub subject: u64,
    pub expires_at: i64,
}

/// Ghost model of an `IssuedToken`.
pub ghost struct TokenModel {
    pub secret: Seq<u8>,
    pub expires_at: i64,
}

/// A token issued to a member by an administrator, with its expiry.
/// The secret is compared only through `crate::secure_eq`.
#[derive(Clone, PartialEq, Eq, Debug)]
pub struct IssuedToken {
    pub secret: Vec<u8>,
    pub expires_at: i64,
}

impl View for IssuedToken {
    type V = TokenModel;

    open spec fn view(&self) -> TokenModel {
        TokenModel { secret: self.secret@, expires_at: self.expires_at }
    }
}

/// Ghost model of a `Member`.
pub ghost struct MemberModel {
    pub address: Address,
    pub authorized: Option<bool>,
    pub fingerprint: Option<Seq<u8>>,
    pub sso: Option<SsoBinding>,
    pub token: Option<TokenModel>,
    pub revision: u64,
    pub removed: bool,
}

impl MemberModel {
    /// A well-formed member record: the address is valid and any
    /// fingerprint on file has the right length.
    pub open spec fn wf(self) -> bool {
        &&& self.address.wf()
        &&& match self.fingerprint {
            Some(f) => f.len() == FINGERPRINT_SIZE,
            None => true,
        }
    }
}

/// Per-(network, node) record.  Created on first join attempt or by
/// administrative pre-authorization; never physically deleted while
/// referenced by audit history (soft removal only).
#[derive(Clone, PartialEq, Eq, Debug)]
pub struct Member {
    pub address: Address,
    /// `None`: never set.  `Some(true)`: authorized.  `Some(false)`:
    /// explicitly revoked.
    pub authorized: Option<bool>,
    /// Fingerprint on file for this member's identity, once learned.
    pub fingerprint: Option<Fingerprint>,
    /// Stored SSO claim binding, refreshed on SSO approval.
    pub sso: Option<SsoBinding>,
    /// Issued-token record, set by administrative action.
    pub token: Option<IssuedToken>,
    /// Monotonically increasing revision counter, bumped on every
    /// write of this record; used to detect stale snapshots.
    pub revision: u64,
    /// Soft-removal marker: the record is kept for audit history.
    pub removed: bool,
}

impl View for Member {
    type V = MemberModel;

    open spec fn view(&self) -> MemberModel {
        MemberModel {
            address: self.address,
            authorized: self.authorized,
            fingerprint: match self.fingerprint {
                Some(f) => Some(f@),
                None => None,
            },
            sso: self.sso,
            token: match self.token {
                Some(t) => Some(t@),
                None => None,
            },
            revision: self.revision,
            removed: self.removed,
        }
    }
}

impl Member {
    /// Runtime form of the model's `wf`.
    pub fn is_wf(&self) -> (r: bool)
        ensures
            r == self@.wf(),
    {
        self.address.is_wf() && match &self.fingerprint {
            Some(f) => f.is_wf(),
            None => true,
        }
    }

    /// A fresh record holding the same fields.
    pub fn duplicate(&self) -> (r: Member)
        ensures
            r@ == self@,
    {
        Member {
            address: self.address,
            authorized: self.authorized,
            fingerprint: match &self.fingerprint {
                Some(f) => Some(f.duplicate()),
                None => None,
            },
            sso: self.sso,
            token: match &self.token {
                Some(t) => Some(IssuedToken { secret: copy_bytes(&t.secret), expires_at: t.expires_at }),
                None => None,
            },
            revision: self.revision,
            removed: self.removed,
        }
    }
}

} // verus!
