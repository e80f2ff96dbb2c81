//! Control flow of one join/config request: evaluate the policy,
//! synthesize a config on approval, and build the audit record.
//! Every path ends in a terminal outcome; nothing propagates as an
//! unhandled fault past this layer.

use vstd::prelude::*;

use crate::identity::{Address, Endpoint, NetworkId};
use crate::model::{is_approved, AuthorizationResult, RequestLogItem};
use crate::policy::{decision, evaluate, member_snapshot, refreshed_member, RequestClaims};
use crate::records::{Member, Network};
use crate::synth::{synthesize, synthesized, StaleRevision};

verus! {

/// Request metadata that travels into the audit record but not into
/// the decision: who we are, where the request came from, and what
/// the peer reported about itself.
#[derive(Clone, PartialEq, Eq, Debug)]
pub struct RequestContext {
    pub controller_node_id: Address,
    pub source_remote_endpoint: Endpoint,
    pub source_hops: u8,
    pub metadata: Vec<u8>,
    pub peer_version: Option<(u8, u8, u16)>,
    pub peer_protocol_version: Option<u8>,
}

/// The consistent snapshot of the stored records a request is
/// evaluated against.  `None` stands for a storage read failure or
/// an unknown network: the decision is then `RejectedDueToError`.
pub type Snapshot = Option<(Network, Option<Member>)>;

/// One request's terminal outcome: the result, the audit record
/// (carrying the issued config exactly when approved), and the
/// member record to hand to the store's conditional write.
#[derive(Debug)]
pub struct Outcome {
    pub result: AuthorizationResult,
    pub log_item: RequestLogItem,
    pub member_update: Option<Member>,
}

/// The member revision of a snapshot; zero where no record exists.
pub open spec fn snapshot_revision(member: Option<crate::records::MemberModel>) -> u64 {
    match member {
        Some(m) => m.revision,
        None => 0,
    }
}

/// Whether a snapshot is usable: present and well formed.
pub open spec fn snapshot_good(snapshot: Snapshot) -> bool {
    match snapshot {
        Some((network, member)) => network@.wf() && match member {
            Some(m) => m@.wf(),
            None => true,
        },
        None => false,
    }
}

/// The result `process_request` must report for a snapshot and a
/// set of claims: the policy decision where the snapshot is usable,
/// `RejectedDueToError` where it is not.
pub open spec fn reported_result(snapshot: Snapshot, claims: RequestClaims) -> AuthorizationResult {
    match snapshot {
        Some((network, member)) => if snapshot_good(snapshot) {
            decision(network@, member_snapshot(member), claims@)
        } else {
            AuthorizationResult::RejectedDueToError
        },
        None => AuthorizationResult::RejectedDueToError,
    }
}

/// Decide one join/config request and assemble its terminal
/// outcome.
///
/// `latest_revision` is the store's member revision for the same key
/// at synthesis time (zero where no record exists now).  On an
/// approved result it is held against the snapshot's revision: any
/// difference means an administrative write — possibly a revocation
/// — completed after the snapshot was read, and the call reports
/// `StaleRevision` instead of emitting a config, so no approval is
/// ever served from a superseded snapshot.
///
/// On `Ok`, the audit record is well formed: it carries a config
/// exactly when the result is approved, and mirrors the claims and
/// the context field by field.
pub fn process_request(
    snapshot: &Snapshot,
    latest_revision: u64,
    claims: &RequestClaims,
    ctx: &RequestContext,
) -> (r: Result<Outcome, StaleRevision>)
    requires
        (match snapshot {
            Some((_, Some(m))) => m.revision < u64::MAX,
            _ => true,
        }),
        claims.presented_fingerprint.wf(),
        claims.claimed_address.wf(),
        ctx.controller_node_id.wf(),
    ensures
        ({
            let res = reported_result(*snapshot, *claims);
            let snap_rev = (match *snapshot {
                Some((_, member)) => snapshot_revision(member_snapshot(member)),
                None => 0u64,
            });
            &&& (r is Err <==> is_approved(res) && snap_rev != latest_revision)
            &&& (r matches Ok(o) ==> {
                &&& o.result == res
                &&& o.log_item@.wf()
                &&& o.log_item@.result == res
                &&& (o.log_item@.config is Some <==> is_approved(res))
                &&& (match *snapshot {
                    Some((network, _)) => is_approved(res) ==> o.log_item@.config == Some(
                        synthesized(network@, claims.claimed_address, snap_rev),
                    ),
                    None => true,
                })
                &&& o.log_item@.network_id == (match *snapshot {
                    Some((network, _)) => network.id,
                    None => NetworkId { value: 0 },
                })
                &&& o.log_item@.node_id == claims.claimed_address
                &&& o.log_item@.node_fingerprint == claims.presented_fingerprint@
                &&& o.log_item@.controller_node_id == ctx.controller_node_id
                &&& o.log_item@.metadata == ctx.metadata@
                &&& o.log_item@.peer_version == ctx.peer_version
                &&& o.log_item@.peer_protocol_version == ctx.peer_protocol_version
                &&& o.log_item@.timestamp == claims.timestamp
                &&& o.log_item@.source_remote_endpoint == ctx.source_remote_endpoint
                &&& o.log_item@.source_hops == ctx.source_hops
                &&& (match *snapshot {
                    Some((_, member)) => o.result == AuthorizationResult::ApprovedViaSSO ==> (
                    o.member_update matches Some(u) && claims@.sso matches Some(a)
                        && u@ == refreshed_member(member_snapshot(member), claims@, a)),
                    None => true,
                })
                &&& (o.result != AuthorizationResult::ApprovedViaSSO
                    ==> o.member_update is None)
            })
        }),
{
    let (result, member_update, network_opt): (
        AuthorizationResult,
        Option<Member>,
        Option<&Network>,
    ) = match snapshot {
        Some((network, member)) => {
            let member_good: bool = match member {
                Some(m) => m.is_wf(),
                None => true,
            };
            if network.is_wf() && member_good {
                let ev = evaluate(network, member, claims);
                (ev.result, ev.member_update, Some(network))
            } else {
                (AuthorizationResult::RejectedDueToError, None, Some(network))
            }
        },
        None => (AuthorizationResult::RejectedDueToError, None, None),
    };

    let config = if result.approved() {
        let network = match network_opt {
            Some(n) => n,
            None => {
                // An approved result only arises from a usable snapshot.
                proof {
                    assert(false);
                }
                return Err(StaleRevision);
            },
        };
        let snap_rev: u64 = match snapshot {
            Some((_, Some(m))) => m.revision,
            _ => 0,
        };
        match synthesize(network, claims.claimed_address, snap_rev, latest_revision) {
            Ok(c) => Some(c),
            Err(stale) => {
                return Err(stale);
            },
        }
    } else {
        None
    };

    let network_id = match network_opt {
        Some(n) => n.id,
        None => NetworkId { value: 0 },
    };

    let log_item = RequestLogItem {
        network_id,
        node_id: claims.claimed_address,
        node_fingerprint: claims.presented_fingerprint.duplicate(),
        controller_node_id: ctx.controller_node_id,
        metadata: crate::util::copy_bytes(&ctx.metadata),
        peer_version: ctx.peer_version,
        peer_protocol_version: ctx.peer_protocol_version,
        timestamp: claims.timestamp,
        source_remote_endpoint: ctx.source_remote_endpoint,
        source_hops: ctx.source_hops,
        result,
        config,
    };

    Ok(Outcome { result, log_item, member_update })
}

} // verus!
