//! The decision result, the audit record, and the export snapshot.

use vstd::prelude::*;

use crate::identity::{Address, Endpoint, Fingerprint, NetworkId};
use crate::records::{Member, MemberModel, Network, NetworkModel};
use crate::synth::{ConfigModel, NetworkConfig};

verus! {

/// Closed enumeration of the ten terminal outcomes of an
/// authorization decision, partitioned into rejected and approved.
///
/// Any code that asks "may this member receive a config" must test
/// partition membership through `approved`, never compare against a
/// single variant, so that adding an approval path never silently
/// fails open or closed.
#[derive(Clone, Copy, PartialEq, Eq, Structural, Debug)]
pub enum AuthorizationResult {
    Rejected,
    RejectedViaSSO,
    RejectedViaToken,
    RejectedTooOld,
    RejectedDueToError,
    RejectedIdentityMismatch,
    Approved,
    ApprovedViaSSO,
    ApprovedViaToken,
    ApprovedOnPublicNetwork,
}

/// The approved side of the partition, spelled out variant by
/// variant.
pub open spec fn is_approved(r: AuthorizationResult) -> bool {
    match r {
        AuthorizationResult::Approved => true,
        AuthorizationResult::ApprovedViaSSO => true,
        AuthorizationResult::ApprovedViaToken => true,
        AuthorizationResult::ApprovedOnPublicNetwork => true,
        _ => false,
    }
}

/// The rejected side of the partition, spelled out variant by
/// variant.
pub open spec fn is_rejected(r: AuthorizationResult) -> bool {
    match r {
        AuthorizationResult::Rejected => true,
        AuthorizationResult::RejectedViaSSO => true,
        AuthorizationResult::RejectedViaToken => true,
        AuthorizationResult::RejectedTooOld => true,
        AuthorizationResult::RejectedDueToError => true,
        AuthorizationResult::RejectedIdentityMismatch => true,
        _ => false,
    }
}

/// Partition safety: every variant lies in exactly one of the two
/// sets, and `approved` answers for the approved set.
pub proof fn lemma_result_partition(r: AuthorizationResult)
    ensures
        is_approved(r) != is_rejected(r),
{
}

/// The short result code of each variant, as rendered in log lines.
pub open spec fn result_code(r: AuthorizationResult) -> Seq<char> {
    match r {
        AuthorizationResult::Rejected => "r"@,
        AuthorizationResult::RejectedViaSSO => "rs"@,
        AuthorizationResult::RejectedViaToken => "rt"@,
        AuthorizationResult::RejectedTooOld => "ro"@,
        AuthorizationResult::RejectedDueToError => "re"@,
        AuthorizationResult::RejectedIdentityMismatch => "rm"@,
        AuthorizationResult::Approved => "a"@,
        AuthorizationResult::ApprovedViaSSO => "as"@,
        AuthorizationResult::ApprovedViaToken => "at"@,
        AuthorizationResult::ApprovedOnPublicNetwork => "ap"@,
    }
}

impl AuthorizationResult {
    /// Short code naming this result.
    pub fn as_str(&self) -> (r: &'static str)
        ensures
            r@ == result_code(*self),
    {
        match self {
            Self::Rejected => "r",
            Self::RejectedViaSSO => "rs",
            Self::RejectedViaToken => "rt",
            Self::RejectedTooOld => "ro",
            Self::RejectedDueToError => "re",
            Self::RejectedIdentityMismatch => "rm",
            Self::Approved => "a",
            Self::ApprovedViaSSO => "as",
            Self::ApprovedViaToken => "at",
            Self::ApprovedOnPublicNetwork => "ap",
        }
    }

    /// Returns true if this result is one of the 'approved' result
    /// types.
    pub fn approved(&self) -> (r: bool)
        ensures
            r == is_approved(*self),
    {
        match self {
            Self::Approved | Self::ApprovedViaSSO | Self::ApprovedViaToken
            | Self::ApprovedOnPublicNetwork => true,
            _ => false,
        }
    }
}

/// Ghost model of a `RequestLogItem`.
pub ghost struct LogItemModel {
    pub network_id: NetworkId,
    pub node_id: Address,
    pub node_fingerprint: Seq<u8>,
    pub controller_node_id: Address,
    pub metadata: Seq<u8>,
    pub peer_version: Option<(u8, u8, u16)>,
    pub peer_protocol_version: Option<u8>,
    pub timestamp: i64,
    pub source_remote_endpoint: Endpoint,
    pub source_hops: u8,
    pub result: AuthorizationResult,
    pub config: Option<ConfigModel>,
}

impl LogItemModel {
    /// A config is attached exactly when the result is approved, and
    /// the identifying fields are valid.  A record that breaks the
    /// first clause is a logic error and must never reach the log.
    pub open spec fn wf(self) -> bool {
        &&& self.config is Some <==> is_approved(self.result)
        &&& self.node_id.wf()
        &&& self.controller_node_id.wf()
        &&& self.node_fingerprint.len() == crate::identity::FINGERPRINT_SIZE
    }
}

/// One immutable audit record of an authorization decision.
#[derive(Clone, PartialEq, Eq, Debug)]
pub struct RequestLogItem {
    pub network_id: NetworkId,
    pub node_id: Address,
    pub node_fingerprint: Fingerprint,
    pub controller_node_id: Address,
    /// Opaque request metadata blob.
    pub metadata: Vec<u8>,
    /// Peer software version (major, minor, revision), when known.
    pub peer_version: Option<(u8, u8, u16)>,
    pub peer_protocol_version: Option<u8>,
    /// Wall-clock timestamp the request was observed at.
    pub timestamp: i64,
    pub source_remote_endpoint: Endpoint,
    pub source_hops: u8,
    pub result: AuthorizationResult,
    /// Present exactly when the result is approved.
    pub config: Option<NetworkConfig>,
}

impl View for RequestLogItem {
    type V = LogItemModel;

    open spec fn view(&self) -> LogItemModel {
        LogItemModel {
            network_id: self.network_id,
            node_id: self.node_id,
            node_fingerprint: self.node_fingerprint@,
            controller_node_id: self.controller_node_id,
            metadata: self.metadata@,
            peer_version: self.peer_version,
            peer_protocol_version: self.peer_protocol_version,
            timestamp: self.timestamp,
            source_remote_endpoint: self.source_remote_endpoint,
            source_hops: self.source_hops,
            result: self.result,
            config: match self.config {
                Some(c) => Some(c@),
                None => None,
            },
        }
    }
}

impl RequestLogItem {
    /// A fresh record holding the same fields.
    pub fn duplicate(&self) -> (r: RequestLogItem)
        ensures
            r@ == self@,
    {
        RequestLogItem {
            network_id: self.network_id,
            node_id: self.node_id,
            node_fingerprint: self.node_fingerprint.duplicate(),
            controller_node_id: self.controller_node_id,
            metadata: crate::util::copy_bytes(&self.metadata),
            peer_version: self.peer_version,
            peer_protocol_version: self.peer_protocol_version,
            timestamp: self.timestamp,
            source_remote_endpoint: self.source_remote_endpoint,
            source_hops: self.source_hops,
            result: self.result,
            config: match &self.config {
                Some(c) => Some(c.duplicate()),
                None => None,
            },
        }
    }
}

/// Ghost model of a `NetworkExport`.
pub ghost struct ExportModel {
    pub network: NetworkModel,
    pub members: Seq<MemberModel>,
}

impl ExportModel {
    /// Addresses strictly increase, so each address appears at most
    /// once and the member list is canonical; every record is
    /// well formed.
    pub open spec fn wf(self) -> bool {
        &&& self.network.wf()
        &&& forall|i: int, j: int|
            0 <= i < j < self.members.len()
                ==> self.members[i].address.value < self.members[j].address.value
        &&& forall|i: int| 0 <= i < self.members.len() ==> (#[trigger] self.members[i]).wf()
    }
}

/// A complete network with all member records, for import/export or
/// blob storage.  Members are kept sorted by strictly increasing
/// address, so a snapshot has one canonical form and one encoding.
#[derive(Clone, PartialEq, Eq, Debug)]
pub struct NetworkExport {
    pub network: Network,
    pub members: Vec<Member>,
}

impl View for NetworkExport {
    type V = ExportModel;

    open spec fn view(&self) -> ExportModel {
        ExportModel {
            network: self.network@,
            members: self.members@.map_values(|m: Member| m@),
        }
    }
}

impl NetworkExport {
    /// Runtime form of the model's `wf`: whether this snapshot is in
    /// canonical form.  Checked on import; `serialize` output of a
    /// canonical snapshot decodes back to one.
    pub fn is_wf(&self) -> (r: bool)
        ensures
            r == self@.wf(),
    {
        proof {
            assert(self@.members.len() == self.members@.len());
        }
        if !self.network.is_wf() {
            return false;
        }
        let mut i: usize = 0;
        while i < self.members.len()
            invariant
                i <= self.members@.len(),
                self@.members.len() == self.members@.len(),
                forall|k: int| 0 <= k < i ==> (#[trigger] self@.members[k]).wf(),
                forall|k: int, l: int|
                    0 <= k < l < i ==> self@.members[k].address.value
                        < self@.members[l].address.value,
            decreases self.members@.len() - i,
        {
            proof {
                assert(self@.members[i as int] == self.members@[i as int]@);
            }
            if !self.members[i].is_wf() {
                return false;
            }
            if i > 0 {
                proof {
                    assert(self@.members[i as int - 1] == self.members@[i as int - 1]@);
                }
                if self.members[i - 1].address.value >= self.members[i].address.value {
                    return false;
                }
            }
            i = i + 1;
        }
        true
    }
}

} // verus!
