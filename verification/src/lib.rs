//! Authorization control plane for a virtual-network overlay.
//!
//! The library decides, for every node attempting to join a virtual
//! network, whether that node is permitted, and what network
//! configuration an approved member receives.  It is written as pure
//! functions over plain values: the transport listener and the
//! persistent store are collaborators that call into it.

mod audit;
mod codec;
mod crypto;
mod flow;
mod format;
mod identity;
mod model;
mod policy;
mod records;
mod synth;
mod util;

pub use audit::{in_window, AuditLog};
pub use codec::{
    dec_export, dec_member, dec_network, deserialized, enc_export, enc_member, enc_network,
    export_encodable, lemma_export_round_trip, member_encodable, network_encodable,
};
pub use crypto::secure_eq;
pub use flow::{
    process_request, reported_result, snapshot_good, snapshot_revision, Outcome, RequestContext,
    Snapshot,
};
pub use format::{dec_digits, dec_i64, digit_char, endpoint_chars, hex_fixed, line_of};
pub use identity::{Address, Endpoint, Fingerprint, NetworkId, FINGERPRINT_SIZE};
pub use model::{
    is_approved, is_rejected, lemma_result_partition, result_code, AuthorizationResult,
    ExportModel, LogItemModel, NetworkExport, RequestLogItem,
};
pub use policy::{
    authorized_flag, decision, evaluate, identity_ok, lemma_identity_mismatch_rejects, live,
    member_snapshot, on_file_fingerprint, refreshed_member, sso_assertion_valid, token_record,
    ClaimsModel, Evaluation, RequestClaims, SsoAssertion,
};
pub use records::{
    AccessPolicy, IssuedToken, Member, MemberModel, Network, NetworkModel, Route, Rule,
    SsoBinding, TokenModel,
};
pub use synth::{
    lemma_synthesis_idempotent, synthesize, synthesized, ConfigModel, NetworkConfig,
    StaleRevision,
};
