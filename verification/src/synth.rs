//! Network configuration synthesizer: builds the configuration
//! payload handed to an approved member, and refuses to build one
//! from a stale member snapshot.

use vstd::prelude::*;

use crate::identity::{Address, NetworkId};
use crate::records::{Network, NetworkModel, Route, Rule};
use crate::util::copy_vec;

verus! {

/// Ghost model of a `NetworkConfig`.
pub ghost struct ConfigModel {
    pub network_id: NetworkId,
    pub issued_to: Address,
    pub revision: u64,
    pub validity_window: i64,
    pub routes: Seq<Route>,
    pub rules: Seq<Rule>,
    pub multicast_limit: u32,
}

/// The configuration payload issued to an approved member: routes,
/// rules and multicast parameters from the network's template,
/// stamped with the member's revision counter and a freshness
/// window.  Consumed unmodified by the transport/hypervisor layer.
#[derive(Clone, PartialEq, Eq, Debug)]
pub struct NetworkConfig {
    pub network_id: NetworkId,
    pub issued_to: Address,
    /// Member revision this config was synthesized against.
    pub revision: u64,
    /// Freshness window, from the network's template.
    pub validity_window: i64,
    pub routes: Vec<Route>,
    pub rules: Vec<Rule>,
    pub multicast_limit: u32,
}

impl View for NetworkConfig {
    type V = ConfigModel;

    open spec fn view(&self) -> ConfigModel {
        ConfigModel {
            network_id: self.network_id,
            issued_to: self.issued_to,
            revision: self.revision,
            validity_window: self.validity_window,
            routes: self.routes@,
            rules: self.rules@,
            multicast_limit: self.multicast_limit,
        }
    }
}

impl NetworkConfig {
    /// A fresh config holding the same fields.
    pub fn duplicate(&self) -> (r: NetworkConfig)
        ensures
            r@ == self@,
    {
        NetworkConfig {
            network_id: self.network_id,
            issued_to: self.issued_to,
            revision: self.revision,
            validity_window: self.validity_window,
            routes: copy_vec(&self.routes),
            rules: copy_vec(&self.rules),
            multicast_limit: self.multicast_limit,
        }
    }
}

/// The member snapshot a decision was computed against has been
/// superseded by a later write; the caller must re-read and
/// re-evaluate.  Not a trust decision, so it is not an
/// `AuthorizationResult`.
#[derive(Clone, Copy, PartialEq, Eq, Structural, Debug)]
pub struct StaleRevision;

/// The one configuration that a given network template and member
/// revision give rise to.  Synthesis is a pure function of this
/// pair, so re-delivery on transport retry is byte-identical.
pub open spec fn synthesized(network: NetworkModel, issued_to: Address, revision: u64) -> ConfigModel {
    ConfigModel {
        network_id: network.id,
        issued_to,
        revision,
        validity_window: network.config_window,
        routes: network.routes,
        rules: network.rules,
        multicast_limit: network.multicast_limit,
    }
}

/// Idempotence of synthesis: an unchanged (network template, member
/// revision) pair always yields the same configuration.
pub proof fn lemma_synthesis_idempotent(
    n1: NetworkModel,
    n2: NetworkModel,
    a1: Address,
    a2: Address,
    r1: u64,
    r2: u64,
)
    requires
        n1 == n2,
        a1 == a2,
        r1 == r2,
    ensures
        synthesized(n1, a1, r1) == synthesized(n2, a2, r2),
{
}

/// Build the configuration for an approved member, or refuse if the
/// snapshot the decision was computed against is stale.
///
/// `snapshot_revision` is the member revision the evaluator read
/// (zero where no record existed); `latest_revision` is the store's
/// revision for the same key at synthesis time.  Any difference
/// means an administrative write — possibly a revocation — completed
/// after the snapshot was taken, and no config may be replayed from
/// it.
pub fn synthesize(
    network: &Network,
    issued_to: Address,
    snapshot_revision: u64,
    latest_revision: u64,
) -> (r: Result<NetworkConfig, StaleRevision>)
    ensures
        snapshot_revision == latest_revision ==> (r matches Ok(c)
            && c@ == synthesized(network@, issued_to, snapshot_revision)),
        snapshot_revision != latest_revision ==> r is Err,
{
    if snapshot_revision != latest_revision {
        Err(StaleRevision)
    } else {
        Ok(NetworkConfig {
            network_id: network.id,
            issued_to,
            revision: snapshot_revision,
            validity_window: network.config_window,
            routes: copy_vec(&network.routes),
            rules: copy_vec(&network.rules),
            multicast_limit: network.multicast_limit,
        })
    }
}

} // verus!
