//! Append-only audit log of authorization decisions.  No entry is
//! ever mutated or deleted once appended; retrieval is by network id
//! and time range, forward-ordered and restartable.

use vstd::prelude::*;

use crate::identity::NetworkId;
use crate::model::{LogItemModel, RequestLogItem};

verus! {

/// Append-only sequence of audit records.  The view is the sequence
/// of entry models, oldest first.
pub struct AuditLog {
    entries: Vec<RequestLogItem>,
}

impl View for AuditLog {
    type V = Seq<LogItemModel>;

    closed spec fn view(&self) -> Seq<LogItemModel> {
        self.entries@.map_values(|e: RequestLogItem| e@)
    }
}

/// Whether an entry falls in a query's window: the network matches
/// the filter, if one is given, and the timestamp lies in the
/// inclusive range.
pub open spec fn in_window(e: LogItemModel, network_id: Option<NetworkId>, from: i64, until: i64) -> bool {
    &&& match network_id {
        Some(id) => e.network_id == id,
        None => true,
    }
    &&& from <= e.timestamp <= until
}

impl AuditLog {
    /// Every recorded entry is well formed: in particular each
    /// carries a config exactly when its result is approved.
    pub open spec fn wf(&self) -> bool {
        forall|i: int| 0 <= i < self@.len() ==> (#[trigger] self@[i]).wf()
    }

    /// The empty log.
    pub fn new() -> (r: AuditLog)
        ensures
            r@ == Seq::<LogItemModel>::empty(),
            r.wf(),
    {
        AuditLog { entries: Vec::new() }
    }

    /// How many decisions have been recorded.
    pub fn len(&self) -> (r: usize)
        ensures
            r == self@.len(),
    {
        self.entries.len()
    }

    /// Record one terminal decision.  Only well-formed records enter
    /// the log; everything already appended stays exactly as it
    /// was.
    pub fn append(&mut self, item: RequestLogItem)
        requires
            item@.wf(),
        ensures
            final(self)@ == old(self)@.push(item@),
            old(self).wf() ==> final(self).wf(),
    {
        self.entries.push(item);
        proof {
            assert(self@ =~= old(self)@.push(self.entries@.last()@));
        }
    }

    /// Read one recorded entry.
    pub fn entry(&self, i: usize) -> (r: &RequestLogItem)
        requires
            i < self@.len(),
        ensures
            r@ == self@[i as int],
    {
        &self.entries[i]
    }

    /// The next recorded entry at or after `start` whose network and
    /// timestamp fall in the window, oldest first.  Restartable:
    /// calling again with the returned index plus one resumes the
    /// scan.  Returns `None` when no further entry matches.
    pub fn next_match(&self, start: usize, network_id: Option<NetworkId>, from: i64, until: i64) -> (r:
        Option<usize>)
        ensures
            match r {
                Some(i) => {
                    &&& start <= i < self@.len()
                    &&& in_window(self@[i as int], network_id, from, until)
                    &&& forall|j: int|
                        start <= j < i ==> !in_window(self@[j], network_id, from, until)
                },
                None => forall|j: int|
                    start <= j < self@.len() ==> !in_window(self@[j], network_id, from, until),
            },
    {
        let mut i: usize = start;
        while i < self.entries.len()
            invariant
                start <= i,
                self@.len() == self.entries@.len(),
                forall|j: int|
                    start <= j < i && j < self@.len() ==> !in_window(
                        self@[j],
                        network_id,
                        from,
                        until,
                    ),
            decreases self@.len() - i,
        {
            let e = &self.entries[i];
            let network_ok: bool = match network_id {
                Some(id) => e.network_id == id,
                None => true,
            };
            if network_ok && from <= e.timestamp && e.timestamp <= until {
                return Some(i);
            }
            i = i + 1;
        }
        None
    }
}

} // verus!
