//! The audit trail: an append-only log of attestations with at most one
//! entry for a market and a resolution time.
//!
//! This is the model of the rule that the store of the audit trail keeps:
//! an entry is inserted unless one stands under its key, and no entry is
//! ever changed or removed. A store that lives elsewhere, such as a table
//! with a uniqueness constraint on the key, is held to this rule; the log
//! here says what the rule is, for every sequence of entries, and can stand
//! in for such a store.

use vstd::prelude::*;
use crate::service::{AttestationView, SignedAttestation};

verus! {

/// What an entry is stored under: the market and the resolution time.
pub open spec fn key_of(a: AttestationView) -> (u64, u64) {
    (a.record.market_id, a.record.resolution_timestamp)
}

/// The log has an entry under `key`.
pub open spec fn has_key(log: Seq<AttestationView>, key: (u64, u64)) -> bool {
    exists|i: int| 0 <= i < log.len() && key_of(#[trigger] log[i]) == key
}

/// No two entries of the log share a key.
pub open spec fn distinct_keys(log: Seq<AttestationView>) -> bool {
    forall|i: int, j: int|
        0 <= i < j < log.len() ==> key_of(#[trigger] log[i]) != key_of(#[trigger] log[j])
}

/// The log after an entry was offered: as it was where the key is taken,
/// else with the entry at its end.
pub open spec fn appended(log: Seq<AttestationView>, entry: AttestationView) -> Seq<
    AttestationView,
> {
    if has_key(log, key_of(entry)) {
        log
    } else {
        log.push(entry)
    }
}

/// The audit trail, held in memory.
pub struct AuditLog {
    entries: Vec<SignedAttestation>,
}

impl View for AuditLog {
    type V = Seq<AttestationView>;

    closed spec fn view(&self) -> Seq<AttestationView> {
        self.entries@.map_values(|a: SignedAttestation| a@)
    }
}

impl AuditLog {
    /// No two entries share a key. Every log made by [`AuditLog::new`] and
    /// filled by [`AuditLog::append`] is so.
    pub open spec fn wf(&self) -> bool {
        distinct_keys(self@)
    }

    /// An empty log.
    pub fn new() -> (out: AuditLog)
        ensures
            out@ == Seq::<AttestationView>::empty(),
            out.wf(),
    {
        let out = AuditLog { entries: Vec::new() };
        assert(out@ =~= Seq::<AttestationView>::empty());
        out
    }

    /// The number of entries.
    pub fn len(&self) -> (out: usize)
        ensures
            out == self@.len(),
    {
        self.entries.len()
    }

    /// The entry at a position, oldest first.
    pub fn get(&self, i: usize) -> (out: Option<&SignedAttestation>)
        ensures
            out is Some <==> i < self@.len(),
            out matches Some(a) ==> a@ == self@[i as int],
    {
        if i < self.entries.len() {
            Some(&self.entries[i])
        } else {
            None
        }
    }

    /// Whether the log has an entry for the market and the resolution time.
    pub fn contains(&self, market_id: u64, resolution_timestamp: u64) -> (out: bool)
        ensures
            out == has_key(self@, (market_id, resolution_timestamp)),
    {
        let mut i: usize = 0;
        while i < self.entries.len()
            invariant
                i <= self.entries.len(),
                forall|j: int|
                    0 <= j < i ==> key_of(#[trigger] self@[j]) != (market_id, resolution_timestamp),
            decreases self.entries.len() - i,
        {
            if self.entries[i].record.market_id == market_id
                && self.entries[i].record.resolution_timestamp == resolution_timestamp {
                assert(key_of(self@[i as int]) == (market_id, resolution_timestamp));
                return true;
            }
            i += 1;
        }
        false
    }

    /// Offers an entry: it is added unless the log has one under its key.
    /// Says whether it was added. Entries already there are never changed.
    pub fn append(&mut self, entry: SignedAttestation) -> (out: bool)
        ensures
            final(self)@ == appended(old(self)@, entry@),
            out == !has_key(old(self)@, key_of(entry@)),
            old(self).wf() ==> final(self).wf(),
    {
        proof {
            if self.wf() {
                lemma_append_keeps_keys_distinct(self@, entry@);
            }
        }
        if self.contains(entry.record.market_id, entry.record.resolution_timestamp) {
            false
        } else {
            let ghost before = self@;
            self.entries.push(entry);
            assert(self@ =~= before.push(entry@));
            true
        }
    }
}

/// Offering an entry keeps the keys of the log distinct.
pub proof fn lemma_append_keeps_keys_distinct(log: Seq<AttestationView>, entry: AttestationView)
    requires
        distinct_keys(log),
    ensures
        distinct_keys(appended(log, entry)),
        has_key(appended(log, entry), key_of(entry)),
{
    let after = appended(log, entry);
    if !has_key(log, key_of(entry)) {
        assert(key_of(after[log.len() as int]) == key_of(entry));
    }
}

/// A replay leaves one row: when two attestations for the same market and
/// resolution time are offered one after the other, the second changes
/// nothing, and exactly one entry stands under their key.
pub proof fn lemma_replay_leaves_one_row(
    log: Seq<AttestationView>,
    first: AttestationView,
    second: AttestationView,
)
    requires
        distinct_keys(log),
        key_of(first) == key_of(second),
    ensures
        appended(appended(log, first), second) == appended(log, first),
        exists|i: int|
            0 <= i < appended(log, first).len() && key_of(#[trigger] appended(log, first)[i])
                == key_of(first),
        forall|i: int, j: int|
            0 <= i < appended(log, first).len() && 0 <= j < appended(log, first).len() && key_of(
                #[trigger] appended(log, first)[i],
            ) == key_of(first) && key_of(#[trigger] appended(log, first)[j]) == key_of(first)
                ==> i == j,
{
    lemma_append_keeps_keys_distinct(log, first);
}

} // verus!
