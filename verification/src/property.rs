//! The asset record and its snapshot map.
//!
//! One `Property` exists per real-world asset. Besides the immutable sale
//! parameters it carries the two pieces of accounting state: the global
//! fixed-point yield accumulator `yield_per_token`, and `last_yield`, a
//! mapping from holder identity to the accumulator value that holder last
//! observed. The mapping is kept as a vector of entries with pairwise
//! distinct holders; a holder without an entry is treated as having
//! observed 0.

use vstd::prelude::*;

use crate::holder::HolderId;

verus! {

/// Fixed-point scale of the yield accumulator: accumulator units are
/// payment units per share, times this constant.
pub const PRECISION: u128 = 1_000_000_000;

/// One holder's snapshot: the accumulator value it last observed.
#[derive(Clone, Copy, Debug, PartialEq, Eq, Structural)]
pub struct SnapshotEntry {
    pub holder: HolderId,
    pub last_yield: u128,
}

/// The holders of `entries` are pairwise distinct, so the vector encodes
/// a mapping.
pub open spec fn unique_holders(entries: Seq<SnapshotEntry>) -> bool {
    forall|i: int, j: int|
        0 <= i < j < entries.len() ==> entries[i].holder != entries[j].holder
}

/// The accumulator value `holder` last observed: its entry's value, or 0
/// if it never claimed.
pub open spec fn last_yield_of(entries: Seq<SnapshotEntry>, holder: HolderId) -> u128
    decreases entries.len(),
{
    if entries.len() == 0 {
        0
    } else if entries.last().holder == holder {
        entries.last().last_yield
    } else {
        last_yield_of(entries.drop_last(), holder)
    }
}

/// Under distinct holders, the entry at any index gives the mapping's value
/// for its holder.
proof fn lemma_last_yield_of_at(entries: Seq<SnapshotEntry>, holder: HolderId, i: int)
    requires
        unique_holders(entries),
        0 <= i < entries.len(),
        entries[i].holder == holder,
    ensures
        last_yield_of(entries, holder) == entries[i].last_yield,
    decreases entries.len(),
{
    if i < entries.len() - 1 {
        assert(entries[i].holder != entries[entries.len() - 1].holder);
        assert(forall|k: int|
            0 <= k < entries.len() - 1 ==> entries.drop_last()[k] == entries[k]);
        lemma_last_yield_of_at(entries.drop_last(), holder, i);
    }
}

/// A holder with no entry maps to 0.
proof fn lemma_last_yield_of_absent(entries: Seq<SnapshotEntry>, holder: HolderId)
    requires
        forall|i: int| 0 <= i < entries.len() ==> entries[i].holder != holder,
    ensures
        last_yield_of(entries, holder) == 0,
    decreases entries.len(),
{
    if entries.len() > 0 {
        assert(forall|k: int|
            0 <= k < entries.len() - 1 ==> entries.drop_last()[k] == entries[k]);
        lemma_last_yield_of_absent(entries.drop_last(), holder);
    }
}

/// Any value of the mapping is bounded by a bound on all entries.
pub proof fn lemma_last_yield_of_bounded(
    entries: Seq<SnapshotEntry>,
    holder: HolderId,
    bound: u128,
)
    requires
        forall|i: int| 0 <= i < entries.len() ==> entries[i].last_yield <= bound,
    ensures
        last_yield_of(entries, holder) <= bound,
    decreases entries.len(),
{
    if entries.len() > 0 {
        assert(forall|k: int|
            0 <= k < entries.len() - 1 ==> entries.drop_last()[k] == entries[k]);
        lemma_last_yield_of_bounded(entries.drop_last(), holder, bound);
    }
}

/// Updating the entry at `i` leaves every other holder's mapping value
/// unchanged, provided the holder at `i` keeps its identity.
proof fn lemma_update_preserves_others(
    entries: Seq<SnapshotEntry>,
    i: int,
    entry: SnapshotEntry,
    h: HolderId,
)
    requires
        0 <= i < entries.len(),
        entries[i].holder == entry.holder,
        h != entry.holder,
    ensures
        last_yield_of(entries.update(i, entry), h) == last_yield_of(entries, h),
    decreases entries.len(),
{
    let updated = entries.update(i, entry);
    if i == entries.len() - 1 {
        assert(updated.drop_last() =~= entries.drop_last());
    } else {
        assert(updated.last() == entries.last());
        assert(updated.drop_last() =~= entries.drop_last().update(i, entry));
        lemma_update_preserves_others(entries.drop_last(), i, entry, h);
    }
}

/// The record of one asset.
#[derive(Debug)]
pub struct Property {
    /// Identity of the issuing party.
    pub owner: HolderId,
    /// Opaque 32-byte content hash of the asset's description.
    pub metadata_hash: [u8; 32],
    /// Opaque descriptive link, not interpreted by the core.
    pub metadata_uri: String,
    /// Informational basis-point figure, not enforced by the core.
    pub annual_return_bp: u16,
    /// Fixed total share supply, immutable after creation.
    pub total_tokens: u64,
    /// Shares not yet sold; never exceeds `total_tokens`.
    pub tokens_left: u64,
    /// Fixed price of one unsold share, in payment units.
    pub price_per_token_usdc: u64,
    /// Cumulative yield per share since inception, scaled by `PRECISION`;
    /// never decreases.
    pub yield_per_token: u128,
    /// Per-holder snapshots of `yield_per_token`, created lazily on first
    /// claim; pairwise distinct holders.
    pub last_yield: Vec<SnapshotEntry>,
}

impl Property {
    /// The accumulator value `holder` last observed (0 if it never claimed).
    pub open spec fn snapshot_of(self, holder: HolderId) -> u128 {
        last_yield_of(self.last_yield@, holder)
    }

    /// Well-formedness: the supply is positive, no more shares remain than
    /// were issued, the snapshot vector encodes a mapping, and no snapshot
    /// runs ahead of the accumulator.
    pub open spec fn wf(self) -> bool {
        &&& self.total_tokens > 0
        &&& self.tokens_left <= self.total_tokens
        &&& unique_holders(self.last_yield@)
        &&& forall|i: int|
            0 <= i < self.last_yield@.len() ==> self.last_yield@[i].last_yield
                <= self.yield_per_token
    }

    /// Reads the snapshot of `holder`, defaulting to 0 for a holder that
    /// never claimed.
    pub fn snapshot(&self, holder: &HolderId) -> (r: u128)
        requires
            unique_holders(self.last_yield@),
        ensures
            r == self.snapshot_of(*holder),
    {
        let n = self.last_yield.len();
        let mut i: usize = 0;
        while i < n
            invariant
                n == self.last_yield@.len(),
                i <= n,
                unique_holders(self.last_yield@),
                forall|j: int| 0 <= j < i ==> self.last_yield@[j].holder != *holder,
            decreases n - i,
        {
            if self.last_yield[i].holder == *holder {
                proof {
                    lemma_last_yield_of_at(self.last_yield@, *holder, i as int);
                }
                return self.last_yield[i].last_yield;
            }
            i += 1;
        }
        proof {
            lemma_last_yield_of_absent(self.last_yield@, *holder);
        }
        0
    }

    /// Sets the snapshot of `holder` to `value`, updating its entry in
    /// place or appending one on a first claim. Every other holder's
    /// snapshot is unchanged, and every entry afterwards holds either an
    /// old entry's value or `value`.
    pub fn set_snapshot(&mut self, holder: &HolderId, value: u128)
        requires
            unique_holders(old(self).last_yield@),
        ensures
            unique_holders(final(self).last_yield@),
            final(self).snapshot_of(*holder) == value,
            forall|h: HolderId|
                h != *holder ==> final(self).snapshot_of(h) == old(self).snapshot_of(h),
            forall|i: int|
                0 <= i < final(self).last_yield@.len() ==> (final(self).last_yield@[i].last_yield
                    == value || (0 <= i < old(self).last_yield@.len()
                    && final(self).last_yield@[i] == old(self).last_yield@[i])),
            final(self).owner == old(self).owner,
            final(self).metadata_hash == old(self).metadata_hash,
            final(self).metadata_uri == old(self).metadata_uri,
            final(self).annual_return_bp == old(self).annual_return_bp,
            final(self).total_tokens == old(self).total_tokens,
            final(self).tokens_left == old(self).tokens_left,
            final(self).price_per_token_usdc == old(self).price_per_token_usdc,
            final(self).yield_per_token == old(self).yield_per_token,
    {
        let entry = SnapshotEntry { holder: *holder, last_yield: value };
        let n = self.last_yield.len();
        let mut i: usize = 0;
        while i < n
            invariant
                *self == *old(self),
                unique_holders(self.last_yield@),
                entry == (SnapshotEntry { holder: *holder, last_yield: value }),
                n == self.last_yield@.len(),
                i <= n,
                forall|j: int| 0 <= j < i ==> self.last_yield@[j].holder != *holder,
            decreases n - i,
        {
            if self.last_yield[i].holder == *holder {
                self.last_yield[i] = entry;
                proof {
                    let olds = old(self).last_yield@;
                    let s = self.last_yield@;
                    assert(s == olds.update(i as int, entry));
                    assert forall|a: int, b: int|
                        0 <= a < b < s.len() implies s[a].holder != s[b].holder by {
                        assert(s[a].holder == olds[a].holder);
                        assert(s[b].holder == olds[b].holder);
                    }
                    lemma_last_yield_of_at(s, *holder, i as int);
                    assert forall|h: HolderId| h != *holder implies last_yield_of(s, h)
                        == last_yield_of(olds, h) by {
                        lemma_update_preserves_others(olds, i as int, entry, h);
                    }
                }
                return ;
            }
            i += 1;
        }
        proof {
            lemma_last_yield_of_absent(self.last_yield@, *holder);
        }
        self.last_yield.push(entry);
        proof {
            let olds = old(self).last_yield@;
            let s = self.last_yield@;
            assert(s.drop_last() =~= olds);
            assert(s.last() == entry);
            assert forall|a: int, b: int|
                0 <= a < b < s.len() implies s[a].holder != s[b].holder by {
                if b < s.len() - 1 {
                    assert(s[a] == olds[a] && s[b] == olds[b]);
                } else {
                    assert(s[a] == olds[a]);
                    assert(s[b] == entry);
                }
            }
        }
    }
}

} // verus!
