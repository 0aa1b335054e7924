//! The stake table: an ordered mapping from public key to stake weight, fixed
//! for the lifetime of a protocol instance. Defines the super-majority
//! threshold `2*S/3 + 1`, deterministic leader election, the DA committee
//! prefix, and the arithmetic facts about stake sums over signer sets that the
//! certificate laws rest on.

use vstd::prelude::*;
use vstd::arithmetic::div_mod::{lemma_fundamental_div_mod, lemma_mod_bound, lemma_div_is_ordered};
use vstd::assert_by_contradiction;

verus! {

/// One validator: a public key and its stake weight.
#[derive(Clone, Copy, Debug, PartialEq, Eq, Structural)]
pub struct StakeEntry {
    /// The validator's public key
    pub key: u64,
    /// The validator's stake weight
    pub stake: u64,
}

/// Sum of the stakes of the first `n` entries.
pub open spec fn stake_prefix_sum(t: Seq<StakeEntry>, n: int) -> int
    decreases n,
{
    if n <= 0 {
        0
    } else {
        stake_prefix_sum(t, n - 1) + t[n - 1].stake
    }
}

/// Total stake `S` of the table.
pub open spec fn total_stake_of(t: Seq<StakeEntry>) -> int {
    stake_prefix_sum(t, t.len() as int)
}

/// Sum of the stakes of the signers in `s`, over the first `n` entries;
/// indices outside `s` contribute nothing.
pub open spec fn signer_prefix_stake(t: Seq<StakeEntry>, s: Set<int>, n: int) -> int
    decreases n,
{
    if n <= 0 {
        0
    } else {
        signer_prefix_stake(t, s, n - 1) + if s.contains(n - 1) {
            t[n - 1].stake as int
        } else {
            0
        }
    }
}

/// Combined stake of a set of signer indices.
pub open spec fn signers_stake(t: Seq<StakeEntry>, s: Set<int>) -> int {
    signer_prefix_stake(t, s, t.len() as int)
}

/// The super-majority threshold over a total stake: `2*S/3 + 1`.
pub open spec fn threshold_of(total: int) -> int {
    2 * total / 3 + 1
}

/// Every index in `s` names an entry of the table.
pub open spec fn valid_signer_set(t: Seq<StakeEntry>, s: Set<int>) -> bool {
    forall|i: int| s.contains(i) ==> 0 <= i < t.len()
}

/// All public keys in the table are distinct.
pub open spec fn distinct_keys(t: Seq<StakeEntry>) -> bool {
    forall|i: int, j: int| 0 <= i < j < t.len() ==> t[i].key != t[j].key
}

/// Prefix sums never decrease as the prefix grows.
pub proof fn lemma_stake_prefix_mono(t: Seq<StakeEntry>, m: int, n: int)
    requires
        m <= n,
    ensures
        stake_prefix_sum(t, m) <= stake_prefix_sum(t, n),
    decreases n - m,
{
    if m < n {
        lemma_stake_prefix_mono(t, m, n - 1);
    }
}

/// A prefix sum of stakes is never negative.
pub proof fn lemma_stake_prefix_nonneg(t: Seq<StakeEntry>, n: int)
    ensures
        stake_prefix_sum(t, n) >= 0,
    decreases n,
{
    if n > 0 {
        lemma_stake_prefix_nonneg(t, n - 1);
    }
}

/// A signer set's stake over a prefix is at most the prefix's whole stake.
pub proof fn lemma_signer_stake_le_prefix(t: Seq<StakeEntry>, s: Set<int>, n: int)
    ensures
        signer_prefix_stake(t, s, n) <= stake_prefix_sum(t, n),
    decreases n,
{
    if n > 0 {
        lemma_signer_stake_le_prefix(t, s, n - 1);
    }
}

/// A signer set's stake is never negative.
pub proof fn lemma_signer_stake_nonneg(t: Seq<StakeEntry>, s: Set<int>, n: int)
    ensures
        signer_prefix_stake(t, s, n) >= 0,
    decreases n,
{
    if n > 0 {
        lemma_signer_stake_nonneg(t, s, n - 1);
    }
}

/// Disjoint signer sets contribute additively.
pub proof fn lemma_signer_stake_disjoint_union(t: Seq<StakeEntry>, s1: Set<int>, s2: Set<int>, n: int)
    requires
        forall|i: int| !(s1.contains(i) && s2.contains(i)),
    ensures
        signer_prefix_stake(t, s1.union(s2), n) == signer_prefix_stake(t, s1, n)
            + signer_prefix_stake(t, s2, n),
    decreases n,
{
    if n > 0 {
        lemma_signer_stake_disjoint_union(t, s1, s2, n - 1);
    }
}

/// Two more than twice the threshold's quotient exceeds the total: the
/// arithmetic heart of quorum intersection.
pub proof fn lemma_two_thresholds_exceed_total(total: int)
    requires
        total >= 0,
    ensures
        2 * threshold_of(total) > total,
{
    lemma_fundamental_div_mod(2 * total, 3);
    lemma_mod_bound(2 * total, 3);
}

/// Any two signer sets that each reach the super-majority threshold share a
/// signer: their combined stake would otherwise exceed the total.
pub proof fn lemma_quorum_overlap(t: Seq<StakeEntry>, s1: Set<int>, s2: Set<int>)
    requires
        valid_signer_set(t, s1),
        valid_signer_set(t, s2),
        signers_stake(t, s1) >= threshold_of(total_stake_of(t)),
        signers_stake(t, s2) >= threshold_of(total_stake_of(t)),
    ensures
        exists|i: int| s1.contains(i) && s2.contains(i),
{
    let n = t.len() as int;
    let total = total_stake_of(t);
    lemma_stake_prefix_nonneg(t, n);
    assert_by_contradiction!(exists|i: int| s1.contains(i) && s2.contains(i), {
        lemma_signer_stake_disjoint_union(t, s1, s2, n);
        lemma_signer_stake_le_prefix(t, s1.union(s2), n);
        lemma_two_thresholds_exceed_total(total);
    });
}

/// The stake table itself: an ordered list of validators.
#[derive(Clone, Debug)]
pub struct StakeTable {
    /// The validators, in committee order
    pub entries: Vec<StakeEntry>,
}

impl StakeTable {
    /// A well-formed table has distinct keys and a total stake that fits the
    /// machine word it is summed in.
    pub open spec fn wf(&self) -> bool {
        &&& distinct_keys(self.entries@)
        &&& total_stake_of(self.entries@) <= u64::MAX
    }

    /// Number of validators.
    pub fn len(&self) -> (r: usize)
        ensures
            r == self.entries@.len(),
    {
        self.entries.len()
    }

    /// Total stake `S` over the whole table.
    pub fn total_stake(&self) -> (r: u64)
        requires
            self.wf(),
        ensures
            r == total_stake_of(self.entries@),
    {
        let t = Ghost(self.entries@);
        let n = self.entries.len();
        let mut acc: u64 = 0;
        let mut i: usize = 0;
        while i < n
            invariant
                i <= n,
                n == t@.len(),
                t@ == self.entries@,
                acc == stake_prefix_sum(t@, i as int),
                total_stake_of(t@) <= u64::MAX,
            decreases n - i,
        {
            proof {
                lemma_stake_prefix_nonneg(t@, i as int);
                lemma_stake_prefix_mono(t@, i + 1, n as int);
            }
            acc = acc + self.entries[i].stake;
            i = i + 1;
        }
        acc
    }

    /// The super-majority threshold `2*S/3 + 1`.
    pub fn threshold(&self) -> (r: u64)
        requires
            self.wf(),
        ensures
            r == threshold_of(total_stake_of(self.entries@)),
            r >= 1,
    {
        let s = self.total_stake();
        let wide: u128 = 2 * (s as u128) / 3 + 1;
        proof {
            let total = total_stake_of(self.entries@);
            lemma_stake_prefix_nonneg(self.entries@, self.entries@.len() as int);
            lemma_div_is_ordered(2 * total, 2 * (u64::MAX as int), 3);
            let m = u64::MAX as int;
            lemma_fundamental_div_mod(2 * m, 3);
            lemma_mod_bound(2 * m, 3);
            assert(3 * (2 * m / 3) <= 2 * m);
            assert(2 * m / 3 < m);
        }
        wide as u64
    }

    /// The leader of a view: chosen round-robin through the table.
    pub fn leader_of(&self, view: u64) -> (r: usize)
        requires
            self.entries@.len() >= 1,
        ensures
            r == view as int % self.entries@.len() as int,
            r < self.entries@.len(),
    {
        (view % (self.entries.len() as u64)) as usize
    }

    /// Whether the node at `idx` sits on the DA committee: the committee is
    /// the first `da_committee_size` entries of the table.
    pub fn is_da_member(&self, idx: usize, da_committee_size: usize) -> (r: bool)
        ensures
            r == (idx < da_committee_size && idx < self.entries@.len()),
    {
        idx < da_committee_size && idx < self.entries.len()
    }

    /// Public key of the entry at `idx`.
    pub fn key_at(&self, idx: usize) -> (r: u64)
        requires
            idx < self.entries@.len(),
        ensures
            r == self.entries@[idx as int].key,
    {
        self.entries[idx].key
    }

    /// Stake of the entry at `idx`.
    pub fn stake_at(&self, idx: usize) -> (r: u64)
        requires
            idx < self.entries@.len(),
        ensures
            r == self.entries@[idx as int].stake,
    {
        self.entries[idx].stake
    }
}

} // verus!
