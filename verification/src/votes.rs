//! Votes, certificates, and stake-weighted vote aggregation. A vote is a
//! signed assertion over a (view, commitment, kind) tuple; a certificate is a
//! set of distinct signers whose combined stake reaches the super-majority
//! threshold. The accumulator enforces the acceptance rules and forms a
//! certificate exactly when the threshold is crossed.

use vstd::prelude::*;
use crate::stake::{
    StakeEntry, StakeTable, signer_prefix_stake, signers_stake, stake_prefix_sum, threshold_of,
    total_stake_of, lemma_signer_stake_disjoint_union, lemma_signer_stake_le_prefix,
    lemma_quorum_overlap,
};

verus! {

/// The kinds of votes (and of the certificates they aggregate into).
#[derive(Clone, Copy, Debug, PartialEq, Eq, Structural)]
pub enum VoteKind {
    /// Vote on a quorum proposal
    Quorum,
    /// Vote that a view timed out
    Timeout,
    /// Vote on a DA proposal
    DA,
    /// Vote on a VID dispersal
    Vid,
    /// View-sync pre-commit phase vote
    ViewSyncPreCommit,
    /// View-sync commit phase vote
    ViewSyncCommit,
    /// View-sync finalize phase vote
    ViewSyncFinalize,
}

/// A signed assertion over a (view, object commitment, kind) tuple. The
/// signer is named by its index in the stake table.
#[derive(Clone, Copy, Debug, PartialEq, Eq, Structural)]
pub struct Vote {
    /// Index of the signer in the stake table
    pub signer: usize,
    /// The view the vote is about
    pub view: u64,
    /// Commitment of the object voted on
    pub commitment: u64,
    /// What is being voted on
    pub kind: VoteKind,
}

/// The set of signer indices named by a list.
pub open spec fn signer_set_of(s: Seq<usize>) -> Set<int> {
    Set::new(|i: int| exists|j: int| 0 <= j < s.len() && s[j] as int == i)
}

/// Stake of the singleton set over a prefix: the entry's own stake once the
/// prefix covers it.
proof fn lemma_singleton_stake(t: Seq<StakeEntry>, i: int, n: int)
    ensures
        signer_prefix_stake(t, Set::empty().insert(i), n) == if 0 <= i < n {
            t[i].stake as int
        } else {
            0
        },
    decreases n,
{
    if n > 0 {
        lemma_singleton_stake(t, i, n - 1);
    }
}

/// The empty signer set holds no stake.
pub proof fn lemma_empty_signer_stake(t: Seq<StakeEntry>, n: int)
    ensures
        signer_prefix_stake(t, Set::<int>::empty(), n) == 0,
    decreases n,
{
    if n > 0 {
        lemma_empty_signer_stake(t, n - 1);
    }
}

/// Inserting a fresh in-range signer adds exactly its stake.
pub proof fn lemma_insert_signer_stake(t: Seq<StakeEntry>, s: Set<int>, i: int)
    requires
        !s.contains(i),
        0 <= i < t.len(),
    ensures
        signers_stake(t, s.insert(i)) == signers_stake(t, s) + t[i].stake,
{
    let n = t.len() as int;
    lemma_signer_stake_disjoint_union(t, s, Set::empty().insert(i), n);
    lemma_singleton_stake(t, i, n);
    assert(s.insert(i) =~= s.union(Set::empty().insert(i)));
}

/// Two certificates with the same content; their lists of signers may be
/// distinct allocations.
pub open spec fn cert_equiv(a: Certificate, b: Certificate) -> bool {
    &&& a.view == b.view
    &&& a.commitment == b.commitment
    &&& a.kind == b.kind
    &&& a.signers@ == b.signers@
}

/// Equivalent certificates are valid against the same tables.
pub proof fn lemma_cert_equiv_valid(a: Certificate, b: Certificate, t: Seq<StakeEntry>)
    requires
        cert_equiv(a, b),
    ensures
        a.valid(t) == b.valid(t),
{
    assert(a.signers_set() =~= b.signers_set());
}

/// Appending a signer to the list inserts it into the signer set.
pub proof fn lemma_signer_set_push(s: Seq<usize>, x: usize)
    ensures
        signer_set_of(s.push(x)) == signer_set_of(s).insert(x as int),
{
    let s2 = s.push(x);
    assert forall|i: int| signer_set_of(s2).contains(i) implies signer_set_of(s).insert(
        x as int,
    ).contains(i) by {
        let j = choose|j: int| 0 <= j < s2.len() && s2[j] as int == i;
        if j < s.len() {
            assert(s[j] as int == i);
            assert(signer_set_of(s).contains(i));
        }
    };
    assert forall|i: int| signer_set_of(s).insert(x as int).contains(i) implies signer_set_of(
        s2,
    ).contains(i) by {
        if i == x as int {
            assert(s2[s.len() as int] as int == i);
        } else {
            let j = choose|j: int| 0 <= j < s.len() && s[j] as int == i;
            assert(s2[j] as int == i);
        }
    };
    assert(signer_set_of(s.push(x)) =~= signer_set_of(s).insert(x as int));
}

/// An aggregation of votes meeting the stake threshold. Self-verifying: any
/// replica holding the stake table can confirm it.
#[derive(Clone, Debug)]
pub struct Certificate {
    /// The view the certificate is for
    pub view: u64,
    /// Commitment of the certified object
    pub commitment: u64,
    /// Kind of the certified object
    pub kind: VoteKind,
    /// Indices of the signers whose votes were aggregated
    pub signers: Vec<usize>,
}

impl Certificate {
    /// The signers as a set of table indices.
    pub open spec fn signers_set(&self) -> Set<int> {
        signer_set_of(self.signers@)
    }

    /// The certificate is sound against the table: signers are distinct
    /// members of the table and their stakes sum to at least the threshold.
    pub open spec fn valid(&self, t: Seq<StakeEntry>) -> bool {
        &&& forall|j: int| 0 <= j < self.signers@.len() ==> (#[trigger] self.signers@[j]) < t.len()
        &&& forall|j: int, k: int|
            0 <= j < k < self.signers@.len() ==> self.signers@[j] != self.signers@[k]
        &&& signers_stake(t, self.signers_set()) >= threshold_of(total_stake_of(t))
    }

    /// An exact copy of the certificate.
    pub fn duplicate(&self) -> (r: Certificate)
        ensures
            cert_equiv(r, *self),
    {
        let r = Certificate {
            view: self.view,
            commitment: self.commitment,
            kind: self.kind,
            signers: self.signers.clone(),
        };
        proof {
            assert(r.signers@ =~= self.signers@);
        }
        r
    }

    /// Confirm the certificate against the stake table: distinct in-range
    /// signers whose stakes sum to at least the threshold, and nothing less.
    pub fn verify(&self, table: &StakeTable) -> (r: bool)
        requires
            table.wf(),
        ensures
            r == self.valid(table.entries@),
    {
        let ghost t = table.entries@;
        let ghost s = self.signers@;
        let n = self.signers.len();
        let mut acc: u64 = 0;
        let mut j: usize = 0;
        proof {
            lemma_empty_signer_stake(t, t.len() as int);
            assert(signer_set_of(s.take(0)) =~= Set::<int>::empty());
        }
        while j < n
            invariant
                j <= n,
                n == s.len(),
                s == self.signers@,
                t == table.entries@,
                table.wf(),
                forall|a: int| 0 <= a < j ==> (#[trigger] s[a]) < t.len(),
                forall|a: int, b: int| 0 <= a < b < j ==> s[a] != s[b],
                acc == signers_stake(t, signer_set_of(s.take(j as int))),
            decreases n - j,
        {
            let sj = self.signers[j];
            if sj >= table.len() {
                return false;
            }
            let mut k: usize = 0;
            while k < j
                invariant
                    k <= j,
                    j < n,
                    n == s.len(),
                    s == self.signers@,
                    sj == s[j as int],
                    forall|a: int| 0 <= a < k ==> s[a] != s[j as int],
                decreases j - k,
            {
                if self.signers[k] == sj {
                    return false;
                }
                k = k + 1;
            }
            proof {
                let pre = signer_set_of(s.take(j as int));
                assert(!pre.contains(sj as int)) by {
                    if pre.contains(sj as int) {
                        let a = choose|a: int|
                            0 <= a < s.take(j as int).len() && s.take(j as int)[a] as int
                                == sj as int;
                        assert(s[a] == s[j as int]);
                    }
                };
                lemma_insert_signer_stake(t, pre, sj as int);
                lemma_signer_stake_le_prefix(t, pre.insert(sj as int), t.len() as int);
                assert(s.take(j + 1) =~= s.take(j as int).push(s[j as int]));
                lemma_signer_set_push(s.take(j as int), sj);
            }
            acc = acc + table.stake_at(sj);
            j = j + 1;
        }
        proof {
            assert(s.take(n as int) =~= s);
        }
        let th = table.threshold();
        acc >= th
    }
}

/// Certificate soundness: an accepted certificate's signers are pairwise
/// distinct members of the stake table, and their stakes sum to at least the
/// super-majority threshold.
pub proof fn lemma_certificate_soundness(c: Certificate, t: Seq<StakeEntry>)
    requires
        c.valid(t),
    ensures
        forall|j: int| 0 <= j < c.signers@.len() ==> (#[trigger] c.signers@[j]) < t.len(),
        forall|j: int, k: int| 0 <= j < k < c.signers@.len() ==> c.signers@[j] != c.signers@[k],
        signers_stake(t, c.signers_set()) >= threshold_of(total_stake_of(t)),
{
}

/// If two sound certificates for the same view and kind draw their votes from
/// signers that each signed only one commitment there, they certify the same
/// commitment: any two quorums share a signer, and that signer signed both.
/// `voted_for` names the one commitment each signer signed for this
/// (view, kind); its existence is the non-equivocation hypothesis.
pub proof fn lemma_certified_commitment_unique(
    t: Seq<StakeEntry>,
    c1: Certificate,
    c2: Certificate,
    voted_for: Map<int, u64>,
)
    requires
        c1.valid(t),
        c2.valid(t),
        c1.view == c2.view,
        c1.kind == c2.kind,
        forall|i: int| c1.signers_set().contains(i) ==> voted_for.dom().contains(i)
            && voted_for[i] == c1.commitment,
        forall|i: int| c2.signers_set().contains(i) ==> voted_for.dom().contains(i)
            && voted_for[i] == c2.commitment,
    ensures
        c1.commitment == c2.commitment,
{
    lemma_quorum_overlap(t, c1.signers_set(), c2.signers_set());
    let i = choose|i: int| c1.signers_set().contains(i) && c2.signers_set().contains(i);
    assert(voted_for[i] == c1.commitment);
    assert(voted_for[i] == c2.commitment);
}

/// Whether a list of signer indices holds `x`.
fn contains_signer(v: &Vec<usize>, x: usize) -> (r: bool)
    ensures
        r == v@.contains(x),
{
    let mut i: usize = 0;
    while i < v.len()
        invariant
            i <= v@.len(),
            forall|j: int| 0 <= j < i ==> v@[j] != x,
        decreases v@.len() - i,
    {
        if v[i] == x {
            return true;
        }
        i = i + 1;
    }
    false
}

/// Per-(view, kind, commitment) vote accumulator held by the aggregating
/// leader or relay.
#[derive(Clone, Debug)]
pub struct VoteAccumulator {
    /// The view votes are collected for
    pub view: u64,
    /// The commitment votes must match
    pub commitment: u64,
    /// The kind of vote collected
    pub kind: VoteKind,
    /// Signers accepted so far
    pub signers: Vec<usize>,
    /// Their combined stake
    pub stake: u64,
}

impl VoteAccumulator {
    /// Accumulator state is tied to a table: distinct in-range signers, with
    /// `stake` their exact combined stake.
    pub open spec fn wf(&self, t: Seq<StakeEntry>) -> bool {
        &&& forall|j: int| 0 <= j < self.signers@.len() ==> (#[trigger] self.signers@[j]) < t.len()
        &&& forall|j: int, k: int|
            0 <= j < k < self.signers@.len() ==> self.signers@[j] != self.signers@[k]
        &&& self.stake == signers_stake(t, signer_set_of(self.signers@))
    }

    /// A vote the accumulator accepts: right view, commitment and kind, a
    /// signer the table knows, and no vote from that signer yet.
    pub open spec fn accepts(&self, vote: Vote, t: Seq<StakeEntry>) -> bool {
        &&& vote.view == self.view
        &&& vote.commitment == self.commitment
        &&& vote.kind == self.kind
        &&& (vote.signer as int) < t.len()
        &&& !self.signers@.contains(vote.signer)
    }

    /// An empty accumulator for one (view, commitment, kind).
    pub fn new(view: u64, commitment: u64, kind: VoteKind, table: &StakeTable) -> (r: Self)
        ensures
            r.view == view,
            r.commitment == commitment,
            r.kind == kind,
            r.signers@.len() == 0,
            r.stake == 0,
            r.wf(table.entries@),
    {
        proof {
            lemma_empty_signer_stake(table.entries@, table.entries@.len() as int);
            assert(signer_set_of(Seq::<usize>::empty()) =~= Set::<int>::empty());
        }
        VoteAccumulator { view, commitment, kind, signers: Vec::new(), stake: 0 }
    }

    /// Feed one vote in. Rejected votes (wrong view, commitment or kind, an
    /// unknown signer, or a duplicate) change nothing. An accepted vote adds
    /// the signer's stake; the certificate forms exactly when the combined
    /// stake reaches the threshold.
    pub fn accumulate(&mut self, vote: Vote, table: &StakeTable) -> (r: Option<Certificate>)
        requires
            old(self).wf(table.entries@),
            table.wf(),
        ensures
            final(self).wf(table.entries@),
            final(self).view == old(self).view,
            final(self).commitment == old(self).commitment,
            final(self).kind == old(self).kind,
            !old(self).accepts(vote, table.entries@) ==> *final(self) == *old(self) && r is None,
            old(self).accepts(vote, table.entries@) ==> final(self).signers@ == old(
                self,
            ).signers@.push(vote.signer) && final(self).stake == old(self).stake
                + table.entries@[vote.signer as int].stake,
            r is Some <==> old(self).accepts(vote, table.entries@) && final(self).stake
                >= threshold_of(total_stake_of(table.entries@)),
            r matches Some(c) ==> c.valid(table.entries@) && c.view == final(self).view
                && c.commitment == final(self).commitment && c.kind == final(self).kind
                && c.signers@ == final(self).signers@,
    {
        if vote.view != self.view || vote.commitment != self.commitment {
            return None;
        }
        if vote.kind != self.kind {
            return None;
        }
        if vote.signer >= table.len() {
            return None;
        }
        if contains_signer(&self.signers, vote.signer) {
            return None;
        }
        proof {
            let t = table.entries@;
            let s = signer_set_of(self.signers@);
            assert(!s.contains(vote.signer as int));
            lemma_insert_signer_stake(t, s, vote.signer as int);
            lemma_signer_stake_le_prefix(t, s.insert(vote.signer as int), t.len() as int);
            lemma_signer_set_push(self.signers@, vote.signer);
        }
        let added = table.stake_at(vote.signer);
        self.signers.push(vote.signer);
        self.stake = self.stake + added;
        let th = table.threshold();
        if self.stake >= th {
            Some(
                Certificate {
                    view: self.view,
                    commitment: self.commitment,
                    kind: self.kind,
                    signers: self.signers.clone(),
                },
            )
        } else {
            None
        }
    }
}

} // verus!
