//! The consensus task: proposing, voting, aggregating votes into quorum and
//! timeout certificates, and deciding through the three-chain rule. The task
//! is a pure state machine: it consumes one bus event and returns the events
//! it publishes in turn. Its contract carries the voting discipline (one vote
//! per view, quorum or timeout, never both) and the monotonicity of the
//! observed view, from which the trace-level laws follow.

use vstd::prelude::*;
use crate::data::{
    leaf_commitment, leaf_commitment_of, leaf_equiv, leaves_equiv, sig_of, sign, Leaf, Proposal,
    QuorumProposal,
};
use crate::events::{FormedCert, HotShotEvent};
use crate::stake::{StakeEntry, StakeTable};
use crate::votes::{cert_equiv, Certificate, Vote, VoteAccumulator, VoteKind};

verus! {

/// The vote, if any, that an outbound event emits on this replica's behalf.
pub open spec fn emitted_vote(e: HotShotEvent) -> Option<Vote> {
    match e {
        HotShotEvent::QuorumVoteSend(v) => Some(v),
        HotShotEvent::TimeoutVoteSend(v) => Some(v),
        _ => None,
    }
}

/// The voting discipline one step of the consensus task obeys: the last-voted
/// view never moves back, at most one vote leaves per step, and any vote that
/// leaves is by this replica, for a view newer than anything voted before,
/// and is covered by the new last-voted view.
pub open spec fn vote_discipline(
    pre: ConsensusState,
    out: Seq<HotShotEvent>,
    post: ConsensusState,
) -> bool {
    &&& post.last_voted_view >= pre.last_voted_view
    &&& forall|k: int|
        0 <= k < out.len() ==> (#[trigger] emitted_vote(out[k]) matches Some(v) ==> v.view
            > pre.last_voted_view && v.view <= post.last_voted_view && v.signer == pre.me)
    &&& forall|k1: int, k2: int|
        0 <= k1 < k2 < out.len() ==> !(#[trigger] emitted_vote(out[k1]) is Some
            && #[trigger] emitted_vote(out[k2]) is Some)
}

/// Leaves form a chain: each one names its predecessor as parent, sits one
/// higher, and was proposed in a strictly later view.
pub open spec fn chain_linked(c: Seq<Leaf>) -> bool {
    forall|i: int|
        0 <= i < c.len() - 1 ==> (#[trigger] c[i + 1]).parent_commitment == c[i].commitment
            && c[i + 1].view > c[i].view && c[i + 1].height == c[i].height + 1
}

/// Private state of the consensus task on one replica.
#[derive(Clone, Debug)]
pub struct ConsensusState {
    /// This replica's index in the stake table
    pub me: usize,
    /// The current view
    pub cur_view: u64,
    /// The newest view this replica has voted in, by quorum or timeout vote
    pub last_voted_view: u64,
    /// The view of the locked certificate
    pub locked_view: u64,
    /// Commitment of the locked leaf
    pub locked_commitment: u64,
    /// The highest-view quorum certificate observed
    pub high_qc: Certificate,
    /// Payload commitment and metadata handed over by the DA side, if any
    pub pending_payload: Option<(u64, u64)>,
    /// A proposal buffered until its view's DA certificate arrives
    pub pending_proposal: Option<(Proposal<QuorumProposal>, u64)>,
    /// Views for which a DA certificate has been seen
    pub da_seen: Vec<u64>,
    /// The leaf this replica voted on most recently; certified once a later
    /// proposal's justifying certificate names it
    pub last_voted_leaf: Option<Leaf>,
    /// The certified branch; its first leaf is the newest decided one
    pub chain: Vec<Leaf>,
    /// The decided chain
    pub decided: Vec<Leaf>,
    /// Consecutive timeouts observed since the last view advance
    pub consecutive_timeouts: u64,
    /// Quorum vote accumulator, as next-view leader
    pub acc_quorum: VoteAccumulator,
    /// Timeout vote accumulator, as next-view leader
    pub acc_timeout: VoteAccumulator,
    /// Whether the task has observed `Shutdown` and exited
    pub exited: bool,
}

impl ConsensusState {
    /// Well-formedness against the stake table.
    pub open spec fn wf(&self, t: Seq<StakeEntry>) -> bool {
        &&& (self.me as int) < t.len()
        &&& self.chain@.len() >= 1
        &&& chain_linked(self.chain@)
        &&& chain_linked(self.decided@)
        &&& self.decided@.len() >= 1
        &&& leaf_equiv(self.decided@.last(), self.chain@.first())
        &&& self.acc_quorum.wf(t)
        &&& self.acc_quorum.kind == VoteKind::Quorum
        &&& self.acc_timeout.wf(t)
        &&& self.acc_timeout.kind == VoteKind::Timeout
    }

    /// A fresh replica: the genesis leaf is decided and certified, nothing is
    /// voted, the high certificate is the genesis certificate.
    pub fn new(me: usize, genesis: Leaf, genesis_qc: Certificate, table: &StakeTable) -> (r: Self)
        requires
            (me as int) < table.entries@.len(),
        ensures
            r.wf(table.entries@),
            r.me == me,
            r.cur_view == 0,
            r.last_voted_view == 0,
            r.decided@.len() == 1 && r.decided@[0] == genesis,
            r.chain@.len() == 1 && leaf_equiv(r.chain@[0], genesis),
            r.locked_view == 0,
            r.locked_commitment == genesis.commitment,
            !r.exited,
    {
        let locked_commitment = genesis.commitment;
        let chain_genesis = genesis.duplicate();
        let mut chain: Vec<Leaf> = Vec::new();
        chain.push(chain_genesis);
        let mut decided: Vec<Leaf> = Vec::new();
        decided.push(genesis);
        ConsensusState {
            me,
            cur_view: 0,
            last_voted_view: 0,
            locked_view: 0,
            locked_commitment,
            high_qc: genesis_qc,
            pending_payload: None,
            pending_proposal: None,
            da_seen: Vec::new(),
            last_voted_leaf: None,
            consecutive_timeouts: 0,
            chain,
            decided,
            acc_quorum: VoteAccumulator::new(0, 0, VoteKind::Quorum, table),
            acc_timeout: VoteAccumulator::new(0, 0, VoteKind::Timeout, table),
            exited: false,
        }
    }
}

/// The checks a quorum proposal must pass before this replica votes on it:
/// the sender is the leader of the proposal's view and signed the leaf's
/// commitment; the justifying certificate is a sound quorum certificate over
/// the leaf's parent, from a strictly earlier view; the view is newer than
/// anything this replica voted in; and the leaf is safe — it extends the
/// locked leaf, or carries a certificate newer than the locked one.
pub open spec fn proposal_acceptable(
    s: ConsensusState,
    t: Seq<StakeEntry>,
    p: Proposal<QuorumProposal>,
    sender: u64,
) -> bool {
    let leaf = p.data.leaf;
    &&& (p.signer as int) < t.len()
    &&& leaf.view as int % t.len() as int == p.signer as int
    &&& sender == t[p.signer as int].key
    &&& p.signature == sig_of(t[p.signer as int].key, leaf.commitment)
    &&& leaf.proposer == p.signer
    &&& leaf.justify_qc.view < leaf.view
    &&& leaf.justify_qc.kind == VoteKind::Quorum
    &&& leaf.justify_qc.commitment == leaf.parent_commitment
    &&& leaf.justify_qc.valid(t)
    &&& leaf.view > s.last_voted_view
    &&& (leaf.parent_commitment == s.locked_commitment || leaf.justify_qc.view > s.locked_view)
}

/// The quorum vote this replica casts on an accepted leaf.
pub open spec fn quorum_vote_for(s: ConsensusState, leaf: Leaf) -> Vote {
    Vote { signer: s.me, view: leaf.view, commitment: leaf.commitment, kind: VoteKind::Quorum }
}

/// The timeout vote this replica casts when a view expires.
pub open spec fn timeout_vote_for(s: ConsensusState, view: u64) -> Vote {
    Vote { signer: s.me, view, commitment: view, kind: VoteKind::Timeout }
}

impl ConsensusState {
    /// Validate a quorum proposal and, if it passes, vote on it, advance the
    /// locked and high certificates, extend the certified branch, and decide
    /// by the three-chain rule. A proposal that fails any check changes
    /// nothing; this never moves the current view (a proposal for a later
    /// view only publishes `ViewChange`, which loops back over the bus).
    fn process_proposal(
        &mut self,
        p: Proposal<QuorumProposal>,
        sender: u64,
        table: &StakeTable,
    ) -> (out: Vec<HotShotEvent>)
        requires
            old(self).wf(table.entries@),
            table.wf(),
            !old(self).exited,
        ensures
            final(self).wf(table.entries@),
            vote_discipline(*old(self), out@, *final(self)),
            final(self).cur_view == old(self).cur_view,
            final(self).exited == old(self).exited,
            final(self).high_qc.view >= old(self).high_qc.view,
            old(self).decided@.is_prefix_of(final(self).decided@),
            forall|k: int|
                0 <= k < out@.len() ==> ((#[trigger] out@[k]) matches HotShotEvent::LeafDecided(ls)
                    ==> leaves_equiv(final(self).decided@, old(self).decided@ + ls@)),
            forall|k: int|
                0 <= k < out@.len() ==> !((#[trigger] out@[k]) matches HotShotEvent::QCFormed(f)),
            proposal_acceptable(*old(self), table.entries@, p, sender) ==> out@.contains(
                HotShotEvent::QuorumVoteSend(quorum_vote_for(*old(self), p.data.leaf)),
            ) && final(self).last_voted_view == p.data.leaf.view,
            !proposal_acceptable(*old(self), table.entries@, p, sender) ==> *final(self) == *old(
                self,
            ) && out@.len() == 0,
    {
        let mut out: Vec<HotShotEvent> = Vec::new();
        let leaf = p.data.leaf;
        // Leader, signature and certificate checks.
        if p.signer >= table.len() {
            return out;
        }
        if table.leader_of(leaf.view) != p.signer {
            return out;
        }
        let leader_key = table.key_at(p.signer);
        if sender != leader_key {
            return out;
        }
        if p.signature != sign(leader_key, leaf.commitment) {
            return out;
        }
        if leaf.proposer != p.signer {
            return out;
        }
        if leaf.justify_qc.view >= leaf.view {
            return out;
        }
        if leaf.justify_qc.kind != VoteKind::Quorum {
            return out;
        }
        if leaf.justify_qc.commitment != leaf.parent_commitment {
            return out;
        }
        if !leaf.justify_qc.verify(table) {
            return out;
        }
        if leaf.view <= self.last_voted_view {
            return out;
        }
        if !(leaf.parent_commitment == self.locked_commitment || leaf.justify_qc.view
            > self.locked_view) {
            return out;
        }
        // The proposal is acceptable. A certificate for a view past the
        // current one makes the replica fast-forward.
        if leaf.view > self.cur_view {
            out.push(HotShotEvent::ViewChange(leaf.view));
        }
        // The justifying certificate certifies the leaf voted on last; if it
        // extends the certified branch, grow the branch and run the
        // three-chain rule.
        let certified = self.last_voted_leaf.take();
        match certified {
            Some(cand) => {
                let tip_ok: bool = {
                    let tip = &self.chain[self.chain.len() - 1];
                    cand.commitment == leaf.parent_commitment && cand.parent_commitment
                        == tip.commitment && cand.view > tip.view && cand.height > tip.height
                        && cand.height - tip.height == 1
                };
                if tip_ok {
                    self.chain.push(cand);
                    let decided_events = self.try_decide();
                    match decided_events {
                        Some(ls) => {
                            out.push(HotShotEvent::LeafDecided(ls));
                        },
                        None => {},
                    }
                }
            },
            None => {},
        }
        // Advance the locked certificate by the two-chain rule, and the high
        // certificate whenever a newer one appears.
        if leaf.justify_qc.view > self.locked_view {
            self.locked_view = leaf.justify_qc.view;
            self.locked_commitment = leaf.parent_commitment;
        }
        if leaf.justify_qc.view > self.high_qc.view {
            self.high_qc = leaf.justify_qc.duplicate();
        }
        // Vote, and remember the leaf for later certification.
        self.last_voted_view = leaf.view;
        let vote = Vote {
            signer: self.me,
            view: leaf.view,
            commitment: leaf.commitment,
            kind: VoteKind::Quorum,
        };
        self.last_voted_leaf = Some(leaf);
        out.push(HotShotEvent::QuorumVoteSend(vote));
        proof {
            assert(vote == quorum_vote_for(*old(self), p.data.leaf));
            assert(out@.last() == HotShotEvent::QuorumVoteSend(vote));
            assert(out@.contains(HotShotEvent::QuorumVoteSend(vote)));
        }
        out
    }

    /// Run the three-chain rule on the certified branch: three consecutive
    /// views at its end decide everything up to the oldest of the three.
    /// Returns the newly decided suffix when there is one.
    #[verifier::loop_isolation(false)]
    fn try_decide(&mut self) -> (r: Option<Vec<Leaf>>)
        requires
            old(self).chain@.len() >= 1,
            chain_linked(old(self).chain@),
            chain_linked(old(self).decided@),
            old(self).decided@.len() >= 1,
            leaf_equiv(old(self).decided@.last(), old(self).chain@.first()),
        ensures
            final(self).chain@.len() >= 1,
            chain_linked(final(self).chain@),
            chain_linked(final(self).decided@),
            final(self).decided@.len() >= 1,
            leaf_equiv(final(self).decided@.last(), final(self).chain@.first()),
            old(self).decided@.is_prefix_of(final(self).decided@),
            r matches Some(ls) ==> leaves_equiv(final(self).decided@, old(self).decided@ + ls@),
            r is None ==> final(self).decided@ == old(self).decided@,
            final(self).me == old(self).me,
            final(self).cur_view == old(self).cur_view,
            final(self).last_voted_view == old(self).last_voted_view,
            final(self).locked_view == old(self).locked_view,
            final(self).locked_commitment == old(self).locked_commitment,
            final(self).high_qc == old(self).high_qc,
            final(self).pending_payload == old(self).pending_payload,
            final(self).pending_proposal == old(self).pending_proposal,
            final(self).da_seen == old(self).da_seen,
            final(self).last_voted_leaf == old(self).last_voted_leaf,
            final(self).acc_quorum == old(self).acc_quorum,
            final(self).acc_timeout == old(self).acc_timeout,
            final(self).exited == old(self).exited,
    {
        let k = self.chain.len();
        if k < 4 {
            return None;
        }
        let consecutive: bool = {
            let a = &self.chain[k - 3];
            let b = &self.chain[k - 2];
            let c = &self.chain[k - 1];
            a.view < b.view && b.view - a.view == 1 && b.view < c.view && c.view - b.view == 1
        };
        if !consecutive {
            return None;
        }
        // Newly decided: everything after the already-decided root, up to and
        // including the oldest of the three consecutive leaves.
        let mut newly: Vec<Leaf> = Vec::new();
        let mut i: usize = 1;
        while i <= k - 3
            invariant
                1 <= i <= k - 2,
                k == self.chain@.len(),
                4 <= k,
                newly@.len() == i - 1,
                forall|j: int| 0 <= j < i - 1 ==> leaf_equiv(#[trigger] newly@[j], self.chain@[j + 1]),
            decreases k - i,
        {
            let l = self.chain[i].duplicate();
            newly.push(l);
            i = i + 1;
        }
        let mut announced: Vec<Leaf> = Vec::new();
        let mut i2: usize = 0;
        while i2 < newly.len()
            invariant
                i2 <= newly@.len(),
                announced@.len() == i2,
                forall|j: int| 0 <= j < i2 ==> leaf_equiv(#[trigger] announced@[j], newly@[j]),
            decreases newly@.len() - i2,
        {
            let l = newly[i2].duplicate();
            announced.push(l);
            i2 = i2 + 1;
        }
        let mut idx: usize = 0;
        let n_new = newly.len();
        while idx < n_new
            invariant
                idx <= n_new,
                n_new == newly@.len(),
                self.decided@.len() == old(self).decided@.len() + idx,
                old(self).decided@.is_prefix_of(self.decided@),
                forall|j: int|
                    0 <= j < idx ==> leaf_equiv(
                        self.decided@[old(self).decided@.len() + j],
                        #[trigger] newly@[j],
                    ),
                self.me == old(self).me,
                self.cur_view == old(self).cur_view,
                self.last_voted_view == old(self).last_voted_view,
                self.locked_view == old(self).locked_view,
                self.locked_commitment == old(self).locked_commitment,
                self.high_qc == old(self).high_qc,
                self.pending_payload == old(self).pending_payload,
                self.pending_proposal == old(self).pending_proposal,
                self.da_seen == old(self).da_seen,
                self.last_voted_leaf == old(self).last_voted_leaf,
                self.acc_quorum == old(self).acc_quorum,
                self.acc_timeout == old(self).acc_timeout,
                self.exited == old(self).exited,
                self.chain == old(self).chain,
            decreases n_new - idx,
        {
            let l = newly[idx].duplicate();
            self.decided.push(l);
            idx = idx + 1;
        }
        proof {
            let t0 = old(self).decided@;
            let d = self.decided@;
            let ch = old(self).chain@;
            assert forall|i: int|
                0 <= i < d.len() - 1 implies (#[trigger] d[i + 1]).parent_commitment
                == d[i].commitment && d[i + 1].view > d[i].view && d[i + 1].height == d[i].height
                + 1 by {
                if i < t0.len() - 1 {
                    assert(d[i] == t0[i]);
                    assert(d[i + 1] == t0[i + 1]);
                } else if i == t0.len() - 1 {
                    assert(leaf_equiv(d[i], ch[0]));
                    assert(leaf_equiv(d[i + 1], newly@[0]));
                    assert(leaf_equiv(newly@[0], ch[1]));
                    assert(ch[1].parent_commitment == ch[0].commitment);
                } else {
                    let j = i - t0.len();
                    assert(leaf_equiv(d[t0.len() + j], newly@[j]));
                    assert(leaf_equiv(newly@[j], ch[j + 1]));
                    assert(leaf_equiv(d[t0.len() + (j + 1)], newly@[j + 1]));
                    assert(leaf_equiv(newly@[j + 1], ch[j + 2]));
                    assert(ch[j + 2].parent_commitment == ch[j + 1].commitment);
                }
            };
        }
        // The branch keeps the three consecutive leaves, rooted at the newly
        // decided one.
        let mut rest: Vec<Leaf> = Vec::new();
        let mut i3: usize = k - 3;
        while i3 < k
            invariant
                k - 3 <= i3 <= k,
                k == self.chain@.len(),
                4 <= k,
                rest@.len() == i3 - (k - 3),
                forall|j: int|
                    0 <= j < i3 - (k - 3) ==> leaf_equiv(
                        #[trigger] rest@[j],
                        self.chain@[j + (k - 3)],
                    ),
            decreases k - i3,
        {
            let l = self.chain[i3].duplicate();
            rest.push(l);
            i3 = i3 + 1;
        }
        self.chain = rest;
        proof {
            let ch = old(self).chain@;
            let t0 = old(self).decided@;
            assert forall|i2: int|
                0 <= i2 < self.chain@.len() - 1 implies (#[trigger] self.chain@[i2
                + 1]).parent_commitment == self.chain@[i2].commitment && self.chain@[i2 + 1].view
                > self.chain@[i2].view && self.chain@[i2 + 1].height == self.chain@[i2].height
                + 1 by {
                assert(leaf_equiv(self.chain@[i2], ch[i2 + (k - 3)]));
                assert(leaf_equiv(self.chain@[i2 + 1], ch[(i2 + 1) + (k - 3)]));
                assert(ch[(i2 + (k - 3)) + 1].parent_commitment == ch[i2 + (k - 3)].commitment);
            };
            let d = self.decided@;
            assert(leaf_equiv(d[t0.len() + (newly@.len() - 1)], newly@[newly@.len() - 1]));
            assert(leaf_equiv(newly@[newly@.len() - 1], ch[k - 3]));
            assert(leaf_equiv(self.chain@.first(), ch[k - 3]));
            assert forall|i2: int| 0 <= i2 < d.len() implies leaf_equiv(
                d[i2],
                (t0 + announced@)[i2],
            ) by {
                if i2 < t0.len() {
                    assert(d[i2] == t0[i2]);
                } else {
                    let j = i2 - t0.len();
                    assert(leaf_equiv(d[t0.len() + j], newly@[j]));
                    assert(leaf_equiv(announced@[j], newly@[j]));
                    assert((t0 + announced@)[i2] == announced@[j]);
                }
            };
            assert(leaves_equiv(self.decided@, t0 + announced@));
        }
        Some(announced)
    }
}

/// Whether this replica can propose right now: it leads the current view,
/// the certified branch ends at the leaf its high certificate certifies, and
/// the arithmetic has room for one more leaf.
pub open spec fn can_propose(s: ConsensusState, t: Seq<StakeEntry>) -> bool {
    &&& s.cur_view as int % t.len() as int == s.me as int
    &&& s.chain@.last().commitment == s.high_qc.commitment
    &&& s.chain@.last().height < u64::MAX
    &&& s.high_qc.view < s.cur_view
}

/// What the proposal a leader sends out looks like: a leaf for the current
/// view extending the certified tip, carrying the payload the DA side handed
/// over, justified by the high certificate, signed by the leader.
pub open spec fn proposed_leaf_matches(
    pp: Proposal<QuorumProposal>,
    key: u64,
    s: ConsensusState,
    t: Seq<StakeEntry>,
    c: u64,
    m: u64,
) -> bool {
    let leaf = pp.data.leaf;
    &&& pp.signer == s.me
    &&& key == t[s.me as int].key
    &&& pp.signature == sig_of(key, leaf.commitment)
    &&& leaf.view == s.cur_view
    &&& leaf.payload_commitment == c
    &&& leaf.metadata == m
    &&& leaf.proposer == s.me
    &&& leaf.parent_commitment == s.chain@.last().commitment
    &&& leaf.height == s.chain@.last().height + 1
    &&& leaf.commitment == leaf_commitment_of(s.cur_view, s.chain@.last().commitment, c)
    &&& cert_equiv(leaf.justify_qc, s.high_qc)
}

impl ConsensusState {
    /// React to one bus event: the returned events are what the task
    /// publishes in turn. Carries the voting discipline, view monotonicity,
    /// the append-only decided chain, certificate soundness of anything this
    /// task forms, and immediate exit on `Shutdown`.
    pub fn handle_event(&mut self, event: HotShotEvent, table: &StakeTable) -> (out: Vec<
        HotShotEvent,
    >)
        requires
            old(self).wf(table.entries@),
            table.wf(),
        ensures
            final(self).wf(table.entries@),
            vote_discipline(*old(self), out@, *final(self)),
            final(self).cur_view >= old(self).cur_view,
            final(self).high_qc.view >= old(self).high_qc.view,
            old(self).decided@.is_prefix_of(final(self).decided@),
            old(self).exited ==> *final(self) == *old(self) && out@.len() == 0,
            event is Shutdown ==> final(self).exited && out@.len() == 0,
            !(event is Shutdown) ==> final(self).exited == old(self).exited,
            forall|k: int|
                0 <= k < out@.len() ==> ((#[trigger] out@[k]) matches HotShotEvent::QCFormed(f)
                    ==> ((f matches FormedCert::Qc(c) ==> c.valid(table.entries@) && c.kind
                    == VoteKind::Quorum) && (f matches FormedCert::Tc(c) ==> c.valid(
                    table.entries@,
                ) && c.kind == VoteKind::Timeout))),
            forall|k: int|
                0 <= k < out@.len() ==> ((#[trigger] out@[k]) matches HotShotEvent::LeafDecided(ls)
                    ==> leaves_equiv(final(self).decided@, old(self).decided@ + ls@)),
            event matches HotShotEvent::ViewChange(v) ==> (!old(self).exited
                ==> final(self).cur_view == (if v > old(self).cur_view {
                v
            } else {
                old(self).cur_view
            })),
            event matches HotShotEvent::Timeout(v) ==> (!old(self).exited
                && v >= old(self).cur_view && v > old(self).last_voted_view
                ==> out@.contains(HotShotEvent::TimeoutVoteSend(timeout_vote_for(*old(self), v)))
                && final(self).last_voted_view == v),
            event matches HotShotEvent::Timeout(v) ==> (!old(self).exited
                && v >= old(self).cur_view && v > old(self).last_voted_view
                && old(self).consecutive_timeouts >= 1 && v < u64::MAX ==> out@.contains(
                HotShotEvent::ViewSyncTrigger((v + 1) as u64),
            )),
            event matches HotShotEvent::QuorumProposalRecv(p, s) ==> (!old(self).exited
                && old(self).da_seen@.contains(p.data.leaf.view)
                && proposal_acceptable(*old(self), table.entries@, p, s)
                ==> out@.contains(
                    HotShotEvent::QuorumVoteSend(quorum_vote_for(*old(self), p.data.leaf)),
                ) && final(self).last_voted_view == p.data.leaf.view),
            event matches HotShotEvent::SendPayloadCommitmentAndMetadata(c, m) ==> (!old(self).exited
                && can_propose(*old(self), table.entries@) ==> exists|k: int|
                0 <= k < out@.len() && ((#[trigger] out@[k]) matches
                    HotShotEvent::QuorumProposalSend(pp, key) && proposed_leaf_matches(
                    pp,
                    key,
                    *old(self),
                    table.entries@,
                    c,
                    m,
                ))),
    {
        let mut out: Vec<HotShotEvent> = Vec::new();
        if self.exited {
            return out;
        }
        match event {
            HotShotEvent::Shutdown => {
                self.exited = true;
                out
            },
            HotShotEvent::ViewChange(v) => {
                if v > self.cur_view {
                    self.cur_view = v;
                    self.pending_payload = None;
                    self.consecutive_timeouts = 0;
                }
                out
            },
            HotShotEvent::SendPayloadCommitmentAndMetadata(c, m) => {
                self.pending_payload = Some((c, m));
                let is_leader = table.leader_of(self.cur_view) == self.me;
                let tip_matches: bool = {
                    let tip = &self.chain[self.chain.len() - 1];
                    tip.commitment == self.high_qc.commitment && tip.height < u64::MAX
                };
                if is_leader && tip_matches && self.high_qc.view < self.cur_view {
                    let tip_commitment = self.chain[self.chain.len() - 1].commitment;
                    let tip_height = self.chain[self.chain.len() - 1].height;
                    let commitment = leaf_commitment(self.cur_view, tip_commitment, c);
                    let key = table.key_at(self.me);
                    let leaf = Leaf {
                        view: self.cur_view,
                        height: tip_height + 1,
                        parent_commitment: tip_commitment,
                        commitment,
                        payload_commitment: c,
                        metadata: m,
                        proposer: self.me,
                        justify_qc: self.high_qc.duplicate(),
                    };
                    let signature = sign(key, commitment);
                    let pp = Proposal { data: QuorumProposal { leaf }, signature, signer: self.me };
                    out.push(HotShotEvent::QuorumProposalSend(pp, key));
                    proof {
                        assert(out@[out@.len() - 1] matches HotShotEvent::QuorumProposalSend(
                            pp2,
                            key2,
                        ) && proposed_leaf_matches(pp2, key2, *old(self), table.entries@, c, m));
                    }
                }
                out
            },
            HotShotEvent::QuorumProposalRecv(p, s) => {
                if contains_view(&self.da_seen, p.data.leaf.view) {
                    self.process_proposal(p, s, table)
                } else {
                    self.pending_proposal = Some((p, s));
                    out
                }
            },
            HotShotEvent::DACRecv(c) => {
                if c.kind == VoteKind::DA && c.verify(table) {
                    if !contains_view(&self.da_seen, c.view) {
                        self.da_seen.push(c.view);
                    }
                    let pending = self.pending_proposal.take();
                    match pending {
                        Some((p, s)) => {
                            if p.data.leaf.view == c.view {
                                return self.process_proposal(p, s, table);
                            } else {
                                self.pending_proposal = Some((p, s));
                            }
                        },
                        None => {},
                    }
                }
                out
            },
            HotShotEvent::QuorumVoteRecv(v) => {
                if v.kind == VoteKind::Quorum && v.view < u64::MAX && table.leader_of(v.view + 1)
                    == self.me {
                    if v.view > self.acc_quorum.view {
                        self.acc_quorum = VoteAccumulator::new(
                            v.view,
                            v.commitment,
                            VoteKind::Quorum,
                            table,
                        );
                    }
                    let formed = self.acc_quorum.accumulate(v, table);
                    match formed {
                        Some(c) => {
                            out.push(HotShotEvent::QCFormed(FormedCert::Qc(c)));
                        },
                        None => {},
                    }
                }
                out
            },
            HotShotEvent::TimeoutVoteRecv(v) => {
                if v.kind == VoteKind::Timeout && v.view < u64::MAX && table.leader_of(v.view + 1)
                    == self.me {
                    if v.view > self.acc_timeout.view {
                        self.acc_timeout = VoteAccumulator::new(
                            v.view,
                            v.commitment,
                            VoteKind::Timeout,
                            table,
                        );
                    }
                    let formed = self.acc_timeout.accumulate(v, table);
                    match formed {
                        Some(c) => {
                            out.push(HotShotEvent::QCFormed(FormedCert::Tc(c)));
                        },
                        None => {},
                    }
                }
                out
            },
            HotShotEvent::QCFormed(f) => {
                match f {
                    FormedCert::Qc(c) => {
                        if c.kind == VoteKind::Quorum && c.view > self.high_qc.view && c.verify(
                            table,
                        ) {
                            // The certificate certifies the leaf this replica
                            // voted on last; if that leaf extends the
                            // certified branch, grow it and run the
                            // three-chain rule.
                            let certified = self.last_voted_leaf.take();
                            match certified {
                                Some(cand) => {
                                    let tip_ok: bool = {
                                        let tip = &self.chain[self.chain.len() - 1];
                                        cand.commitment == c.commitment && cand.parent_commitment
                                            == tip.commitment && cand.view > tip.view
                                            && cand.height > tip.height && cand.height - tip.height
                                            == 1
                                    };
                                    if tip_ok {
                                        self.chain.push(cand);
                                        let decided_events = self.try_decide();
                                        match decided_events {
                                            Some(ls) => {
                                                out.push(HotShotEvent::LeafDecided(ls));
                                            },
                                            None => {},
                                        }
                                    } else {
                                        self.last_voted_leaf = Some(cand);
                                    }
                                },
                                None => {},
                            }
                            // The fresh certificate drives proposing in the
                            // next view.
                            if c.view < u64::MAX {
                                out.push(HotShotEvent::ViewChange(c.view + 1));
                            }
                            self.high_qc = c;
                        }
                    },
                    FormedCert::Tc(c) => {
                        // A timeout certificate advances the view without a
                        // fresh quorum certificate.
                        if c.kind == VoteKind::Timeout && c.view < u64::MAX {
                            out.push(HotShotEvent::ViewChange(c.view + 1));
                        }
                    },
                }
                out
            },
            HotShotEvent::Timeout(v) => {
                if v >= self.cur_view && v > self.last_voted_view {
                    let vote = Vote {
                        signer: self.me,
                        view: v,
                        commitment: v,
                        kind: VoteKind::Timeout,
                    };
                    self.last_voted_view = v;
                    out.push(HotShotEvent::TimeoutVoteSend(vote));
                    // Enough consecutive timeouts activate the view-sync
                    // protocol towards the next view.
                    if self.consecutive_timeouts < u64::MAX {
                        self.consecutive_timeouts = self.consecutive_timeouts + 1;
                    }
                    if self.consecutive_timeouts >= 2 && v < u64::MAX {
                        out.push(HotShotEvent::ViewSyncTrigger(v + 1));
                    }
                    proof {
                        assert(out@[0] == HotShotEvent::TimeoutVoteSend(
                            timeout_vote_for(*old(self), v),
                        ));
                        assert(out@.contains(
                            HotShotEvent::TimeoutVoteSend(timeout_vote_for(*old(self), v)),
                        ));
                        if out@.len() == 2 {
                            assert(out@[1] == HotShotEvent::ViewSyncTrigger((v + 1) as u64));
                            assert(out@.contains(HotShotEvent::ViewSyncTrigger((v + 1) as u64)));
                        }
                    }
                }
                out
            },
            _ => out,
        }
    }
}

/// A run of the consensus task: `states` are the successive task states and
/// `outs[k]` the events published in the step from `states[k]` to
/// `states[k + 1]`, each step obeying the voting discipline that
/// `handle_event` ensures.
pub open spec fn consensus_trace(states: Seq<ConsensusState>, outs: Seq<Seq<HotShotEvent>>) -> bool {
    &&& states.len() == outs.len() + 1
    &&& forall|k: int|
        0 <= k < outs.len() ==> vote_discipline(states[k], #[trigger] outs[k], states[k + 1])
}

/// Along a run, the last-voted view never decreases.
pub proof fn lemma_last_voted_monotone(
    states: Seq<ConsensusState>,
    outs: Seq<Seq<HotShotEvent>>,
    i: int,
    j: int,
)
    requires
        consensus_trace(states, outs),
        0 <= i <= j < states.len(),
    ensures
        states[i].last_voted_view <= states[j].last_voted_view,
    decreases j - i,
{
    if i < j {
        lemma_last_voted_monotone(states, outs, i, j - 1);
        assert(vote_discipline(states[j - 1], outs[j - 1], states[j]));
    }
}

/// Non-equivocation: over a whole run, no two distinct vote emissions — be
/// they quorum or timeout votes — are for the same view. In particular each
/// replica emits at most one quorum vote and at most one timeout vote per
/// view, and never both.
pub proof fn lemma_non_equivocation(
    states: Seq<ConsensusState>,
    outs: Seq<Seq<HotShotEvent>>,
    i: int,
    j: int,
    ki: int,
    kj: int,
)
    requires
        consensus_trace(states, outs),
        0 <= i <= j < outs.len(),
        0 <= ki < outs[i].len(),
        0 <= kj < outs[j].len(),
        i != j || ki != kj,
        emitted_vote(outs[i][ki]) is Some,
        emitted_vote(outs[j][kj]) is Some,
    ensures
        i != j,
        emitted_vote(outs[i][ki]).unwrap().view != emitted_vote(outs[j][kj]).unwrap().view,
{
    assert(vote_discipline(states[i], outs[i], states[i + 1]));
    assert(vote_discipline(states[j], outs[j], states[j + 1]));
    if i == j {
        if ki < kj {
            assert(!(emitted_vote(outs[i][ki]) is Some && emitted_vote(outs[i][kj]) is Some));
        } else {
            assert(!(emitted_vote(outs[i][kj]) is Some && emitted_vote(outs[i][ki]) is Some));
        }
    } else {
        lemma_last_voted_monotone(states, outs, i + 1, j);
    }
}

/// In a linked chain the heights are consecutive, so a replica holds at most
/// one leaf per height: the leaf at height `h` of a decided chain rooted at
/// a height-zero genesis is its entry `h`, and no other.
pub proof fn lemma_chain_heights(c: Seq<Leaf>, i: int)
    requires
        chain_linked(c),
        0 <= i < c.len(),
    ensures
        c[i].height == c[0].height + i,
    decreases i,
{
    if i > 0 {
        lemma_chain_heights(c, i - 1);
        assert(c[(i - 1) + 1].height == c[i - 1].height + 1);
    }
}

/// A replica never decides two leaves at the same height: the decided chain
/// is height-indexed.
pub proof fn lemma_one_leaf_per_height(c: Seq<Leaf>, i: int, j: int)
    requires
        chain_linked(c),
        0 <= i < j < c.len(),
    ensures
        c[i].height != c[j].height,
{
    lemma_chain_heights(c, i);
    lemma_chain_heights(c, j);
}

/// Monotonic views: along a run whose every step keeps the current view from
/// decreasing — as `handle_event` ensures — the observed view number never
/// decreases.
pub proof fn lemma_view_monotone(states: Seq<ConsensusState>, i: int, j: int)
    requires
        forall|k: int| 0 <= k < states.len() - 1 ==> (#[trigger] states[k + 1]).cur_view
            >= states[k].cur_view,
        0 <= i <= j < states.len(),
    ensures
        states[i].cur_view <= states[j].cur_view,
    decreases j - i,
{
    if i < j {
        lemma_view_monotone(states, i, j - 1);
        assert(states[(j - 1) + 1].cur_view >= states[j - 1].cur_view);
    }
}

/// Whether `views` holds `x`.
fn contains_view(views: &Vec<u64>, x: u64) -> (r: bool)
    ensures
        r == views@.contains(x),
{
    let mut i: usize = 0;
    while i < views.len()
        invariant
            i <= views@.len(),
            forall|j: int| 0 <= j < i ==> views@[j] != x,
        decreases views@.len() - i,
    {
        if views[i] == x {
            return true;
        }
        i = i + 1;
    }
    false
}

} // verus!
