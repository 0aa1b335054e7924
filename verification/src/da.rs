//! The data-availability task: the DA leader packs a block, proposes it to
//! the DA committee and disperses VID shares; committee members vote; the
//! leader aggregates votes into DA and VID certificates.

use vstd::prelude::*;
use crate::data::{sig_of, sign, BlockPayload, DAProposal, Proposal, Transaction, VidDisperse};
use crate::events::HotShotEvent;
use crate::stake::{StakeEntry, StakeTable};
use crate::votes::{Vote, VoteAccumulator, VoteKind};

verus! {

/// The modelled commitment of a block payload: a fold over its transactions.
pub open spec fn payload_commitment_of(s: Seq<Transaction>) -> u64
    decreases s.len(),
{
    if s.len() == 0 {
        0
    } else {
        payload_commitment_of(s.drop_last()) ^ s.last().body
    }
}

/// Compute a block payload's commitment.
pub fn payload_commitment(p: &BlockPayload) -> (r: u64)
    ensures
        r == payload_commitment_of(p.txns@),
{
    let mut acc: u64 = 0;
    let mut i: usize = 0;
    while i < p.txns.len()
        invariant
            i <= p.txns@.len(),
            acc == payload_commitment_of(p.txns@.take(i as int)),
        decreases p.txns@.len() - i,
    {
        proof {
            assert(p.txns@.take(i + 1).drop_last() =~= p.txns@.take(i as int));
            assert(p.txns@.take(i + 1).last() == p.txns@[i as int]);
        }
        acc = acc ^ p.txns[i].body;
        i = i + 1;
    }
    proof {
        assert(p.txns@.take(p.txns@.len() as int) =~= p.txns@);
    }
    acc
}

/// The checks a DA proposal must pass before a committee member votes on it:
/// the sender leads the proposal's view and signed the payload commitment,
/// and the view is newer than anything this member voted on.
pub open spec fn da_proposal_acceptable(
    s: DATaskState,
    t: Seq<StakeEntry>,
    p: Proposal<DAProposal>,
    sender: u64,
) -> bool {
    &&& (p.signer as int) < t.len()
    &&& p.data.view as int % t.len() as int == p.signer as int
    &&& sender == t[p.signer as int].key
    &&& p.signature == sig_of(t[p.signer as int].key, p.data.payload_commitment)
    &&& p.data.view > s.last_da_voted_view
    &&& (s.me as int) < s.da_committee_size as int
}

/// Private state of the DA task on one replica.
#[derive(Clone, Debug)]
pub struct DATaskState {
    /// This replica's index in the stake table
    pub me: usize,
    /// The current view
    pub cur_view: u64,
    /// Size of the DA committee: the first entries of the stake table
    pub da_committee_size: usize,
    /// The newest view this member cast a DA vote in
    pub last_da_voted_view: u64,
    /// DA vote accumulator, as DA leader
    pub acc_da: VoteAccumulator,
    /// VID vote accumulator, as VID leader
    pub acc_vid: VoteAccumulator,
    /// Whether the task has observed `Shutdown` and exited
    pub exited: bool,
}

impl DATaskState {
    /// Well-formedness against the stake table.
    pub open spec fn wf(&self, t: Seq<StakeEntry>) -> bool {
        &&& (self.me as int) < t.len()
        &&& self.acc_da.wf(t)
        &&& self.acc_da.kind == VoteKind::DA
        &&& self.acc_vid.wf(t)
        &&& self.acc_vid.kind == VoteKind::Vid
    }

    /// A fresh DA task.
    pub fn new(me: usize, da_committee_size: usize, table: &StakeTable) -> (r: Self)
        requires
            (me as int) < table.entries@.len(),
        ensures
            r.wf(table.entries@),
            r.me == me,
            r.cur_view == 0,
            r.last_da_voted_view == 0,
            r.da_committee_size == da_committee_size,
            !r.exited,
    {
        DATaskState {
            me,
            cur_view: 0,
            da_committee_size,
            last_da_voted_view: 0,
            acc_da: VoteAccumulator::new(0, 0, VoteKind::DA, table),
            acc_vid: VoteAccumulator::new(0, 0, VoteKind::Vid, table),
            exited: false,
        }
    }

    /// React to one bus event.
    pub fn handle_event(&mut self, event: HotShotEvent, table: &StakeTable) -> (out: Vec<
        HotShotEvent,
    >)
        requires
            old(self).wf(table.entries@),
            table.wf(),
        ensures
            final(self).wf(table.entries@),
            final(self).cur_view >= old(self).cur_view,
            final(self).last_da_voted_view >= old(self).last_da_voted_view,
            old(self).exited ==> *final(self) == *old(self) && out@.len() == 0,
            event is Shutdown ==> final(self).exited && out@.len() == 0,
            !(event is Shutdown) ==> final(self).exited == old(self).exited,
            forall|k: int|
                0 <= k < out@.len() ==> ((#[trigger] out@[k]) matches HotShotEvent::DACSend(c, s)
                    ==> c.valid(table.entries@) && c.kind == VoteKind::DA),
            forall|k: int|
                0 <= k < out@.len() ==> ((#[trigger] out@[k]) matches HotShotEvent::VidCertSend(
                    c,
                    s,
                ) ==> c.valid(table.entries@) && c.kind == VoteKind::Vid),
            forall|k: int|
                0 <= k < out@.len() ==> ((#[trigger] out@[k]) matches HotShotEvent::DAVoteSend(v)
                    ==> v.signer == old(self).me && v.kind == VoteKind::DA && v.view > old(
                    self,
                ).last_da_voted_view),
            event matches HotShotEvent::DAProposalRecv(p, s) ==> (!old(self).exited
                && da_proposal_acceptable(*old(self), table.entries@, p, s) ==> out@.contains(
                HotShotEvent::DAVoteSend(
                    Vote {
                        signer: old(self).me,
                        view: p.data.view,
                        commitment: p.data.payload_commitment,
                        kind: VoteKind::DA,
                    },
                ),
            ) && final(self).last_da_voted_view == p.data.view),
            event matches HotShotEvent::BlockReady(payload, m, v) ==> (!old(self).exited
                && v as int % table.entries@.len() as int == old(self).me as int ==> ({
                let pc = payload_commitment_of(payload.txns@);
                out@.contains(HotShotEvent::SendPayloadCommitmentAndMetadata(pc, m))
            })),
    {
        let mut out: Vec<HotShotEvent> = Vec::new();
        if self.exited {
            return out;
        }
        match event {
            HotShotEvent::Shutdown => {
                self.exited = true;
                out
            },
            HotShotEvent::ViewChange(v) => {
                if v > self.cur_view {
                    self.cur_view = v;
                }
                out
            },
            HotShotEvent::BlockReady(payload, m, v) => {
                if table.leader_of(v) == self.me {
                    let pc = payload_commitment(&payload);
                    let key = table.key_at(self.me);
                    let signature = sign(key, pc);
                    let da_prop = Proposal {
                        data: DAProposal { payload_commitment: pc, metadata: m, view: v },
                        signature,
                        signer: self.me,
                    };
                    let vid_prop = Proposal {
                        data: VidDisperse { view: v, payload_commitment: pc },
                        signature,
                        signer: self.me,
                    };
                    out.push(HotShotEvent::DAProposalSend(da_prop, key));
                    out.push(HotShotEvent::VidDisperseSend(vid_prop, key));
                    out.push(HotShotEvent::SendPayloadCommitmentAndMetadata(pc, m));
                    proof {
                        assert(out@[2] == HotShotEvent::SendPayloadCommitmentAndMetadata(
                            payload_commitment_of(payload.txns@),
                            m,
                        ));
                    }
                }
                out
            },
            HotShotEvent::DAProposalRecv(p, s) => {
                if p.signer >= table.len() {
                    return out;
                }
                if table.leader_of(p.data.view) != p.signer {
                    return out;
                }
                let leader_key = table.key_at(p.signer);
                if s != leader_key {
                    return out;
                }
                if p.signature != sign(leader_key, p.data.payload_commitment) {
                    return out;
                }
                if p.data.view <= self.last_da_voted_view {
                    return out;
                }
                if self.me >= self.da_committee_size {
                    return out;
                }
                let vote = Vote {
                    signer: self.me,
                    view: p.data.view,
                    commitment: p.data.payload_commitment,
                    kind: VoteKind::DA,
                };
                self.last_da_voted_view = p.data.view;
                out.push(HotShotEvent::DAVoteSend(vote));
                proof {
                    assert(out@.last() == HotShotEvent::DAVoteSend(vote));
                    assert(out@.contains(HotShotEvent::DAVoteSend(vote)));
                }
                out
            },
            HotShotEvent::VidDisperseRecv(p, s) => {
                if p.signer >= table.len() {
                    return out;
                }
                let leader_key = table.key_at(p.signer);
                if s != leader_key {
                    return out;
                }
                if p.signature != sign(leader_key, p.data.payload_commitment) {
                    return out;
                }
                let vote = Vote {
                    signer: self.me,
                    view: p.data.view,
                    commitment: p.data.payload_commitment,
                    kind: VoteKind::Vid,
                };
                out.push(HotShotEvent::VidVoteSend(vote));
                out
            },
            HotShotEvent::DAVoteRecv(v) => {
                if v.kind == VoteKind::DA && table.leader_of(v.view) == self.me {
                    if v.view > self.acc_da.view {
                        self.acc_da = VoteAccumulator::new(v.view, v.commitment, VoteKind::DA, table);
                    }
                    let formed = self.acc_da.accumulate(v, table);
                    match formed {
                        Some(c) => {
                            let key = table.key_at(self.me);
                            let c2 = c.duplicate();
                            proof {
                                crate::votes::lemma_cert_equiv_valid(c2, c, table.entries@);
                            }
                            out.push(HotShotEvent::DACSend(c, key));
                            out.push(HotShotEvent::DACRecv(c2));
                        },
                        None => {},
                    }
                }
                out
            },
            HotShotEvent::VidVoteRecv(v) => {
                if v.kind == VoteKind::Vid && table.leader_of(v.view) == self.me {
                    if v.view > self.acc_vid.view {
                        self.acc_vid = VoteAccumulator::new(
                            v.view,
                            v.commitment,
                            VoteKind::Vid,
                            table,
                        );
                    }
                    let formed = self.acc_vid.accumulate(v, table);
                    match formed {
                        Some(c) => {
                            let key = table.key_at(self.me);
                            let c2 = c.duplicate();
                            proof {
                                crate::votes::lemma_cert_equiv_valid(c2, c, table.entries@);
                            }
                            out.push(HotShotEvent::VidCertSend(c, key));
                            out.push(HotShotEvent::VidCertRecv(c2));
                        },
                        None => {},
                    }
                }
                out
            },
            _ => out,
        }
    }
}

} // verus!
