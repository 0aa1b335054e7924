//! The view-synchronization task: after repeated timeouts, replicas run a
//! three-phase protocol (pre-commit, commit, finalize) towards a target
//! view, with a rotating relay aggregating each phase's votes. A finalize
//! certificate produces the `ViewChange`; a normal-path view change to a
//! view at least as high always wins, and a finalize for a lower view is
//! ignored.

use vstd::prelude::*;
use crate::events::{HotShotEvent, ViewSyncPhase};
use crate::stake::{StakeEntry, StakeTable};
use crate::votes::{Vote, VoteAccumulator, VoteKind};

verus! {

/// Private state of the view-sync task on one replica.
#[derive(Clone, Debug)]
pub struct ViewSyncTaskState {
    /// This replica's index in the stake table
    pub me: usize,
    /// The highest view this replica has entered
    pub cur_view: u64,
    /// The phase of the round in progress
    pub phase: ViewSyncPhase,
    /// The relay rotation index of the round in progress
    pub relay_round: u64,
    /// Pre-commit vote accumulator, as relay
    pub acc_pre: VoteAccumulator,
    /// Commit vote accumulator, as relay
    pub acc_commit: VoteAccumulator,
    /// Finalize vote accumulator, as relay
    pub acc_finalize: VoteAccumulator,
    /// Whether the task has observed `Shutdown` and exited
    pub exited: bool,
}

/// The relay of a round: a deterministic rotation over the stake table,
/// seeded by the target view and advanced each time a phase times out.
pub open spec fn relay_of(target: u64, round: u64, n: int) -> int {
    (target + round) as int % n
}

impl ViewSyncTaskState {
    /// Well-formedness against the stake table.
    pub open spec fn wf(&self, t: Seq<StakeEntry>) -> bool {
        &&& (self.me as int) < t.len()
        &&& self.acc_pre.wf(t)
        &&& self.acc_pre.kind == VoteKind::ViewSyncPreCommit
        &&& self.acc_commit.wf(t)
        &&& self.acc_commit.kind == VoteKind::ViewSyncCommit
        &&& self.acc_finalize.wf(t)
        &&& self.acc_finalize.kind == VoteKind::ViewSyncFinalize
    }

    /// A fresh view-sync task.
    pub fn new(me: usize, table: &StakeTable) -> (r: Self)
        requires
            (me as int) < table.entries@.len(),
        ensures
            r.wf(table.entries@),
            r.me == me,
            r.cur_view == 0,
            r.phase == ViewSyncPhase::Idle,
            !r.exited,
    {
        ViewSyncTaskState {
            me,
            cur_view: 0,
            phase: ViewSyncPhase::Idle,
            relay_round: 0,
            acc_pre: VoteAccumulator::new(0, 0, VoteKind::ViewSyncPreCommit, table),
            acc_commit: VoteAccumulator::new(0, 0, VoteKind::ViewSyncCommit, table),
            acc_finalize: VoteAccumulator::new(0, 0, VoteKind::ViewSyncFinalize, table),
            exited: false,
        }
    }

    /// Whether this replica relays the round towards `target` at rotation
    /// index `round`.
    fn is_relay(&self, target: u64, round: u64, table: &StakeTable) -> (r: bool)
        requires
            table.entries@.len() >= 1,
        ensures
            r == (relay_of(target, round, table.entries@.len() as int) == self.me as int),
    {
        let n = table.len() as u64;
        let sum = target.checked_add(round);
        match sum {
            Some(s) => (s % n) as usize == self.me,
            None => {
                proof {
                    assert(target + round > u64::MAX);
                }
                // The rotation index wraps only after an unreachable number
                // of rounds; treat the sum exactly as the specification does.
                let wide: u128 = target as u128 + round as u128;
                ((wide % (n as u128)) as u64 as usize) == self.me
            },
        }
    }

    /// React to one bus event.
    pub fn handle_event(&mut self, event: HotShotEvent, table: &StakeTable) -> (out: Vec<
        HotShotEvent,
    >)
        requires
            old(self).wf(table.entries@),
            table.wf(),
        ensures
            final(self).wf(table.entries@),
            final(self).cur_view >= old(self).cur_view,
            old(self).exited ==> *final(self) == *old(self) && out@.len() == 0,
            event is Shutdown ==> final(self).exited && out@.len() == 0,
            !(event is Shutdown) ==> final(self).exited == old(self).exited,
            forall|k: int|
                0 <= k < out@.len() ==> ((#[trigger] out@[k]) matches
                    HotShotEvent::ViewSyncPreCommitCertificate2Send(c, s) ==> c.valid(
                    table.entries@,
                ) && c.kind == VoteKind::ViewSyncPreCommit),
            forall|k: int|
                0 <= k < out@.len() ==> ((#[trigger] out@[k]) matches
                    HotShotEvent::ViewSyncCommitCertificate2Send(c, s) ==> c.valid(table.entries@)
                    && c.kind == VoteKind::ViewSyncCommit),
            forall|k: int|
                0 <= k < out@.len() ==> ((#[trigger] out@[k]) matches
                    HotShotEvent::ViewSyncFinalizeCertificate2Send(c, s) ==> c.valid(
                    table.entries@,
                ) && c.kind == VoteKind::ViewSyncFinalize),
            event matches HotShotEvent::ViewSyncFinalizeCertificate2Recv(c) ==> (!old(self).exited
                ==> ((c.kind == VoteKind::ViewSyncFinalize && c.valid(table.entries@) && c.view
                > old(self).cur_view) ==> final(self).cur_view == c.view && out@.contains(
                HotShotEvent::ViewChange(c.view),
            ))),
            event matches HotShotEvent::ViewSyncFinalizeCertificate2Recv(c) ==> (!old(self).exited
                && c.view <= old(self).cur_view ==> *final(self) == *old(self) && out@.len() == 0),
    {
        let mut out: Vec<HotShotEvent> = Vec::new();
        if self.exited {
            return out;
        }
        match event {
            HotShotEvent::Shutdown => {
                self.exited = true;
                out
            },
            HotShotEvent::ViewChange(v) => {
                // The normal path caught up: leave view-sync mode.
                if v > self.cur_view {
                    self.cur_view = v;
                    self.phase = ViewSyncPhase::Idle;
                    self.relay_round = 0;
                }
                out
            },
            HotShotEvent::ViewSyncTrigger(v) => {
                if v > self.cur_view {
                    let vote = Vote {
                        signer: self.me,
                        view: v,
                        commitment: v,
                        kind: VoteKind::ViewSyncPreCommit,
                    };
                    out.push(HotShotEvent::ViewSyncPreCommitVoteSend(vote));
                }
                out
            },
            HotShotEvent::ViewSyncTimeout(v, round, _phase) => {
                // A phase expired: advance the relay rotation and vote again
                // from the pre-commit phase of the next rotation.
                if v > self.cur_view {
                    self.relay_round = if round < u64::MAX {
                        round + 1
                    } else {
                        round
                    };
                    let vote = Vote {
                        signer: self.me,
                        view: v,
                        commitment: v,
                        kind: VoteKind::ViewSyncPreCommit,
                    };
                    out.push(HotShotEvent::ViewSyncPreCommitVoteSend(vote));
                }
                out
            },
            HotShotEvent::ViewSyncPreCommitVoteRecv(v) => {
                if v.kind == VoteKind::ViewSyncPreCommit && self.is_relay(
                    v.view,
                    self.relay_round,
                    table,
                ) {
                    if v.view > self.acc_pre.view {
                        self.acc_pre = VoteAccumulator::new(
                            v.view,
                            v.commitment,
                            VoteKind::ViewSyncPreCommit,
                            table,
                        );
                    }
                    let formed = self.acc_pre.accumulate(v, table);
                    match formed {
                        Some(c) => {
                            let key = table.key_at(self.me);
                            out.push(HotShotEvent::ViewSyncPreCommitCertificate2Send(c, key));
                        },
                        None => {},
                    }
                }
                out
            },
            HotShotEvent::ViewSyncCommitVoteRecv(v) => {
                if v.kind == VoteKind::ViewSyncCommit && self.is_relay(
                    v.view,
                    self.relay_round,
                    table,
                ) {
                    if v.view > self.acc_commit.view {
                        self.acc_commit = VoteAccumulator::new(
                            v.view,
                            v.commitment,
                            VoteKind::ViewSyncCommit,
                            table,
                        );
                    }
                    let formed = self.acc_commit.accumulate(v, table);
                    match formed {
                        Some(c) => {
                            let key = table.key_at(self.me);
                            out.push(HotShotEvent::ViewSyncCommitCertificate2Send(c, key));
                        },
                        None => {},
                    }
                }
                out
            },
            HotShotEvent::ViewSyncFinalizeVoteRecv(v) => {
                if v.kind == VoteKind::ViewSyncFinalize && self.is_relay(
                    v.view,
                    self.relay_round,
                    table,
                ) {
                    if v.view > self.acc_finalize.view {
                        self.acc_finalize = VoteAccumulator::new(
                            v.view,
                            v.commitment,
                            VoteKind::ViewSyncFinalize,
                            table,
                        );
                    }
                    let formed = self.acc_finalize.accumulate(v, table);
                    match formed {
                        Some(c) => {
                            let key = table.key_at(self.me);
                            out.push(HotShotEvent::ViewSyncFinalizeCertificate2Send(c, key));
                        },
                        None => {},
                    }
                }
                out
            },
            HotShotEvent::ViewSyncPreCommitCertificate2Recv(c) => {
                if c.kind == VoteKind::ViewSyncPreCommit && c.view > self.cur_view && c.verify(
                    table,
                ) {
                    self.phase = ViewSyncPhase::PreCommit;
                    let vote = Vote {
                        signer: self.me,
                        view: c.view,
                        commitment: c.view,
                        kind: VoteKind::ViewSyncCommit,
                    };
                    out.push(HotShotEvent::ViewSyncCommitVoteSend(vote));
                }
                out
            },
            HotShotEvent::ViewSyncCommitCertificate2Recv(c) => {
                if c.kind == VoteKind::ViewSyncCommit && c.view > self.cur_view && c.verify(table) {
                    self.phase = ViewSyncPhase::Commit;
                    let vote = Vote {
                        signer: self.me,
                        view: c.view,
                        commitment: c.view,
                        kind: VoteKind::ViewSyncFinalize,
                    };
                    out.push(HotShotEvent::ViewSyncFinalizeVoteSend(vote));
                }
                out
            },
            HotShotEvent::ViewSyncFinalizeCertificate2Recv(c) => {
                if c.kind == VoteKind::ViewSyncFinalize && c.view > self.cur_view && c.verify(
                    table,
                ) {
                    self.phase = ViewSyncPhase::Finalize;
                    self.cur_view = c.view;
                    out.push(HotShotEvent::ViewChange(c.view));
                    proof {
                        assert(out@.last() == HotShotEvent::ViewChange(c.view));
                        assert(out@.contains(HotShotEvent::ViewChange(c.view)));
                    }
                }
                out
            },
            _ => out,
        }
    }
}

} // verus!
