//! End-to-end runs of the verified task state machines over a simulated bus:
//! outbound `*Send` events are delivered to every live node as their
//! `*Recv` counterparts, internal events loop back to the node that
//! published them.

use std::collections::VecDeque;

use hotstuff_core::consensus::ConsensusState;
use hotstuff_core::da::DATaskState;
use hotstuff_core::data::{BlockPayload, Leaf, Transaction};
use hotstuff_core::events::HotShotEvent;
use hotstuff_core::stake::{StakeEntry, StakeTable};
use hotstuff_core::transactions::Mempool;
use hotstuff_core::viewsync::ViewSyncTaskState;
use hotstuff_core::votes::{Certificate, VoteKind};

struct Node {
    consensus: ConsensusState,
    da: DATaskState,
    vs: ViewSyncTaskState,
}

struct Sim {
    table: StakeTable,
    nodes: Vec<Node>,
    down: Vec<bool>,
    queue: VecDeque<(usize, HotShotEvent)>,
    mempool: Mempool,
    /// Highest view a block has been produced for
    max_block_view: u64,
    /// Views blocks may still be produced for
    last_view: u64,
}

fn genesis_pair(n: usize) -> (Leaf, Certificate) {
    let qc = Certificate {
        view: 0,
        commitment: 1000,
        kind: VoteKind::Quorum,
        signers: (0..n).collect(),
    };
    let leaf = Leaf {
        view: 0,
        height: 0,
        parent_commitment: 0,
        commitment: 1000,
        payload_commitment: 0,
        metadata: 0,
        proposer: 0,
        justify_qc: Certificate {
            view: 0,
            commitment: 1000,
            kind: VoteKind::Quorum,
            signers: (0..n).collect(),
        },
    };
    (leaf, qc)
}

impl Sim {
    fn new(n: usize, last_view: u64) -> Sim {
        let entries: Vec<StakeEntry> =
            (0..n).map(|i| StakeEntry { key: i as u64, stake: 1 }).collect();
        let table = StakeTable { entries };
        let nodes = (0..n)
            .map(|i| {
                let (leaf, qc) = genesis_pair(n);
                Node {
                    consensus: ConsensusState::new(i, leaf, qc, &table),
                    da: DATaskState::new(i, n, &table),
                    vs: ViewSyncTaskState::new(i, &table),
                }
            })
            .collect();
        let mut mempool = Mempool::new();
        let txns: Vec<Transaction> =
            (0..10_000u64).map(|b| Transaction { body: b }).collect();
        mempool.receive(&txns);
        Sim {
            table,
            nodes,
            down: vec![false; n],
            queue: VecDeque::new(),
            mempool,
            max_block_view: 0,
            last_view,
        }
    }

    fn broadcast(&mut self, ev: HotShotEvent) {
        for i in 0..self.nodes.len() {
            if !self.down[i] {
                self.queue.push_back((i, ev.clone()));
            }
        }
    }

    /// Translate one published event into deliveries.
    fn route(&mut self, from: usize, ev: HotShotEvent) {
        match ev {
            HotShotEvent::QuorumProposalSend(p, k) => self.broadcast(HotShotEvent::QuorumProposalRecv(p, k)),
            HotShotEvent::QuorumVoteSend(v) => self.broadcast(HotShotEvent::QuorumVoteRecv(v)),
            HotShotEvent::TimeoutVoteSend(v) => self.broadcast(HotShotEvent::TimeoutVoteRecv(v)),
            HotShotEvent::DAProposalSend(p, k) => self.broadcast(HotShotEvent::DAProposalRecv(p, k)),
            HotShotEvent::DAVoteSend(v) => self.broadcast(HotShotEvent::DAVoteRecv(v)),
            HotShotEvent::DACSend(c, _) => self.broadcast(HotShotEvent::DACRecv(c)),
            HotShotEvent::VidDisperseSend(p, k) => self.broadcast(HotShotEvent::VidDisperseRecv(p, k)),
            HotShotEvent::VidVoteSend(v) => self.broadcast(HotShotEvent::VidVoteRecv(v)),
            HotShotEvent::VidCertSend(c, _) => self.broadcast(HotShotEvent::VidCertRecv(c)),
            HotShotEvent::ViewSyncPreCommitVoteSend(v) => self.broadcast(HotShotEvent::ViewSyncPreCommitVoteRecv(v)),
            HotShotEvent::ViewSyncCommitVoteSend(v) => self.broadcast(HotShotEvent::ViewSyncCommitVoteRecv(v)),
            HotShotEvent::ViewSyncFinalizeVoteSend(v) => self.broadcast(HotShotEvent::ViewSyncFinalizeVoteRecv(v)),
            HotShotEvent::ViewSyncPreCommitCertificate2Send(c, _) => {
                self.broadcast(HotShotEvent::ViewSyncPreCommitCertificate2Recv(c))
            }
            HotShotEvent::ViewSyncCommitCertificate2Send(c, _) => {
                self.broadcast(HotShotEvent::ViewSyncCommitCertificate2Recv(c))
            }
            HotShotEvent::ViewSyncFinalizeCertificate2Send(c, _) => {
                self.broadcast(HotShotEvent::ViewSyncFinalizeCertificate2Recv(c))
            }
            other => self.queue.push_back((from, other)),
        }
    }

    /// Drain the queue, delivering every event to each of the node's tasks.
    fn run_to_quiescence(&mut self) {
        while let Some((i, ev)) = self.queue.pop_front() {
            // The transactions task and the round timer: entering a view
            // produces a block for its DA leader, up to the last view.
            if let HotShotEvent::ViewChange(v) = &ev {
                let v = *v;
                if v > self.max_block_view && v <= self.last_view {
                    self.max_block_view = v;
                    let txns = self
                        .mempool
                        .take_block(0, 3)
                        .expect("the mempool never runs dry in these runs");
                    let payload = BlockPayload { txns };
                    self.broadcast(HotShotEvent::BlockReady(payload, v, v));
                }
            }
            if self.down[i] {
                continue;
            }
            let outs1 = self.nodes[i].consensus.handle_event(ev.clone(), &self.table);
            let outs2 = self.nodes[i].da.handle_event(ev.clone(), &self.table);
            let outs3 = self.nodes[i].vs.handle_event(ev, &self.table);
            for o in outs1.into_iter().chain(outs2).chain(outs3) {
                self.route(i, o);
            }
        }
    }

    fn start(&mut self) {
        self.broadcast(HotShotEvent::ViewChange(1));
        self.run_to_quiescence();
    }

    fn decided_views(&self, i: usize) -> Vec<u64> {
        self.nodes[i].consensus.decided.iter().map(|l| l.view).collect()
    }
}

#[test]
fn happy_path_five_nodes() {
    // Five nodes, no faults: every view succeeds, and after the pipeline
    // drains each replica has decided at least twenty views, all replicas
    // agreeing on a common prefix of consecutive views.
    let mut sim = Sim::new(5, 24);
    sim.start();
    let mut min_len = usize::MAX;
    for i in 0..5 {
        let views = sim.decided_views(i);
        // Genesis plus at least twenty decided views.
        assert!(views.len() >= 21, "node {} decided only {:?}", i, views);
        // The decided views are exactly 0, 1, 2, ... with no gaps.
        for (h, v) in views.iter().enumerate() {
            assert_eq!(*v, h as u64);
        }
        min_len = min_len.min(views.len());
    }
    // Identical decided prefixes across replicas: the decided leaves agree.
    for h in 0..min_len {
        let c0 = sim.nodes[0].consensus.decided[h].commitment;
        for i in 1..5 {
            assert_eq!(sim.nodes[i].consensus.decided[h].commitment, c0);
            assert_eq!(sim.nodes[i].consensus.decided[h].view, h as u64);
        }
    }
    // No timeouts were needed: every replica reached at least view 24.
    for i in 0..5 {
        assert!(sim.nodes[i].consensus.cur_view >= 24);
    }
}

#[test]
fn single_leader_crash_recovers_by_timeout_certificate() {
    // Five nodes; the leader of view 3 is offline from the start. Views 1
    // and 2 succeed on the remaining four (stake 4 meets the threshold 4).
    // View 3 stalls; a timeout fires, the other four send timeout votes,
    // the next leader forms a timeout certificate and the view advances.
    let mut sim = Sim::new(5, 7);
    sim.down[3] = true;
    sim.start();
    // The pipeline stalled before view 3: fire the view-3 timer.
    sim.broadcast(HotShotEvent::Timeout(3));
    sim.run_to_quiescence();
    for i in [0usize, 1, 2, 4] {
        let views = sim.decided_views(i);
        // Views 1, 4, ... decide; view 3 never does (and view 2's leaf
        // was orphaned when its certificate could not form at the crashed
        // aggregator).
        assert!(views.contains(&1), "node {} decided {:?}", i, views);
        assert!(views.contains(&4), "node {} decided {:?}", i, views);
        assert!(!views.contains(&3));
        // Consensus resumed past the crash.
        assert!(sim.nodes[i].consensus.cur_view >= 7);
    }
    // All live replicas agree on their decided prefixes.
    let reference = sim.decided_views(0);
    for i in [1usize, 2, 4] {
        let views = sim.decided_views(i);
        let common = reference.len().min(views.len());
        assert_eq!(&views[..common], &reference[..common]);
    }
}

#[test]
fn fourteen_node_majority_keeps_progress() {
    // Twenty nodes, six unreachable: the remaining fourteen match the
    // threshold of fourteen exactly, so every vote of the majority is
    // needed and consensus still advances and decides.
    let mut sim = Sim::new(20, 12);
    for i in 14..20 {
        sim.down[i] = true;
    }
    sim.start();
    let reference = sim.decided_views(0);
    assert!(reference.len() >= 10, "too little progress: {:?}", reference);
    for (h, v) in reference.iter().enumerate() {
        assert_eq!(*v, h as u64);
    }
    for i in 1..14 {
        let views = sim.decided_views(i);
        let common = reference.len().min(views.len());
        assert_eq!(&views[..common], &reference[..common]);
        assert!(views.len() >= 10);
    }
}

#[test]
fn view_sync_recovers_after_two_consecutive_timeouts() {
    // Five nodes, views 3 and 4 lost: the back-to-back timeouts make the
    // consensus task trigger view-sync towards view 5; pre-commit, commit
    // and finalize certificates form in turn and every replica reaches it.
    let mut sim = Sim::new(5, 0);
    sim.broadcast(HotShotEvent::Timeout(3));
    sim.run_to_quiescence();
    sim.broadcast(HotShotEvent::Timeout(4));
    sim.run_to_quiescence();
    for i in 0..5 {
        assert_eq!(sim.nodes[i].vs.cur_view, 5, "node {} did not sync", i);
    }
}

#[test]
fn shutdown_stops_every_task() {
    let mut sim = Sim::new(5, 4);
    sim.start();
    sim.broadcast(HotShotEvent::Shutdown);
    sim.run_to_quiescence();
    for i in 0..5 {
        assert!(sim.nodes[i].consensus.exited);
        assert!(sim.nodes[i].da.exited);
        assert!(sim.nodes[i].vs.exited);
        // After shutdown every further event is ignored.
        let out = sim.nodes[i]
            .consensus
            .handle_event(HotShotEvent::ViewChange(99), &sim.table);
        assert!(out.is_empty());
    }
}

#[test]
fn lower_view_finalize_is_ignored() {
    // A replica already at view 10 ignores a finalize certificate for
    // view 5: the higher view wins.
    let n = 5usize;
    let entries: Vec<StakeEntry> = (0..n).map(|i| StakeEntry { key: i as u64, stake: 1 }).collect();
    let table = StakeTable { entries };
    let mut vs = ViewSyncTaskState::new(0, &table);
    let out = vs.handle_event(HotShotEvent::ViewChange(10), &table);
    assert!(out.is_empty());
    assert_eq!(vs.cur_view, 10);
    let low = Certificate {
        view: 5,
        commitment: 5,
        kind: VoteKind::ViewSyncFinalize,
        signers: vec![0, 1, 2, 3],
    };
    let out = vs.handle_event(HotShotEvent::ViewSyncFinalizeCertificate2Recv(low), &table);
    assert!(out.is_empty());
    assert_eq!(vs.cur_view, 10);
}
