use hotstuff_core::consensus::ConsensusState;
use hotstuff_core::data::Leaf;
use hotstuff_core::events::HotShotEvent;
use hotstuff_core::stake::{StakeEntry, StakeTable};
use hotstuff_core::votes::{Certificate, VoteKind};

fn table_of(n: usize) -> StakeTable {
    StakeTable {
        entries: (0..n).map(|i| StakeEntry { key: i as u64, stake: 1 }).collect(),
    }
}

fn genesis(n: usize) -> (Leaf, Certificate) {
    let qc = Certificate {
        view: 0,
        commitment: 1000,
        kind: VoteKind::Quorum,
        signers: (0..n).collect(),
    };
    let leaf = Leaf {
        view: 0,
        height: 0,
        parent_commitment: 0,
        commitment: 1000,
        payload_commitment: 0,
        metadata: 0,
        proposer: 0,
        justify_qc: qc.clone(),
    };
    (leaf, qc)
}

fn count_votes(out: &[HotShotEvent]) -> usize {
    out.iter()
        .filter(|e| {
            matches!(
                e,
                HotShotEvent::QuorumVoteSend(_) | HotShotEvent::TimeoutVoteSend(_)
            )
        })
        .count()
}

#[test]
fn at_most_one_timeout_vote_per_view() {
    let t = table_of(5);
    let (leaf, qc) = genesis(5);
    let mut c = ConsensusState::new(0, leaf, qc, &t);
    let out1 = c.handle_event(HotShotEvent::Timeout(3), &t);
    assert_eq!(count_votes(&out1), 1);
    // The same view expiring again must not produce a second vote.
    let out2 = c.handle_event(HotShotEvent::Timeout(3), &t);
    assert_eq!(count_votes(&out2), 0);
    // Nor may a view already covered by the timeout vote be voted on.
    let out3 = c.handle_event(HotShotEvent::Timeout(2), &t);
    assert_eq!(count_votes(&out3), 0);
}

#[test]
fn observed_view_never_decreases() {
    let t = table_of(5);
    let (leaf, qc) = genesis(5);
    let mut c = ConsensusState::new(0, leaf, qc, &t);
    c.handle_event(HotShotEvent::ViewChange(7), &t);
    assert_eq!(c.cur_view, 7);
    // A stale view change is ignored.
    c.handle_event(HotShotEvent::ViewChange(3), &t);
    assert_eq!(c.cur_view, 7);
    c.handle_event(HotShotEvent::ViewChange(7), &t);
    assert_eq!(c.cur_view, 7);
    c.handle_event(HotShotEvent::ViewChange(8), &t);
    assert_eq!(c.cur_view, 8);
}

#[test]
fn stale_quorum_certificate_does_not_regress_the_high_certificate() {
    let t = table_of(5);
    let (leaf, qc) = genesis(5);
    let mut c = ConsensusState::new(0, leaf, qc, &t);
    // A certificate for view 0 is not newer than the genesis certificate.
    let stale = Certificate {
        view: 0,
        commitment: 55,
        kind: VoteKind::Quorum,
        signers: vec![0, 1, 2, 3],
    };
    c.handle_event(
        HotShotEvent::QCFormed(hotstuff_core::events::FormedCert::Qc(stale)),
        &t,
    );
    assert_eq!(c.high_qc.view, 0);
    assert_eq!(c.high_qc.commitment, 1000);
}

#[test]
fn shutdown_is_terminal_for_the_consensus_task() {
    let t = table_of(5);
    let (leaf, qc) = genesis(5);
    let mut c = ConsensusState::new(0, leaf, qc, &t);
    let out = c.handle_event(HotShotEvent::Shutdown, &t);
    assert!(out.is_empty());
    assert!(c.exited);
    // Events after shutdown do nothing.
    let out = c.handle_event(HotShotEvent::Timeout(5), &t);
    assert!(out.is_empty());
    assert_eq!(c.last_voted_view, 0);
}
