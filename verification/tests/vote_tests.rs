use hotstuff_core::stake::{StakeEntry, StakeTable};
use hotstuff_core::votes::{Vote, VoteAccumulator, VoteKind};

fn table_of(n: u64) -> StakeTable {
    let mut entries = Vec::new();
    for i in 0..n {
        entries.push(StakeEntry { key: i, stake: 1 });
    }
    StakeTable { entries }
}

#[test]
fn threshold_is_two_thirds_plus_one() {
    // Five units of stake: floor(10 / 3) + 1 = 4.
    assert_eq!(table_of(5).threshold(), 4);
    // Twenty units: floor(40 / 3) + 1 = 14.
    assert_eq!(table_of(20).threshold(), 14);
    assert_eq!(table_of(1).threshold(), 1);
    assert_eq!(table_of(100).threshold(), 67);
}

#[test]
fn total_stake_sums_entries() {
    let t = StakeTable {
        entries: vec![
            StakeEntry { key: 0, stake: 3 },
            StakeEntry { key: 1, stake: 4 },
            StakeEntry { key: 2, stake: 5 },
        ],
    };
    assert_eq!(t.total_stake(), 12);
    assert_eq!(t.threshold(), 9);
}

#[test]
fn leader_rotates_round_robin() {
    let t = table_of(5);
    assert_eq!(t.leader_of(0), 0);
    assert_eq!(t.leader_of(3), 3);
    assert_eq!(t.leader_of(7), 2);
}

#[test]
fn exactly_threshold_votes_form_a_certificate() {
    let t = table_of(5);
    let mut acc = VoteAccumulator::new(9, 77, VoteKind::Quorum, &t);
    for signer in 0..3usize {
        let r = acc.accumulate(
            Vote { signer, view: 9, commitment: 77, kind: VoteKind::Quorum },
            &t,
        );
        // Threshold minus one and below: no certificate.
        assert!(r.is_none());
    }
    let r = acc.accumulate(
        Vote { signer: 3, view: 9, commitment: 77, kind: VoteKind::Quorum },
        &t,
    );
    let cert = r.expect("the fourth of five unit stakes crosses the threshold");
    assert_eq!(cert.view, 9);
    assert_eq!(cert.commitment, 77);
    assert_eq!(cert.kind, VoteKind::Quorum);
    assert_eq!(cert.signers, vec![0, 1, 2, 3]);
    assert!(cert.verify(&t));
}

#[test]
fn duplicate_signer_is_rejected() {
    let t = table_of(5);
    let mut acc = VoteAccumulator::new(1, 5, VoteKind::Quorum, &t);
    let v = Vote { signer: 2, view: 1, commitment: 5, kind: VoteKind::Quorum };
    assert!(acc.accumulate(v, &t).is_none());
    assert_eq!(acc.stake, 1);
    // The same signer again adds nothing.
    assert!(acc.accumulate(v, &t).is_none());
    assert_eq!(acc.stake, 1);
    assert_eq!(acc.signers.len(), 1);
}

#[test]
fn mismatched_votes_are_rejected() {
    let t = table_of(5);
    let mut acc = VoteAccumulator::new(1, 5, VoteKind::Quorum, &t);
    // Wrong view.
    assert!(acc
        .accumulate(Vote { signer: 0, view: 2, commitment: 5, kind: VoteKind::Quorum }, &t)
        .is_none());
    // Wrong commitment: an equivocating vote for the same view.
    assert!(acc
        .accumulate(Vote { signer: 0, view: 1, commitment: 6, kind: VoteKind::Quorum }, &t)
        .is_none());
    // Wrong kind.
    assert!(acc
        .accumulate(Vote { signer: 0, view: 1, commitment: 5, kind: VoteKind::Timeout }, &t)
        .is_none());
    // Unknown signer.
    assert!(acc
        .accumulate(Vote { signer: 7, view: 1, commitment: 5, kind: VoteKind::Quorum }, &t)
        .is_none());
    assert_eq!(acc.signers.len(), 0);
}

#[test]
fn tampered_certificate_fails_verification() {
    let t = table_of(5);
    let mut acc = VoteAccumulator::new(4, 8, VoteKind::DA, &t);
    let mut cert = None;
    for signer in 0..4usize {
        cert = acc.accumulate(
            Vote { signer, view: 4, commitment: 8, kind: VoteKind::DA },
            &t,
        );
    }
    let mut cert = cert.expect("four of five form a certificate");
    assert!(cert.verify(&t));
    // A duplicated signer does not add stake: the certificate is refused.
    cert.signers = vec![0, 1, 2, 2];
    assert!(!cert.verify(&t));
    // An out-of-table signer is refused.
    cert.signers = vec![0, 1, 2, 9];
    assert!(!cert.verify(&t));
    // Too few signers are refused.
    cert.signers = vec![0, 1, 2];
    assert!(!cert.verify(&t));
}

#[test]
fn fourteen_of_twenty_meet_the_threshold_exactly() {
    // Twenty unit stakes: the threshold is 14, so a 14-strong majority
    // keeps making progress and 13 votes never certify.
    let t = table_of(20);
    let mut acc = VoteAccumulator::new(6, 42, VoteKind::Quorum, &t);
    let mut formed = None;
    for signer in 0..14usize {
        let r = acc.accumulate(
            Vote { signer, view: 6, commitment: 42, kind: VoteKind::Quorum },
            &t,
        );
        if signer < 13 {
            assert!(r.is_none());
        } else {
            formed = r;
        }
    }
    let cert = formed.expect("the fourteenth vote certifies");
    assert_eq!(cert.signers.len(), 14);
    assert!(cert.verify(&t));
}

#[test]
fn weighted_stakes_cross_threshold_early() {
    let t = StakeTable {
        entries: vec![
            StakeEntry { key: 0, stake: 7 },
            StakeEntry { key: 1, stake: 1 },
            StakeEntry { key: 2, stake: 1 },
        ],
    };
    // Total 9, threshold 7: the heavy signer alone certifies.
    assert_eq!(t.threshold(), 7);
    let mut acc = VoteAccumulator::new(2, 3, VoteKind::Quorum, &t);
    let r = acc.accumulate(Vote { signer: 0, view: 2, commitment: 3, kind: VoteKind::Quorum }, &t);
    assert!(r.is_some());
}
