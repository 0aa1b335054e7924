use hotstuff_core::codec::{
    decode_certificate, decode_record, encode_certificate, encode_record, WireRecord,
};
use hotstuff_core::data::{DAProposal, Transaction, VidDisperse};
use hotstuff_core::votes::{Certificate, Vote, VoteKind};

#[test]
fn vote_round_trips() {
    let kinds = [
        VoteKind::Quorum,
        VoteKind::Timeout,
        VoteKind::DA,
        VoteKind::Vid,
        VoteKind::ViewSyncPreCommit,
        VoteKind::ViewSyncCommit,
        VoteKind::ViewSyncFinalize,
    ];
    for (i, kind) in kinds.iter().enumerate() {
        let v = Vote {
            signer: i * 3,
            view: 0xDEAD_BEEF_0000 + i as u64,
            commitment: u64::MAX - i as u64,
            kind: *kind,
        };
        let m = WireRecord::Vote(v);
        let bytes = encode_record(&m);
        assert_eq!(bytes.len(), 26);
        assert_eq!(decode_record(&bytes), Some(m));
    }
}

#[test]
fn transaction_round_trips() {
    for body in [0u64, 1, 0x0102_0304_0506_0708, u64::MAX] {
        let m = WireRecord::Txn(Transaction { body });
        let bytes = encode_record(&m);
        assert_eq!(bytes.len(), 9);
        assert_eq!(decode_record(&bytes), Some(m));
    }
}

#[test]
fn da_proposal_round_trips() {
    let m = WireRecord::Da(DAProposal {
        payload_commitment: 0xAABB,
        metadata: 17,
        view: 3,
    });
    let bytes = encode_record(&m);
    assert_eq!(bytes.len(), 25);
    assert_eq!(decode_record(&bytes), Some(m));
}

#[test]
fn vid_disperse_round_trips() {
    let m = WireRecord::Vid(VidDisperse {
        view: 9,
        payload_commitment: u64::MAX / 3,
    });
    let bytes = encode_record(&m);
    assert_eq!(bytes.len(), 17);
    assert_eq!(decode_record(&bytes), Some(m));
}

#[test]
fn certificate_round_trips() {
    let c = Certificate {
        view: 7,
        commitment: 0x1234_5678_9ABC_DEF0,
        kind: VoteKind::ViewSyncFinalize,
        signers: vec![4, 0, 19, 3],
    };
    let bytes = encode_certificate(&c);
    assert_eq!(bytes.len(), 26 + 8 * 4);
    let back = decode_certificate(&bytes).expect("an encoding decodes");
    assert_eq!(back.view, c.view);
    assert_eq!(back.commitment, c.commitment);
    assert_eq!(back.kind, c.kind);
    assert_eq!(back.signers, c.signers);
}

#[test]
fn empty_certificate_round_trips() {
    let c = Certificate { view: 0, commitment: 0, kind: VoteKind::Quorum, signers: vec![] };
    let bytes = encode_certificate(&c);
    assert_eq!(bytes.len(), 26);
    let back = decode_certificate(&bytes).expect("an encoding decodes");
    assert_eq!(back.signers, Vec::<usize>::new());
}

#[test]
fn damaged_certificate_encodings_are_rejected() {
    let c = Certificate { view: 3, commitment: 9, kind: VoteKind::DA, signers: vec![1, 2] };
    let good = encode_certificate(&c);
    // Trailing byte.
    let mut bytes = good.clone();
    bytes.push(0);
    assert!(decode_certificate(&bytes).is_none());
    // Truncated.
    let mut bytes = good.clone();
    bytes.pop();
    assert!(decode_certificate(&bytes).is_none());
    // Unknown kind tag.
    let mut bytes = good.clone();
    bytes[17] = 9;
    assert!(decode_certificate(&bytes).is_none());
    // A count that disagrees with the length.
    let mut bytes = good.clone();
    bytes[18] = 3;
    assert!(decode_certificate(&bytes).is_none());
    // A foreign tag byte.
    let mut bytes = good;
    bytes[0] = 1;
    assert!(decode_certificate(&bytes).is_none());
}

#[test]
fn encoding_is_fixed_endian() {
    let m = WireRecord::Txn(Transaction { body: 0x0102_0304_0506_0708 });
    let bytes = encode_record(&m);
    // Tag, then the body little-endian.
    assert_eq!(
        bytes,
        vec![2, 0x08, 0x07, 0x06, 0x05, 0x04, 0x03, 0x02, 0x01]
    );
}

#[test]
fn unknown_variant_is_rejected() {
    let bytes = vec![9u8, 0, 0, 0, 0, 0, 0, 0, 0];
    assert_eq!(decode_record(&bytes), None);
}

#[test]
fn unknown_vote_kind_is_rejected() {
    let v = Vote { signer: 1, view: 2, commitment: 3, kind: VoteKind::Quorum };
    let mut bytes = encode_record(&WireRecord::Vote(v));
    bytes[25] = 7;
    assert_eq!(decode_record(&bytes), None);
}

#[test]
fn trailing_bytes_are_rejected() {
    let m = WireRecord::Txn(Transaction { body: 42 });
    let mut bytes = encode_record(&m);
    bytes.push(0);
    assert_eq!(decode_record(&bytes), None);
    let v = Vote { signer: 1, view: 2, commitment: 3, kind: VoteKind::DA };
    let mut bytes = encode_record(&WireRecord::Vote(v));
    bytes.push(0xFF);
    assert_eq!(decode_record(&bytes), None);
}

#[test]
fn truncated_input_is_rejected() {
    let m = WireRecord::Txn(Transaction { body: 42 });
    let mut bytes = encode_record(&m);
    bytes.pop();
    assert_eq!(decode_record(&bytes), None);
    assert_eq!(decode_record(&Vec::new()), None);
}
