//! The canonical binary encoding of wire records: fixed-endian,
//! length-checked, no trailing bytes, unknown variants rejected. Encoding
//! then decoding is the identity, and the decoder accepts exactly the
//! encodings.

use vstd::prelude::*;
use crate::data::{DAProposal, Transaction, VidDisperse};
use crate::votes::{cert_equiv, Certificate, Vote, VoteKind};

verus! {

/// The eight little-endian bytes of a 64-bit value.
pub open spec fn u64_bytes(v: u64) -> Seq<u8> {
    seq![
        (v & 0xff) as u8,
        ((v >> 8) & 0xff) as u8,
        ((v >> 16) & 0xff) as u8,
        ((v >> 24) & 0xff) as u8,
        ((v >> 32) & 0xff) as u8,
        ((v >> 40) & 0xff) as u8,
        ((v >> 48) & 0xff) as u8,
        ((v >> 56) & 0xff) as u8,
    ]
}

/// The 64-bit value eight little-endian bytes stand for.
pub open spec fn u64_of(b0: u8, b1: u8, b2: u8, b3: u8, b4: u8, b5: u8, b6: u8, b7: u8) -> u64 {
    (b0 as u64) | ((b1 as u64) << 8) | ((b2 as u64) << 16) | ((b3 as u64) << 24) | ((b4 as u64)
        << 32) | ((b5 as u64) << 40) | ((b6 as u64) << 48) | ((b7 as u64) << 56)
}

/// Reading back the bytes of a value gives the value.
pub proof fn lemma_u64_round_trip(v: u64)
    ensures
        u64_of(
            (v & 0xff) as u8,
            ((v >> 8) & 0xff) as u8,
            ((v >> 16) & 0xff) as u8,
            ((v >> 24) & 0xff) as u8,
            ((v >> 32) & 0xff) as u8,
            ((v >> 40) & 0xff) as u8,
            ((v >> 48) & 0xff) as u8,
            ((v >> 56) & 0xff) as u8,
        ) == v,
{
    assert(((v & 0xff) as u8 as u64) | (((v >> 8) & 0xff) as u8 as u64) << 8 | (((v >> 16)
        & 0xff) as u8 as u64) << 16 | (((v >> 24) & 0xff) as u8 as u64) << 24 | (((v >> 32)
        & 0xff) as u8 as u64) << 32 | (((v >> 40) & 0xff) as u8 as u64) << 40 | (((v >> 48)
        & 0xff) as u8 as u64) << 48 | (((v >> 56) & 0xff) as u8 as u64) << 56 == v)
        by (bit_vector);
}

/// Writing the value some bytes stand for gives back those bytes.
pub proof fn lemma_u64_bytes_of(b0: u8, b1: u8, b2: u8, b3: u8, b4: u8, b5: u8, b6: u8, b7: u8)
    ensures
        u64_bytes(u64_of(b0, b1, b2, b3, b4, b5, b6, b7)) == seq![b0, b1, b2, b3, b4, b5, b6, b7],
{
    let v = u64_of(b0, b1, b2, b3, b4, b5, b6, b7);
    assert((((b0 as u64) | ((b1 as u64) << 8) | ((b2 as u64) << 16) | ((b3 as u64) << 24) | ((
    b4 as u64) << 32) | ((b5 as u64) << 40) | ((b6 as u64) << 48) | ((b7 as u64) << 56)) & 0xff) as u8
        == b0) by (bit_vector);
    assert(((((b0 as u64) | ((b1 as u64) << 8) | ((b2 as u64) << 16) | ((b3 as u64) << 24) | ((
    b4 as u64) << 32) | ((b5 as u64) << 40) | ((b6 as u64) << 48) | ((b7 as u64) << 56)) >> 8)
        & 0xff) as u8 == b1) by (bit_vector);
    assert(((((b0 as u64) | ((b1 as u64) << 8) | ((b2 as u64) << 16) | ((b3 as u64) << 24) | ((
    b4 as u64) << 32) | ((b5 as u64) << 40) | ((b6 as u64) << 48) | ((b7 as u64) << 56)) >> 16)
        & 0xff) as u8 == b2) by (bit_vector);
    assert(((((b0 as u64) | ((b1 as u64) << 8) | ((b2 as u64) << 16) | ((b3 as u64) << 24) | ((
    b4 as u64) << 32) | ((b5 as u64) << 40) | ((b6 as u64) << 48) | ((b7 as u64) << 56)) >> 24)
        & 0xff) as u8 == b3) by (bit_vector);
    assert(((((b0 as u64) | ((b1 as u64) << 8) | ((b2 as u64) << 16) | ((b3 as u64) << 24) | ((
    b4 as u64) << 32) | ((b5 as u64) << 40) | ((b6 as u64) << 48) | ((b7 as u64) << 56)) >> 32)
        & 0xff) as u8 == b4) by (bit_vector);
    assert(((((b0 as u64) | ((b1 as u64) << 8) | ((b2 as u64) << 16) | ((b3 as u64) << 24) | ((
    b4 as u64) << 32) | ((b5 as u64) << 40) | ((b6 as u64) << 48) | ((b7 as u64) << 56)) >> 40)
        & 0xff) as u8 == b5) by (bit_vector);
    assert(((((b0 as u64) | ((b1 as u64) << 8) | ((b2 as u64) << 16) | ((b3 as u64) << 24) | ((
    b4 as u64) << 32) | ((b5 as u64) << 40) | ((b6 as u64) << 48) | ((b7 as u64) << 56)) >> 48)
        & 0xff) as u8 == b6) by (bit_vector);
    assert(((((b0 as u64) | ((b1 as u64) << 8) | ((b2 as u64) << 16) | ((b3 as u64) << 24) | ((
    b4 as u64) << 32) | ((b5 as u64) << 40) | ((b6 as u64) << 48) | ((b7 as u64) << 56)) >> 56)
        & 0xff) as u8 == b7) by (bit_vector);
    assert(u64_bytes(v) =~= seq![b0, b1, b2, b3, b4, b5, b6, b7]);
}

/// Append the eight little-endian bytes of `v`.
pub fn push_u64(out: &mut Vec<u8>, v: u64)
    ensures
        final(out)@ == old(out)@ + u64_bytes(v),
{
    out.push((v & 0xff) as u8);
    out.push(((v >> 8) & 0xff) as u8);
    out.push(((v >> 16) & 0xff) as u8);
    out.push(((v >> 24) & 0xff) as u8);
    out.push(((v >> 32) & 0xff) as u8);
    out.push(((v >> 40) & 0xff) as u8);
    out.push(((v >> 48) & 0xff) as u8);
    out.push(((v >> 56) & 0xff) as u8);
    proof {
        assert(out@ =~= old(out)@ + u64_bytes(v));
    }
}

/// Read the 64-bit value at `pos`.
pub fn read_u64(buf: &Vec<u8>, pos: usize) -> (r: u64)
    requires
        pos + 8 <= buf@.len(),
    ensures
        r == u64_of(
            buf@[pos as int],
            buf@[pos as int + 1],
            buf@[pos as int + 2],
            buf@[pos as int + 3],
            buf@[pos as int + 4],
            buf@[pos as int + 5],
            buf@[pos as int + 6],
            buf@[pos as int + 7],
        ),
{
    let n = buf.len();
    (buf[pos] as u64) | ((buf[pos + 1] as u64) << 8) | ((buf[pos + 2] as u64) << 16) | ((buf[pos
        + 3] as u64) << 24) | ((buf[pos + 4] as u64) << 32) | ((buf[pos + 5] as u64) << 40) | ((
    buf[pos + 6] as u64) << 48) | ((buf[pos + 7] as u64) << 56)
}

/// The tag byte of a vote kind.
pub open spec fn kind_tag(k: VoteKind) -> u8 {
    match k {
        VoteKind::Quorum => 0,
        VoteKind::Timeout => 1,
        VoteKind::DA => 2,
        VoteKind::Vid => 3,
        VoteKind::ViewSyncPreCommit => 4,
        VoteKind::ViewSyncCommit => 5,
        VoteKind::ViewSyncFinalize => 6,
    }
}

/// The vote kind a tag byte stands for; an unknown tag is rejected.
pub open spec fn tag_to_kind(b: u8) -> Option<VoteKind> {
    if b == 0 {
        Some(VoteKind::Quorum)
    } else if b == 1 {
        Some(VoteKind::Timeout)
    } else if b == 2 {
        Some(VoteKind::DA)
    } else if b == 3 {
        Some(VoteKind::Vid)
    } else if b == 4 {
        Some(VoteKind::ViewSyncPreCommit)
    } else if b == 5 {
        Some(VoteKind::ViewSyncCommit)
    } else if b == 6 {
        Some(VoteKind::ViewSyncFinalize)
    } else {
        None
    }
}

/// Map a tag byte back to a vote kind.
pub fn decode_kind(b: u8) -> (r: Option<VoteKind>)
    ensures
        r == tag_to_kind(b),
{
    if b == 0 {
        Some(VoteKind::Quorum)
    } else if b == 1 {
        Some(VoteKind::Timeout)
    } else if b == 2 {
        Some(VoteKind::DA)
    } else if b == 3 {
        Some(VoteKind::Vid)
    } else if b == 4 {
        Some(VoteKind::ViewSyncPreCommit)
    } else if b == 5 {
        Some(VoteKind::ViewSyncCommit)
    } else if b == 6 {
        Some(VoteKind::ViewSyncFinalize)
    } else {
        None
    }
}

/// The canonical bytes of a vote: a tag, the signer, the view, the
/// commitment, and the kind.
pub open spec fn vote_bytes(v: Vote) -> Seq<u8> {
    seq![1u8] + u64_bytes(v.signer as u64) + u64_bytes(v.view) + u64_bytes(v.commitment) + seq![
        kind_tag(v.kind),
    ]
}

/// The canonical bytes of a transaction.
pub open spec fn txn_bytes(t: Transaction) -> Seq<u8> {
    seq![2u8] + u64_bytes(t.body)
}

/// The canonical bytes of a DA proposal.
pub open spec fn da_proposal_bytes(p: DAProposal) -> Seq<u8> {
    seq![3u8] + u64_bytes(p.payload_commitment) + u64_bytes(p.metadata) + u64_bytes(p.view)
}

/// The canonical bytes of a VID dispersal.
pub open spec fn vid_disperse_bytes(d: VidDisperse) -> Seq<u8> {
    seq![4u8] + u64_bytes(d.view) + u64_bytes(d.payload_commitment)
}

/// The bytes of a signer list: each index as a 64-bit value, in order.
pub open spec fn signers_bytes(s: Seq<usize>) -> Seq<u8>
    decreases s.len(),
{
    if s.len() == 0 {
        Seq::empty()
    } else {
        signers_bytes(s.drop_last()) + u64_bytes(s.last() as u64)
    }
}

/// A signer list's bytes are eight per signer.
pub proof fn lemma_signers_bytes_len(s: Seq<usize>)
    ensures
        signers_bytes(s).len() == 8 * s.len(),
    decreases s.len(),
{
    if s.len() > 0 {
        lemma_signers_bytes_len(s.drop_last());
    }
}

/// The bytes of the `i`th signer sit at offset `8 * i`.
pub proof fn lemma_signers_bytes_index(s: Seq<usize>, i: int)
    requires
        0 <= i < s.len(),
    ensures
        signers_bytes(s).subrange(8 * i, 8 * i + 8) =~= u64_bytes(s[i] as u64),
    decreases s.len(),
{
    lemma_signers_bytes_len(s);
    lemma_signers_bytes_len(s.drop_last());
    if i == s.len() - 1 {
        assert(signers_bytes(s).subrange(8 * i, 8 * i + 8) =~= u64_bytes(s.last() as u64));
    } else {
        lemma_signers_bytes_index(s.drop_last(), i);
        assert(signers_bytes(s).subrange(8 * i, 8 * i + 8) =~= signers_bytes(
            s.drop_last(),
        ).subrange(8 * i, 8 * i + 8));
    }
}

/// Two signer lists of the same length with the same bytes are the same.
pub proof fn lemma_signers_bytes_injective(s1: Seq<usize>, s2: Seq<usize>)
    requires
        s1.len() == s2.len(),
        signers_bytes(s1) == signers_bytes(s2),
    ensures
        s1 =~= s2,
    decreases s1.len(),
{
    if s1.len() > 0 {
        lemma_signers_bytes_len(s1.drop_last());
        lemma_signers_bytes_len(s2.drop_last());
        let a = s1.last() as u64;
        let b = s2.last() as u64;
        assert(u64_bytes(a) =~= u64_bytes(b)) by {
            let n = signers_bytes(s1).len();
            assert(signers_bytes(s1).subrange(n - 8, n as int) =~= u64_bytes(a));
            assert(signers_bytes(s2).subrange(n - 8, n as int) =~= u64_bytes(b));
        };
        lemma_u64_round_trip(a);
        lemma_u64_round_trip(b);
        assert(a == b);
        assert(signers_bytes(s1.drop_last()) =~= signers_bytes(s2.drop_last())) by {
            let n = signers_bytes(s1).len();
            assert(signers_bytes(s1).subrange(0, n - 8) =~= signers_bytes(s1.drop_last()));
            assert(signers_bytes(s2).subrange(0, n - 8) =~= signers_bytes(s2.drop_last()));
        };
        lemma_signers_bytes_injective(s1.drop_last(), s2.drop_last());
        assert(s1 =~= s1.drop_last().push(s1.last()));
    }
}

/// The canonical bytes of a certificate: a tag, the view, the commitment,
/// the kind, the number of signers, and the signers.
pub open spec fn cert_bytes(c: Certificate) -> Seq<u8> {
    seq![5u8] + u64_bytes(c.view) + u64_bytes(c.commitment) + seq![kind_tag(c.kind)] + u64_bytes(
        c.signers@.len() as u64,
    ) + signers_bytes(c.signers@)
}

/// A wire record: one of the values that travel between nodes.
#[derive(Clone, Copy, Debug, PartialEq, Eq, Structural)]
pub enum WireRecord {
    /// A vote of any kind
    Vote(Vote),
    /// A transaction
    Txn(Transaction),
    /// A DA proposal payload
    Da(DAProposal),
    /// A VID dispersal payload
    Vid(VidDisperse),
}

/// Encode one wire record canonically.
pub fn encode_record(m: &WireRecord) -> (r: Vec<u8>)
    ensures
        *m matches WireRecord::Vote(v) ==> r@ == vote_bytes(v),
        *m matches WireRecord::Txn(t) ==> r@ == txn_bytes(t),
        *m matches WireRecord::Da(p) ==> r@ == da_proposal_bytes(p),
        *m matches WireRecord::Vid(d) ==> r@ == vid_disperse_bytes(d),
{
    let mut out: Vec<u8> = Vec::new();
    match m {
        WireRecord::Vote(v) => {
            out.push(1u8);
            push_u64(&mut out, v.signer as u64);
            push_u64(&mut out, v.view);
            push_u64(&mut out, v.commitment);
            let tag: u8 = match v.kind {
                VoteKind::Quorum => 0,
                VoteKind::Timeout => 1,
                VoteKind::DA => 2,
                VoteKind::Vid => 3,
                VoteKind::ViewSyncPreCommit => 4,
                VoteKind::ViewSyncCommit => 5,
                VoteKind::ViewSyncFinalize => 6,
            };
            out.push(tag);
            proof {
                assert(out@ =~= vote_bytes(*v));
            }
        },
        WireRecord::Txn(t) => {
            out.push(2u8);
            push_u64(&mut out, t.body);
            proof {
                assert(out@ =~= txn_bytes(*t));
            }
        },
        WireRecord::Da(p) => {
            out.push(3u8);
            push_u64(&mut out, p.payload_commitment);
            push_u64(&mut out, p.metadata);
            push_u64(&mut out, p.view);
            proof {
                assert(out@ =~= da_proposal_bytes(*p));
            }
        },
        WireRecord::Vid(d) => {
            out.push(4u8);
            push_u64(&mut out, d.view);
            push_u64(&mut out, d.payload_commitment);
            proof {
                assert(out@ =~= vid_disperse_bytes(*d));
            }
        },
    }
    out
}

/// Encode one certificate canonically.
pub fn encode_certificate(c: &Certificate) -> (r: Vec<u8>)
    ensures
        r@ == cert_bytes(*c),
{
    let mut out: Vec<u8> = Vec::new();
    out.push(5u8);
    push_u64(&mut out, c.view);
    push_u64(&mut out, c.commitment);
    let tag: u8 = match c.kind {
        VoteKind::Quorum => 0,
        VoteKind::Timeout => 1,
        VoteKind::DA => 2,
        VoteKind::Vid => 3,
        VoteKind::ViewSyncPreCommit => 4,
        VoteKind::ViewSyncCommit => 5,
        VoteKind::ViewSyncFinalize => 6,
    };
    out.push(tag);
    let count = c.signers.len();
    push_u64(&mut out, count as u64);
    let ghost header = out@;
    let mut i: usize = 0;
    proof {
        assert(signers_bytes(c.signers@.take(0)) =~= Seq::<u8>::empty());
        assert(out@ =~= header + signers_bytes(c.signers@.take(0)));
    }
    while i < count
        invariant
            i <= count,
            count == c.signers@.len(),
            out@ == header + signers_bytes(c.signers@.take(i as int)),
        decreases count - i,
    {
        proof {
            assert(c.signers@.take(i + 1).drop_last() =~= c.signers@.take(i as int));
            assert(c.signers@.take(i + 1).last() == c.signers@[i as int]);
        }
        push_u64(&mut out, c.signers[i] as u64);
        proof {
            assert(out@ =~= header + signers_bytes(c.signers@.take(i + 1)));
        }
        i = i + 1;
    }
    proof {
        assert(c.signers@.take(count as int) =~= c.signers@);
        assert(out@ =~= cert_bytes(*c));
    }
    out
}

/// Decode one certificate: exactly the canonical encodings are accepted,
/// and decoding an encoding gives back the certificate it was made from.
#[verifier::rlimit(80)]
pub fn decode_certificate(buf: &Vec<u8>) -> (r: Option<Certificate>)
    ensures
        r matches Some(c) ==> buf@ == cert_bytes(c),
        forall|c: Certificate| buf@ == cert_bytes(c) ==> (r matches Some(c2) && cert_equiv(c2, c)),
{
    let n = buf.len();
    proof {
        assert forall|c: Certificate| buf@ == cert_bytes(c) implies buf@.len() == 26 + 8
            * c.signers@.len() && buf@[0] == 5 && buf@[17] == kind_tag(c.kind) by {
            lemma_signers_bytes_len(c.signers@);
        };
    }
    if n < 26 {
        return None;
    }
    if buf[0] != 5 {
        return None;
    }
    let view = read_u64(buf, 1);
    let commitment = read_u64(buf, 9);
    let kind = match decode_kind(buf[17]) {
        Some(k) => k,
        None => {
            return None;
        },
    };
    let count64 = read_u64(buf, 18);
    let count = (n - 26) / 8;
    proof {
        assert forall|c: Certificate| buf@ == cert_bytes(c) implies count64 == c.signers@.len()
            && (n - 26) % 8 == 0 by {
            lemma_signers_bytes_len(c.signers@);
            lemma_u64_round_trip(c.signers@.len() as u64);
        };
    }
    if (n - 26) % 8 != 0 {
        return None;
    }
    if count as u64 != count64 {
        return None;
    }
    let mut signers: Vec<usize> = Vec::new();
    let mut i: usize = 0;
    proof {
        assert(signers_bytes(signers@) =~= buf@.subrange(26, 26));
    }
    while i < count
        invariant
            i <= count,
            n == buf@.len(),
            26 + 8 * count <= n,
            signers@.len() == i,
            signers_bytes(signers@) =~= buf@.subrange(26, 26 + 8 * i),
        decreases count - i,
    {
        let pos = 26 + 8 * i;
        let s64 = read_u64(buf, pos);
        let signer = #[verifier::truncate] (s64 as usize);
        if signer as u64 != s64 {
            proof {
                assert forall|c: Certificate| buf@ != cert_bytes(c) by {
                    if buf@ == cert_bytes(c) {
                        lemma_signers_bytes_len(c.signers@);
                        lemma_u64_round_trip(c.signers@.len() as u64);
                        lemma_signers_bytes_index(c.signers@, i as int);
                        let x = c.signers@[i as int] as u64;
                        lemma_u64_round_trip(x);
                        assert(signers_bytes(c.signers@) =~= buf@.subrange(26, n as int));
                        assert(u64_bytes(x)[0] == buf@[pos as int]);
                        assert(u64_bytes(x)[1] == buf@[pos + 1]);
                        assert(u64_bytes(x)[2] == buf@[pos + 2]);
                        assert(u64_bytes(x)[3] == buf@[pos + 3]);
                        assert(u64_bytes(x)[4] == buf@[pos + 4]);
                        assert(u64_bytes(x)[5] == buf@[pos + 5]);
                        assert(u64_bytes(x)[6] == buf@[pos + 6]);
                        assert(u64_bytes(x)[7] == buf@[pos + 7]);
                        assert(s64 == x);
                    }
                };
            }
            return None;
        }
        proof {
            lemma_u64_bytes_of(
                buf@[pos as int],
                buf@[pos + 1],
                buf@[pos + 2],
                buf@[pos + 3],
                buf@[pos + 4],
                buf@[pos + 5],
                buf@[pos + 6],
                buf@[pos + 7],
            );
            assert(signers@.push(signer).drop_last() =~= signers@);
            assert(u64_bytes(s64) =~= buf@.subrange(pos as int, pos + 8));
            assert(signers_bytes(signers@.push(signer)) =~= buf@.subrange(26, 26 + 8 * (i + 1)));
        }
        signers.push(signer);
        i = i + 1;
    }
    let c2 = Certificate { view, commitment, kind, signers };
    proof {
        lemma_u64_bytes_of(buf@[1], buf@[2], buf@[3], buf@[4], buf@[5], buf@[6], buf@[7], buf@[8]);
        lemma_u64_bytes_of(
            buf@[9],
            buf@[10],
            buf@[11],
            buf@[12],
            buf@[13],
            buf@[14],
            buf@[15],
            buf@[16],
        );
        lemma_u64_bytes_of(
            buf@[18],
            buf@[19],
            buf@[20],
            buf@[21],
            buf@[22],
            buf@[23],
            buf@[24],
            buf@[25],
        );
        lemma_signers_bytes_len(c2.signers@);
        assert(buf@ =~= cert_bytes(c2));
        assert forall|c: Certificate| buf@ == cert_bytes(c) implies cert_equiv(c2, c) by {
            lemma_signers_bytes_len(c.signers@);
            lemma_u64_round_trip(c.view);
            lemma_u64_round_trip(c.commitment);
            lemma_u64_round_trip(c.signers@.len() as u64);
            assert(signers_bytes(c.signers@) =~= buf@.subrange(26, n as int));
            assert(signers_bytes(c2.signers@) =~= buf@.subrange(26, n as int));
            lemma_signers_bytes_injective(c2.signers@, c.signers@);
        };
    }
    Some(c2)
}

/// Decode one wire record: exactly the canonical encodings are accepted —
/// wrong length, trailing bytes and unknown tags are rejected — and
/// decoding an encoding gives back the record it was made from.
#[verifier::rlimit(60)]
pub fn decode_record(buf: &Vec<u8>) -> (r: Option<WireRecord>)
    ensures
        r matches Some(m) ==> (m matches WireRecord::Vote(v) ==> buf@ == vote_bytes(v)) && (
        m matches WireRecord::Txn(t) ==> buf@ == txn_bytes(t)) && (m matches WireRecord::Da(p)
            ==> buf@ == da_proposal_bytes(p)) && (m matches WireRecord::Vid(d) ==> buf@
            == vid_disperse_bytes(d)),
        forall|v: Vote| buf@ == vote_bytes(v) ==> r == Some(WireRecord::Vote(v)),
        forall|t: Transaction| buf@ == txn_bytes(t) ==> r == Some(WireRecord::Txn(t)),
        forall|p: DAProposal| buf@ == da_proposal_bytes(p) ==> r == Some(WireRecord::Da(p)),
        forall|d: VidDisperse| buf@ == vid_disperse_bytes(d) ==> r == Some(WireRecord::Vid(d)),
{
    if buf.len() == 0 {
        return None;
    }
    let tag = buf[0];
    if tag == 1 {
        if buf.len() != 26 {
            return None;
        }
        let signer64 = read_u64(buf, 1);
        let view = read_u64(buf, 9);
        let commitment = read_u64(buf, 17);
        let kind = decode_kind(buf[25]);
        let signer = #[verifier::truncate] (signer64 as usize);
        if signer as u64 != signer64 {
            proof {
                assert forall|v: Vote| buf@ != vote_bytes(v) by {
                    if buf@ == vote_bytes(v) {
                        lemma_u64_round_trip(v.signer as u64);
                        assert(signer64 == v.signer as u64);
                    }
                };
            }
            return None;
        }
        match kind {
            Some(k) => {
                let vote = Vote { signer, view, commitment, kind: k };
                proof {
                    lemma_u64_bytes_of(buf@[1], buf@[2], buf@[3], buf@[4], buf@[5], buf@[6], buf@[7], buf@[8]);
                    lemma_u64_bytes_of(
                        buf@[9],
                        buf@[10],
                        buf@[11],
                        buf@[12],
                        buf@[13],
                        buf@[14],
                        buf@[15],
                        buf@[16],
                    );
                    lemma_u64_bytes_of(
                        buf@[17],
                        buf@[18],
                        buf@[19],
                        buf@[20],
                        buf@[21],
                        buf@[22],
                        buf@[23],
                        buf@[24],
                    );
                    assert(buf@ =~= vote_bytes(vote));
                    assert forall|v: Vote| buf@ == vote_bytes(v) implies v == vote by {
                        lemma_u64_round_trip(v.signer as u64);
                        lemma_u64_round_trip(v.view);
                        lemma_u64_round_trip(v.commitment);
                        assert(signer64 == v.signer as u64);
                        assert(view == v.view);
                        assert(commitment == v.commitment);
                        assert(buf@[25] == kind_tag(v.kind));
                    };
                }
                Some(WireRecord::Vote(vote))
            },
            None => None,
        }
    } else if tag == 2 {
        if buf.len() != 9 {
            return None;
        }
        let body = read_u64(buf, 1);
        let txn = Transaction { body };
        proof {
            lemma_u64_bytes_of(buf@[1], buf@[2], buf@[3], buf@[4], buf@[5], buf@[6], buf@[7], buf@[8]);
            assert(buf@ =~= txn_bytes(txn));
            assert forall|t: Transaction| buf@ == txn_bytes(t) implies t == txn by {
                lemma_u64_round_trip(t.body);
                assert(body == t.body);
            };
        }
        Some(WireRecord::Txn(txn))
    } else if tag == 3 {
        if buf.len() != 25 {
            return None;
        }
        let payload_commitment = read_u64(buf, 1);
        let metadata = read_u64(buf, 9);
        let view = read_u64(buf, 17);
        let p = DAProposal { payload_commitment, metadata, view };
        proof {
            lemma_u64_bytes_of(buf@[1], buf@[2], buf@[3], buf@[4], buf@[5], buf@[6], buf@[7], buf@[8]);
            lemma_u64_bytes_of(
                buf@[9],
                buf@[10],
                buf@[11],
                buf@[12],
                buf@[13],
                buf@[14],
                buf@[15],
                buf@[16],
            );
            lemma_u64_bytes_of(
                buf@[17],
                buf@[18],
                buf@[19],
                buf@[20],
                buf@[21],
                buf@[22],
                buf@[23],
                buf@[24],
            );
            assert(buf@ =~= da_proposal_bytes(p));
            assert forall|p2: DAProposal| buf@ == da_proposal_bytes(p2) implies p2 == p by {
                lemma_u64_round_trip(p2.payload_commitment);
                lemma_u64_round_trip(p2.metadata);
                lemma_u64_round_trip(p2.view);
            };
        }
        Some(WireRecord::Da(p))
    } else if tag == 4 {
        if buf.len() != 17 {
            return None;
        }
        let view = read_u64(buf, 1);
        let payload_commitment = read_u64(buf, 9);
        let d = VidDisperse { view, payload_commitment };
        proof {
            lemma_u64_bytes_of(buf@[1], buf@[2], buf@[3], buf@[4], buf@[5], buf@[6], buf@[7], buf@[8]);
            lemma_u64_bytes_of(
                buf@[9],
                buf@[10],
                buf@[11],
                buf@[12],
                buf@[13],
                buf@[14],
                buf@[15],
                buf@[16],
            );
            assert(buf@ =~= vid_disperse_bytes(d));
            assert forall|d2: VidDisperse| buf@ == vid_disperse_bytes(d2) implies d2 == d by {
                lemma_u64_round_trip(d2.view);
                lemma_u64_round_trip(d2.payload_commitment);
            };
        }
        Some(WireRecord::Vid(d))
    } else {
        None
    }
}

} // verus!
