//! The data model of the protocol: transactions, block payloads, leaves and
//! proposals. Cryptographic commitments and signatures are out of scope and
//! stand here as plain 64-bit values; a signature is modelled as a
//! deterministic function of the signing key and the message commitment.

use vstd::prelude::*;
use crate::votes::{cert_equiv, Certificate};

verus! {

/// An application transaction, opaque to the core.
#[derive(Clone, Copy, Debug, PartialEq, Eq, Structural)]
pub struct Transaction {
    /// The transaction body's commitment
    pub body: u64,
}

/// A block payload: the transactions a leader packed into one block.
#[derive(Clone, Debug)]
pub struct BlockPayload {
    /// The packed transactions, oldest first
    pub txns: Vec<Transaction>,
}

/// The modelled signature of `key` over `msg`.
pub open spec fn sig_of(key: u64, msg: u64) -> u64 {
    key ^ msg
}

/// Sign a message commitment with a key.
pub fn sign(key: u64, msg: u64) -> (r: u64)
    ensures
        r == sig_of(key, msg),
{
    key ^ msg
}

/// One round of bit mixing: a bijection on 64-bit words.
pub open spec fn mix64(h: u64) -> u64 {
    let a = h ^ (h << 13);
    let b = a ^ (a >> 7);
    b ^ (b << 17)
}

/// The modelled commitment of a leaf with the given view, parent commitment
/// and payload commitment: the inputs folded through the mixer.
pub open spec fn leaf_commitment_of(view: u64, parent: u64, payload: u64) -> u64 {
    mix64(mix64(mix64(view) ^ parent) ^ payload)
}

/// Compute a leaf's commitment.
pub fn leaf_commitment(view: u64, parent: u64, payload: u64) -> (r: u64)
    ensures
        r == leaf_commitment_of(view, parent, payload),
{
    let mut h: u64 = view;
    h = h ^ (h << 13);
    h = h ^ (h >> 7);
    h = h ^ (h << 17);
    h = h ^ parent;
    h = h ^ (h << 13);
    h = h ^ (h >> 7);
    h = h ^ (h << 17);
    h = h ^ payload;
    h = h ^ (h << 13);
    h = h ^ (h >> 7);
    h = h ^ (h << 17);
    h
}

/// Two leaves with the same content; their justifying certificates may be
/// distinct allocations.
pub open spec fn leaf_equiv(a: Leaf, b: Leaf) -> bool {
    &&& a.view == b.view
    &&& a.height == b.height
    &&& a.parent_commitment == b.parent_commitment
    &&& a.commitment == b.commitment
    &&& a.payload_commitment == b.payload_commitment
    &&& a.metadata == b.metadata
    &&& a.proposer == b.proposer
    &&& cert_equiv(a.justify_qc, b.justify_qc)
}

/// Two chains of leaves with the same content, leaf for leaf.
pub open spec fn leaves_equiv(a: Seq<Leaf>, b: Seq<Leaf>) -> bool {
    a.len() == b.len() && forall|i: int| 0 <= i < a.len() ==> leaf_equiv(#[trigger] a[i], b[i])
}

/// The unit of decision. Leaves form a tree rooted at genesis; each carries
/// the commitment of its parent and the quorum certificate justifying it.
#[derive(Clone, Debug)]
pub struct Leaf {
    /// The view in which this leaf was proposed
    pub view: u64,
    /// Height in the leaf tree (genesis is 0)
    pub height: u64,
    /// Commitment of the parent leaf
    pub parent_commitment: u64,
    /// Commitment of this leaf itself
    pub commitment: u64,
    /// Commitment of the block payload this leaf carries
    pub payload_commitment: u64,
    /// Arbitrary application metadata
    pub metadata: u64,
    /// Index of the proposer in the stake table
    pub proposer: usize,
    /// The quorum certificate this leaf extends from
    pub justify_qc: Certificate,
}

impl Leaf {
    /// A leaf's justifying certificate is for a strictly earlier view.
    pub open spec fn wf(&self) -> bool {
        self.justify_qc.view < self.view
    }

    /// An exact copy of the leaf.
    pub fn duplicate(&self) -> (r: Leaf)
        ensures
            leaf_equiv(r, *self),
    {
        Leaf {
            view: self.view,
            height: self.height,
            parent_commitment: self.parent_commitment,
            commitment: self.commitment,
            payload_commitment: self.payload_commitment,
            metadata: self.metadata,
            proposer: self.proposer,
            justify_qc: self.justify_qc.duplicate(),
        }
    }
}

/// A signed envelope around a proposal payload.
#[derive(Clone, Debug)]
pub struct Proposal<T> {
    /// The proposed payload
    pub data: T,
    /// Signature of the proposer over the payload's commitment
    pub signature: u64,
    /// Index of the proposer in the stake table
    pub signer: usize,
}

/// A leader's proposal of a new leaf for a view.
#[derive(Clone, Debug)]
pub struct QuorumProposal {
    /// The proposed leaf
    pub leaf: Leaf,
}

/// A DA leader's proposal of a block payload to the DA committee.
#[derive(Clone, Copy, Debug, PartialEq, Eq, Structural)]
pub struct DAProposal {
    /// Commitment of the proposed payload
    pub payload_commitment: u64,
    /// Metadata attached to the payload
    pub metadata: u64,
    /// The view the payload is proposed for
    pub view: u64,
}

/// A VID dispersal of erasure-coded payload shares.
#[derive(Clone, Copy, Debug, PartialEq, Eq, Structural)]
pub struct VidDisperse {
    /// The view the dispersal belongs to
    pub view: u64,
    /// Commitment of the dispersed payload
    pub payload_commitment: u64,
}

} // verus!
