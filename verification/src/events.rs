//! The closed enumeration of events the task graph exchanges over the bus,
//! and the view-sync phase marker. Senders are named by their public key.

use vstd::prelude::*;
use crate::data::{BlockPayload, DAProposal, Leaf, Proposal, QuorumProposal, Transaction, VidDisperse};
use crate::votes::{Certificate, Vote};

verus! {

/// The phase a view-sync round is in.
#[derive(Clone, Copy, Debug, PartialEq, Eq, Structural)]
pub enum ViewSyncPhase {
    /// No phase finished yet
    Idle,
    /// Pre-commit phase finished
    PreCommit,
    /// Commit phase finished
    Commit,
    /// Finalize phase finished
    Finalize,
}

/// A formed certificate driving a view advance: either a quorum certificate
/// or a timeout certificate.
#[derive(Clone, Debug)]
pub enum FormedCert {
    /// A quorum certificate formed
    Qc(Certificate),
    /// A timeout certificate formed
    Tc(Certificate),
}

/// All of the events that can be passed between the tasks.
#[derive(Clone, Debug)]
pub enum HotShotEvent {
    /// Shut the task down
    Shutdown,
    /// A quorum proposal has been received from the network
    QuorumProposalRecv(Proposal<QuorumProposal>, u64),
    /// A quorum vote has been received from the network
    QuorumVoteRecv(Vote),
    /// A timeout vote has been received from the network
    TimeoutVoteRecv(Vote),
    /// Send a timeout vote to the network
    TimeoutVoteSend(Vote),
    /// A DA proposal has been received from the network
    DAProposalRecv(Proposal<DAProposal>, u64),
    /// A DA vote has been received from the network
    DAVoteRecv(Vote),
    /// A data-availability certificate has been received from the network
    DACRecv(Certificate),
    /// Send a quorum proposal to the network
    QuorumProposalSend(Proposal<QuorumProposal>, u64),
    /// Send a quorum vote to the next leader
    QuorumVoteSend(Vote),
    /// Send a DA proposal to the DA committee
    DAProposalSend(Proposal<DAProposal>, u64),
    /// Send a DA vote to the DA leader
    DAVoteSend(Vote),
    /// The next leader has collected enough votes to form a QC or TC
    QCFormed(FormedCert),
    /// The DA leader has collected enough votes to form a DAC
    DACSend(Certificate, u64),
    /// The current view has changed
    ViewChange(u64),
    /// A view-sync phase timer expired: (target view, relay round, phase)
    ViewSyncTimeout(u64, u64, ViewSyncPhase),
    /// Receive a view-sync pre-commit vote, at the relay
    ViewSyncPreCommitVoteRecv(Vote),
    /// Receive a view-sync commit vote, at the relay
    ViewSyncCommitVoteRecv(Vote),
    /// Receive a view-sync finalize vote, at the relay
    ViewSyncFinalizeVoteRecv(Vote),
    /// Send a view-sync pre-commit vote to the relay
    ViewSyncPreCommitVoteSend(Vote),
    /// Send a view-sync commit vote to the relay
    ViewSyncCommitVoteSend(Vote),
    /// Send a view-sync finalize vote to the relay
    ViewSyncFinalizeVoteSend(Vote),
    /// Receive a view-sync pre-commit certificate
    ViewSyncPreCommitCertificate2Recv(Certificate),
    /// Receive a view-sync commit certificate
    ViewSyncCommitCertificate2Recv(Certificate),
    /// Receive a view-sync finalize certificate
    ViewSyncFinalizeCertificate2Recv(Certificate),
    /// Send a view-sync pre-commit certificate, from the relay
    ViewSyncPreCommitCertificate2Send(Certificate, u64),
    /// Send a view-sync commit certificate, from the relay
    ViewSyncCommitCertificate2Send(Certificate, u64),
    /// Send a view-sync finalize certificate, from the relay
    ViewSyncFinalizeCertificate2Send(Certificate, u64),
    /// Start the view-sync protocol towards a target view
    ViewSyncTrigger(u64),
    /// A consensus view has timed out
    Timeout(u64),
    /// Transactions received from the network
    TransactionsRecv(Vec<Transaction>),
    /// Submit a transaction to the network
    TransactionSend(Transaction, u64),
    /// The DA leader hands the payload commitment and metadata to the quorum leader
    SendPayloadCommitmentAndMetadata(u64, u64),
    /// The transactions task has a block formed: (payload, metadata, view)
    BlockReady(BlockPayload, u64, u64),
    /// Consensus decided on a chain suffix of leaves
    LeafDecided(Vec<Leaf>),
    /// Send VID shares to the VID storage nodes
    VidDisperseSend(Proposal<VidDisperse>, u64),
    /// VID dispersal data received from the network
    VidDisperseRecv(Proposal<VidDisperse>, u64),
    /// Send a VID vote to the VID leader
    VidVoteSend(Vote),
    /// A VID vote has been received from the network
    VidVoteRecv(Vote),
    /// The VID leader has collected enough votes to form a VID certificate
    VidCertSend(Certificate, u64),
    /// A VID certificate has been received from the network
    VidCertRecv(Certificate),
}

} // verus!
