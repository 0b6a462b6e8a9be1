//! Commits: what a journal says once it is decoded.
use vstd::prelude::*;

verus! {

/// The content hash of a ledger state, as the execution environment computed
/// it.
#[derive(Clone, Copy, Debug, PartialEq, Eq)]
pub struct StateDigest {
    pub words: [u32; 8],
}

/// The public commitment of the program that anchors a starting state.
#[derive(Debug, PartialEq, Eq)]
pub struct InitializeLedgerCommit {
    pub state: StateDigest,
}

/// What the commit of an issued transaction stands for.
pub struct IssueCommitModel {
    pub old_state: Seq<u32>,
    pub new_state: Seq<u32>,
    pub receiver: Seq<char>,
    pub sender: Seq<char>,
    pub tokens: u32,
    pub transfer_counted: bool,
}

/// The public commitment of one issued transaction: the states before and
/// after it by their hashes, the transaction itself, and whether tokens moved.
#[derive(Debug, PartialEq, Eq)]
pub struct IssueTransactionCommit {
    pub old_state: StateDigest,
    pub new_state: StateDigest,
    pub receiver: String,
    pub sender: String,
    pub tokens: u32,
    pub transfer_counted: bool,
}

impl View for IssueTransactionCommit {
    type V = IssueCommitModel;

    open spec fn view(&self) -> IssueCommitModel {
        IssueCommitModel {
            old_state: self.old_state.words@,
            new_state: self.new_state.words@,
            receiver: self.receiver@,
            sender: self.sender@,
            tokens: self.tokens,
            transfer_counted: self.transfer_counted,
        }
    }
}

} // verus!
