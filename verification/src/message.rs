//! Receipts coupled with the program kind they were created against, and the
//! three ways to read one: decoding its journal on trust, asking whether its
//! proof holds, and decoding only once the proof has held.
//!
//! Checking a proof is the execution environment's work: the functions that
//! need a check take it as `verify`, which is handed the receipt and the kind
//! of program to check it against, and answers whether the proof holds.
use crate::codec::{
    decoded_init_commit, decoded_issue_commit, lengths_fit, word_lengths_fit,
    words_to_init_commit, words_to_issue_commit,
};
use crate::commit::{InitializeLedgerCommit, IssueTransactionCommit};
use crate::error::LedgerError;
use crate::program::ProgramKind;
use crate::receipt::{Receipt, ReceiptModel};
use vstd::prelude::*;

verus! {

/// `commit` is what decoding the journal of an initialization gives: the
/// commit with the digest that the journal holds, or a decode error where it
/// holds none.
pub open spec fn init_commit_read(
    journal: Seq<u32>,
    commit: Result<InitializeLedgerCommit, LedgerError>,
) -> bool {
    match decoded_init_commit(journal) {
        Some(words) => commit matches Ok(c) && c.state.words@ == words,
        None => commit == Err::<InitializeLedgerCommit, LedgerError>(LedgerError::Decode),
    }
}

/// `commit` is what decoding the journal of an issued transaction gives: the
/// commit that the journal holds, or a decode error where it holds none, or
/// where the machine's lengths are too narrow for the decoder.
pub open spec fn issue_commit_read(
    journal: Seq<u32>,
    commit: Result<IssueTransactionCommit, LedgerError>,
) -> bool {
    match decoded_issue_commit(journal) {
        Some(model) if word_lengths_fit() => commit matches Ok(c) && c@ == model,
        _ => commit == Err::<IssueTransactionCommit, LedgerError>(LedgerError::Decode),
    }
}

/// The receipt of a run of the program that anchors a starting state.
#[derive(Debug)]
pub struct InitMessage {
    receipt: Receipt,
}

impl View for InitMessage {
    type V = ReceiptModel;

    open spec fn view(&self) -> ReceiptModel {
        self.receipt()@
    }
}

impl InitMessage {
    /// The receipt that the message wraps.
    pub closed spec fn receipt(&self) -> Receipt {
        self.receipt
    }

    pub fn new(receipt: Receipt) -> (message: Self)
        ensures
            message.receipt() == receipt,
    {
        InitMessage { receipt }
    }

    /// Decodes the journal without any check of the proof: whoever relies on
    /// the result trusts whoever handed over the receipt.
    pub fn get_state(&self) -> (commit: Result<InitializeLedgerCommit, LedgerError>)
        ensures
            init_commit_read(self@.journal, commit),
    {
        match words_to_init_commit(&self.receipt.journal) {
            Some(commit) => Ok(commit),
            None => Err(LedgerError::Decode),
        }
    }

    /// Whether the proof binds the journal to the identity of the
    /// initialization program, as `verify` finds it; nothing of the journal is
    /// decoded or handed out.
    pub fn verity<F: FnOnce(&Receipt, ProgramKind) -> bool>(&self, verify: F) -> (valid: bool)
        requires
            forall|receipt: &Receipt, program: ProgramKind| call_requires(verify, (receipt, program)),
        ensures
            call_ensures(verify, (&self.receipt(), ProgramKind::Init), valid),
    {
        verify(&self.receipt, ProgramKind::Init)
    }

    pub fn get_receipt(&self) -> (receipt: Receipt)
        ensures
            receipt@ == self@,
    {
        self.receipt.clone()
    }

    /// The commit, given how the check of the proof came out: where it failed,
    /// the journal is not decoded at all.
    pub fn commit_after(&self, valid: bool) -> (commit: Result<
        InitializeLedgerCommit,
        LedgerError,
    >)
        ensures
            !valid ==> commit == Err::<InitializeLedgerCommit, LedgerError>(
                LedgerError::Verification,
            ),
            valid ==> init_commit_read(self@.journal, commit),
    {
        if !valid {
            return Err(LedgerError::Verification);
        }
        self.get_state()
    }

    /// Checks the proof against the identity of the initialization program
    /// first, and decodes the journal only where the check succeeds.
    pub fn verify_and_get_commit<F: FnOnce(&Receipt, ProgramKind) -> bool>(
        &self,
        verify: F,
    ) -> (commit: Result<InitializeLedgerCommit, LedgerError>)
        requires
            forall|receipt: &Receipt, program: ProgramKind| call_requires(verify, (receipt, program)),
        ensures
            exists|valid: bool|
                {
                    &&& #[trigger] call_ensures(verify, (&self.receipt(), ProgramKind::Init), valid)
                    &&& !valid ==> commit == Err::<InitializeLedgerCommit, LedgerError>(
                        LedgerError::Verification,
                    )
                    &&& valid ==> init_commit_read(self@.journal, commit)
                },
    {
        let valid = self.verity(verify);
        self.commit_after(valid)
    }
}

/// The receipt of a run of the program that applies a transaction.
#[derive(Debug)]
pub struct IssueTransactionMessage {
    receipt: Receipt,
}

impl View for IssueTransactionMessage {
    type V = ReceiptModel;

    open spec fn view(&self) -> ReceiptModel {
        self.receipt()@
    }
}

impl IssueTransactionMessage {
    /// The receipt that the message wraps.
    pub closed spec fn receipt(&self) -> Receipt {
        self.receipt
    }

    pub fn new(receipt: Receipt) -> (message: Self)
        ensures
            message.receipt() == receipt,
    {
        IssueTransactionMessage { receipt }
    }

    /// Decodes the journal without any check of the proof: whoever relies on
    /// the result trusts whoever handed over the receipt.
    pub fn get_commit(&self) -> (commit: Result<IssueTransactionCommit, LedgerError>)
        ensures
            issue_commit_read(self@.journal, commit),
    {
        if !lengths_fit() {
            return Err(LedgerError::Decode);
        }
        match words_to_issue_commit(&self.receipt.journal) {
            Some(commit) => Ok(commit),
            None => Err(LedgerError::Decode),
        }
    }

    /// Whether the proof binds the journal to the identity of the program
    /// that applies a transaction, as `verify` finds it; nothing of the
    /// journal is decoded or handed out.
    pub fn verity<F: FnOnce(&Receipt, ProgramKind) -> bool>(&self, verify: F) -> (valid: bool)
        requires
            forall|receipt: &Receipt, program: ProgramKind| call_requires(verify, (receipt, program)),
        ensures
            call_ensures(verify, (&self.receipt(), ProgramKind::Issue), valid),
    {
        verify(&self.receipt, ProgramKind::Issue)
    }

    pub fn get_receipt(&self) -> (receipt: Receipt)
        ensures
            receipt@ == self@,
    {
        self.receipt.clone()
    }

    /// The commit, given how the check of the proof came out: where it failed,
    /// the journal is not decoded at all.
    pub fn commit_after(&self, valid: bool) -> (commit: Result<
        IssueTransactionCommit,
        LedgerError,
    >)
        ensures
            !valid ==> commit == Err::<IssueTransactionCommit, LedgerError>(
                LedgerError::Verification,
            ),
            valid ==> issue_commit_read(self@.journal, commit),
    {
        if !valid {
            return Err(LedgerError::Verification);
        }
        self.get_commit()
    }

    /// Checks the proof against the identity of the program that applies a
    /// transaction first, and decodes the journal only where the check
    /// succeeds.
    pub fn verify_and_get_commit<F: FnOnce(&Receipt, ProgramKind) -> bool>(
        &self,
        verify: F,
    ) -> (commit: Result<IssueTransactionCommit, LedgerError>)
        requires
            forall|receipt: &Receipt, program: ProgramKind| call_requires(verify, (receipt, program)),
        ensures
            exists|valid: bool|
                {
                    &&& #[trigger] call_ensures(
                        verify,
                        (&self.receipt(), ProgramKind::Issue),
                        valid,
                    )
                    &&& !valid ==> commit == Err::<IssueTransactionCommit, LedgerError>(
                        LedgerError::Verification,
                    )
                    &&& valid ==> issue_commit_read(self@.journal, commit)
                },
    {
        let valid = self.verity(verify);
        self.commit_after(valid)
    }
}

} // verus!
