//! The ledger maintainer: it holds the running copy of the state, says what
//! to submit to the execution environment, and advances the state from what a
//! run hands back.
//!
//! Running a program is the execution environment's work: the functions
//! that need a run take it as `run`, which is handed an `Execution` and
//! answers with a `RunOutcome`.
use crate::codec::{
    decoded_result, encoded_params, encoded_state, lengths_fit, params_to_words, state_to_words,
    word_lengths_fit, words_to_result,
};
use crate::error::LedgerError;
use crate::ledger::{
    IssueTransactionParams, IssueTransactionResult, LedgerModel, LedgerState, Transaction,
};
use crate::message::{InitMessage, IssueTransactionMessage};
use crate::program::ProgramKind;
use crate::receipt::Receipt;
use vstd::prelude::*;

verus! {

/// A run asked of the execution environment: the program, and the words it is
/// to read.
#[derive(Debug, PartialEq, Eq)]
pub struct Execution {
    pub program: ProgramKind,
    pub input: Vec<u32>,
}

/// What became of a run: it completed, with a receipt and the words that the
/// program handed back in private, or the environment could not run the
/// program to completion.
#[derive(Debug, PartialEq, Eq)]
pub enum RunOutcome {
    Completed { receipt: Receipt, output: Vec<u32> },
    Failed,
}

/// What the private words of a completed run decode to, on this machine: the
/// state that the run left, where they decode, the machine's lengths being
/// wide enough for the decoder.
pub open spec fn state_in(output: Seq<u32>) -> Option<LedgerModel> {
    match decoded_result(output) {
        Some(parts) if word_lengths_fit() => Some(
            LedgerModel { balances: parts.0, transfer_count: parts.1 },
        ),
        _ => None,
    }
}

/// What initializing makes of an outcome: the receipt of a completed run,
/// wrapped, or an execution error for a run that failed.
pub open spec fn initialized(outcome: RunOutcome, message: Result<InitMessage, LedgerError>) -> bool {
    match outcome {
        RunOutcome::Completed { receipt, output } => message matches Ok(m) && m.receipt()
            == receipt,
        RunOutcome::Failed => message matches Err(e) && e == LedgerError::EnvironmentExecution,
    }
}

/// What issuing does with an outcome: a failed run is an execution error and
/// words that do not decode are a decode error, the state being `before` after
/// either; else the state is the one that the words hold, and the message
/// wraps the run's receipt.
pub open spec fn issued(
    before: LedgerModel,
    outcome: RunOutcome,
    after: LedgerModel,
    message: Result<IssueTransactionMessage, LedgerError>,
) -> bool {
    match outcome {
        RunOutcome::Failed => {
            &&& message matches Err(e) && e == LedgerError::EnvironmentExecution
            &&& after == before
        },
        RunOutcome::Completed { receipt, output } => match state_in(output@) {
            None => {
                &&& message matches Err(e) && e == LedgerError::Decode
                &&& after == before
            },
            Some(state) => {
                &&& message matches Ok(m) && m.receipt() == receipt
                &&& after == state
            },
        },
    }
}

/// The maintainer of one ledger.
#[derive(Debug)]
pub struct LedgerMaintainer {
    state: LedgerState,
}

impl View for LedgerMaintainer {
    type V = LedgerModel;

    closed spec fn view(&self) -> LedgerModel {
        self.state@
    }
}

impl LedgerMaintainer {
    pub fn new(state: LedgerState) -> (maintainer: Self)
        ensures
            maintainer@ == state@,
    {
        LedgerMaintainer { state }
    }

    /// A copy of the current state.
    pub fn get_state(&self) -> (state: LedgerState)
        ensures
            state@ == self@,
    {
        self.state.clone()
    }

    /// The run that anchors the current state: the initialization program on
    /// the encoded state.
    pub fn init_request(&self) -> (request: Execution)
        requires
            self@.balances.dom().len() <= u32::MAX,
        ensures
            request.program == ProgramKind::Init,
            request.input@ == encoded_state(self@.balances, self@.transfer_count),
    {
        let entries = self.state.accounts();
        proof {
            crate::ledger::lemma_count(entries@);
        }
        let input = state_to_words(&entries, self.state.transfer_count());
        Execution { program: ProgramKind::Init, input }
    }

    /// Wraps what a run for `init_request` handed back.
    pub fn conclude_init(&self, outcome: RunOutcome) -> (message: Result<InitMessage, LedgerError>)
        ensures
            initialized(outcome, message),
    {
        match outcome {
            RunOutcome::Completed { receipt, output } => Ok(InitMessage::new(receipt)),
            RunOutcome::Failed => Err(LedgerError::EnvironmentExecution),
        }
    }

    /// Anchors the current state: hands the initialization program and the
    /// encoded state to `run`, and wraps the receipt that comes back. The
    /// state stays as it is.
    pub fn init<F: FnOnce(Execution) -> RunOutcome>(&self, run: F) -> (message: Result<
        InitMessage,
        LedgerError,
    >)
        requires
            self@.balances.dom().len() <= u32::MAX,
            forall|request: Execution| call_requires(run, (request,)),
        ensures
            exists|request: Execution, outcome: RunOutcome|
                {
                    &&& request.program == ProgramKind::Init
                    &&& request.input@ == encoded_state(self@.balances, self@.transfer_count)
                    &&& #[trigger] call_ensures(run, (request,), outcome)
                    &&& initialized(outcome, message)
                },
    {
        let request = self.init_request();
        let outcome = run(request);
        self.conclude_init(outcome)
    }

    /// What the program that issues `transaction` is given: a copy of the
    /// current state, and a copy of the transaction.
    pub fn issue_params(&self, transaction: &Transaction) -> (params: IssueTransactionParams)
        ensures
            params.state@ == self@,
            params.transaction == *transaction,
    {
        IssueTransactionParams::new(self.state.clone(), transaction.clone())
    }

    /// The run that issues `transaction` against the current state: the issue
    /// program on the encoded parameters.
    pub fn issue_request(&self, transaction: &Transaction) -> (request: Execution)
        requires
            self@.balances.dom().len() <= u32::MAX,
        ensures
            request.program == ProgramKind::Issue,
            request.input@ == encoded_params(
                self@.balances,
                self@.transfer_count,
                transaction.receiver@,
                transaction.sender@,
                transaction.tokens,
            ),
    {
        let params = self.issue_params(transaction);
        let entries = params.state.accounts();
        proof {
            crate::ledger::lemma_count(entries@);
        }
        let input = params_to_words(&entries, params.state.transfer_count(), &params.transaction);
        Execution { program: ProgramKind::Issue, input }
    }

    /// Takes the state of `result` as the current state, whether or not
    /// tokens moved.
    pub fn adopt(&mut self, result: IssueTransactionResult)
        ensures
            final(self)@ == result.state@,
    {
        self.state = result.state;
    }

    /// Advances the state from what a run for `issue_request` handed back.
    /// Where the run failed, or its private words do not decode, the state
    /// stays as it was. Else the decoded state replaces it, whether or not
    /// tokens moved, and the receipt comes back wrapped.
    pub fn conclude_issue(&mut self, outcome: RunOutcome) -> (message: Result<
        IssueTransactionMessage,
        LedgerError,
    >)
        ensures
            issued(old(self)@, outcome, final(self)@, message),
    {
        match outcome {
            RunOutcome::Failed => Err(LedgerError::EnvironmentExecution),
            RunOutcome::Completed { receipt, output } => {
                if !lengths_fit() {
                    return Err(LedgerError::Decode);
                }
                match words_to_result(&output) {
                    None => Err(LedgerError::Decode),
                    Some((entries, count, counted, tokens)) => {
                        let result = IssueTransactionResult {
                            state: LedgerState::from_entries(entries, count),
                            transfer_counted: counted,
                            tokens,
                        };
                        self.adopt(result);
                        Ok(IssueTransactionMessage::new(receipt))
                    },
                }
            },
        }
    }

    /// Issues `transaction`: hands the issue program and the encoded
    /// parameters, a copy of the current state and the transaction, to `run`,
    /// and advances the state from what comes back. Where the run fails the
    /// state stays as it was.
    pub fn issue<F: FnOnce(Execution) -> RunOutcome>(
        &mut self,
        transaction: &Transaction,
        run: F,
    ) -> (message: Result<IssueTransactionMessage, LedgerError>)
        requires
            old(self)@.balances.dom().len() <= u32::MAX,
            forall|request: Execution| call_requires(run, (request,)),
        ensures
            exists|request: Execution, outcome: RunOutcome|
                {
                    &&& request.program == ProgramKind::Issue
                    &&& request.input@ == encoded_params(
                        old(self)@.balances,
                        old(self)@.transfer_count,
                        transaction.receiver@,
                        transaction.sender@,
                        transaction.tokens,
                    )
                    &&& #[trigger] call_ensures(run, (request,), outcome)
                    &&& issued(old(self)@, outcome, final(self)@, message)
                },
    {
        let request = self.issue_request(transaction);
        let outcome = run(request);
        self.conclude_issue(outcome)
    }
}

} // verus!
