//! The ledger service: two operations, each complete in itself. The service
//! keeps no ledger of its own and no state between calls.
use crate::codec::encoded_params;
use crate::error::LedgerError;
use crate::ledger::{LedgerState, Transaction};
use crate::maintainer::{state_in, Execution, LedgerMaintainer, RunOutcome};
use crate::program::{program_of_method, ProgramKind, INIT_METHOD_ID, ISSUE_METHOD_ID};
use crate::receipt::Receipt;
use vstd::prelude::*;

verus! {

/// What creating a receipt makes of an outcome: an execution error for a run
/// that failed, and a decode error for private words that do not decode; else
/// the run's receipt and the state that the words hold.
pub open spec fn receipt_created(
    outcome: RunOutcome,
    reply: Result<(Receipt, LedgerState), LedgerError>,
) -> bool {
    match outcome {
        RunOutcome::Failed => reply matches Err(e) && e == LedgerError::EnvironmentExecution,
        RunOutcome::Completed { receipt, output } => match state_in(output@) {
            None => reply matches Err(e) && e == LedgerError::Decode,
            Some(state) => {
                &&& reply matches Ok(pair)
                &&& pair.0@ == receipt@
                &&& pair.1@ == state
            },
        },
    }
}

#[derive(Debug)]
pub struct VMService {}

impl Default for VMService {
    fn default() -> (service: Self) {
        VMService {  }
    }
}

impl VMService {
    /// Creates a receipt for `transaction` against the state that the caller
    /// supplied: a maintainer seeded with that state issues the transaction by
    /// way of `run`, and the reply is the receipt with the maintainer's state
    /// after it. The signatures are taken and not looked at.
    pub fn create_receipt<F: FnOnce(Execution) -> RunOutcome>(
        &self,
        transaction: &Transaction,
        signatures: &String,
        ledger_state: LedgerState,
        run: F,
    ) -> (reply: Result<(Receipt, LedgerState), LedgerError>)
        requires
            ledger_state@.balances.dom().len() <= u32::MAX,
            forall|request: Execution| call_requires(run, (request,)),
        ensures
            exists|request: Execution, outcome: RunOutcome|
                {
                    &&& request.program == ProgramKind::Issue
                    &&& request.input@ == encoded_params(
                        ledger_state@.balances,
                        ledger_state@.transfer_count,
                        transaction.receiver@,
                        transaction.sender@,
                        transaction.tokens,
                    )
                    &&& #[trigger] call_ensures(run, (request,), outcome)
                    &&& receipt_created(outcome, reply)
                },
    {
        let mut ledger_maintainer = LedgerMaintainer::new(ledger_state);
        match ledger_maintainer.issue(transaction, run) {
            Ok(transaction_message) => Ok(
                (transaction_message.get_receipt(), ledger_maintainer.get_state()),
            ),
            Err(error) => Err(error),
        }
    }

    /// Validates a receipt against the program that `method_id` selects, by
    /// way of `verify`. A number that selects no program is answered with
    /// `false`, whatever the receipt holds. Nothing of the journal is decoded,
    /// and nothing but the answer comes back.
    pub fn validation<F: FnOnce(&Receipt, ProgramKind) -> bool>(
        &self,
        receipt: &Receipt,
        method_id: i32,
        verify: F,
    ) -> (valid: bool)
        requires
            forall|receipt: &Receipt, program: ProgramKind| call_requires(verify, (receipt, program)),
        ensures
            match program_of_method(method_id) {
                Some(program) => call_ensures(verify, (receipt, program), valid),
                None => !valid,
            },
            method_id != INIT_METHOD_ID && method_id != ISSUE_METHOD_ID ==> !valid,
    {
        match ProgramKind::from_method_id(method_id) {
            Some(program) => verify(receipt, program),
            None => false,
        }
    }
}

} // verus!
