//! The ways in which an operation of the ledger fails.
use vstd::prelude::*;

verus! {

/// Why an operation failed. A transfer that the ledger rejects is no failure:
/// it is an outcome that a receipt records.
#[derive(Clone, Copy, Debug, PartialEq, Eq, Structural)]
pub enum LedgerError {
    /// Words that should hold a commit or a result do not.
    Decode,
    /// The execution environment could not run the program to completion.
    EnvironmentExecution,
    /// The proof does not bind the journal to the program identity.
    Verification,
}

} // verus!
