//! The two programs that the execution environment runs for the ledger, and
//! the numbers by which a request names them.
use vstd::prelude::*;

verus! {

/// The number that selects the program which commits to a starting state.
pub const INIT_METHOD_ID: i32 = 1;

/// The number that selects the program which applies a transaction.
pub const ISSUE_METHOD_ID: i32 = 2;

/// A program kind; each has one fixed identity, which every party that
/// creates or checks receipts shares.
#[derive(Clone, Copy, Debug, PartialEq, Eq, Structural)]
pub enum ProgramKind {
    Init,
    Issue,
}

/// The program that a method number selects: none for any number but the two
/// above.
pub open spec fn program_of_method(method_id: i32) -> Option<ProgramKind> {
    if method_id == INIT_METHOD_ID {
        Some(ProgramKind::Init)
    } else if method_id == ISSUE_METHOD_ID {
        Some(ProgramKind::Issue)
    } else {
        None
    }
}

impl ProgramKind {
    /// The program that `method_id` selects.
    pub fn from_method_id(method_id: i32) -> (program: Option<ProgramKind>)
        ensures
            program == program_of_method(method_id),
    {
        if method_id == INIT_METHOD_ID {
            Some(ProgramKind::Init)
        } else if method_id == ISSUE_METHOD_ID {
            Some(ProgramKind::Issue)
        } else {
            None
        }
    }

    /// The number that selects this program.
    pub fn method_id(&self) -> (method_id: i32)
        ensures
            program_of_method(method_id) == Some(*self),
            method_id == match *self {
                ProgramKind::Init => INIT_METHOD_ID,
                ProgramKind::Issue => ISSUE_METHOD_ID,
            },
    {
        match self {
            ProgramKind::Init => INIT_METHOD_ID,
            ProgramKind::Issue => ISSUE_METHOD_ID,
        }
    }
}

} // verus!
