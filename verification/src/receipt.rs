//! Receipts: the public words that a program committed, and the proof that
//! binds them to the program's identity.
use vstd::prelude::*;

verus! {

/// What a receipt stands for.
pub struct ReceiptModel {
    pub journal: Seq<u32>,
    pub seal: Seq<u32>,
}

/// The journal that a run of a program committed, and the seal that attests
/// that a program of a given identity produced it. The seal is opaque here.
#[derive(Debug, PartialEq, Eq)]
pub struct Receipt {
    pub journal: Vec<u32>,
    pub seal: Vec<u32>,
}

impl View for Receipt {
    type V = ReceiptModel;

    open spec fn view(&self) -> ReceiptModel {
        ReceiptModel { journal: self.journal@, seal: self.seal@ }
    }
}

impl Clone for Receipt {
    fn clone(&self) -> (copy: Self)
        ensures
            copy@ == self@,
    {
        Receipt { journal: self.journal.clone(), seal: self.seal.clone() }
    }
}

impl Receipt {
    pub fn new(journal: Vec<u32>, seal: Vec<u32>) -> (receipt: Self)
        ensures
            receipt@ == (ReceiptModel { journal: journal@, seal: seal@ }),
    {
        Receipt { journal, seal }
    }
}

} // verus!
