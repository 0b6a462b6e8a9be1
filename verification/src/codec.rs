//! The word encoding in which states, transactions, results and commits pass
//! between the ledger and the execution environment. The encoding itself is
//! the environment's: every function here hands the work to it.
use crate::commit::{InitializeLedgerCommit, IssueCommitModel, IssueTransactionCommit, StateDigest};
use crate::ledger::{balances_of, strictly_ordered, table_of, Transaction};
use risc0_zkvm::serde::{from_slice, to_vec};
use std::collections::BTreeMap;
use vstd::prelude::*;

verus! {

/// The words that encode a state with the given table and counter.
pub uninterp spec fn encoded_state(balances: Map<Seq<char>, u32>, transfer_count: u32) -> Seq<u32>;

/// The words that encode a state followed by a transaction.
pub uninterp spec fn encoded_params(
    balances: Map<Seq<char>, u32>,
    transfer_count: u32,
    receiver: Seq<char>,
    sender: Seq<char>,
    tokens: u32,
) -> Seq<u32>;

/// What the words of a result decode to, where they decode: the table and the
/// counter of the state, whether tokens moved, and the amount.
pub uninterp spec fn decoded_result(output: Seq<u32>) -> Option<
    (Map<Seq<char>, u32>, u32, bool, u32),
>;

/// What the journal of an issued transaction decodes to, where it decodes.
pub uninterp spec fn decoded_issue_commit(journal: Seq<u32>) -> Option<IssueCommitModel>;

/// The machine can round every byte length that a word can name up to whole
/// words: the decoder does so, in `usize`, with each length that it reads.
pub open spec fn word_lengths_fit() -> bool {
    u32::MAX + 3 <= usize::MAX
}

/// Whether this machine is one on which `word_lengths_fit` holds.
pub fn lengths_fit() -> (fit: bool)
    ensures
        fit == word_lengths_fit(),
{
    usize::MAX as u64 >= 0x1_0000_0002
}

/// What the journal of an initialization decodes to: its first eight words,
/// where it has that many.
pub open spec fn decoded_init_commit(journal: Seq<u32>) -> Option<Seq<u32>> {
    if journal.len() >= 8 {
        Some(journal.take(8))
    } else {
        None
    }
}

/// Calls `risc0_zkvm::serde::to_vec` on the table, as a `BTreeMap`, and the
/// counter. Trusted: that the words depend on the table and the counter alone,
/// and that the call returns. It does for a table whose length fits in a
/// word; the serializer panics on a longer one.
#[verifier::external_body]
pub(crate) fn state_to_words(entries: &Vec<(String, u32)>, transfer_count: u32) -> (words: Vec<
    u32,
>)
    requires
        strictly_ordered(entries@),
        entries@.len() <= u32::MAX,
    ensures
        words@ == encoded_state(balances_of(entries@), transfer_count),
{
    let table: BTreeMap<String, u32> = entries.iter().cloned().collect();
    to_vec(&(table, transfer_count)).unwrap()
}

/// Calls `risc0_zkvm::serde::to_vec` on the state, as above, followed by the
/// transaction's receiver, sender and amount. Trusted: that the words depend
/// on these values alone, and that the call returns, under the same bound.
#[verifier::external_body]
pub(crate) fn params_to_words(
    entries: &Vec<(String, u32)>,
    transfer_count: u32,
    transaction: &Transaction,
) -> (words: Vec<u32>)
    requires
        strictly_ordered(entries@),
        entries@.len() <= u32::MAX,
    ensures
        words@ == encoded_params(
            balances_of(entries@),
            transfer_count,
            transaction.receiver@,
            transaction.sender@,
            transaction.tokens,
        ),
{
    let table: BTreeMap<String, u32> = entries.iter().cloned().collect();
    let moved = (&transaction.receiver, &transaction.sender, transaction.tokens);
    to_vec(&((table, transfer_count), moved)).unwrap()
}

/// Calls `risc0_zkvm::serde::from_slice` for a state (a `BTreeMap` and a
/// counter), a flag and an amount, and lists the map's entries. Trusted: that
/// whether the words decode, and to what, depends on the words alone, and that
/// the call returns; the deserializer checks every length against the words
/// that are left, after rounding it up.
#[verifier::external_body]
pub(crate) fn words_to_result(output: &Vec<u32>) -> (parts: Option<
    (Vec<(String, u32)>, u32, bool, u32),
>)
    requires
        word_lengths_fit(),
    ensures
        decoded_result(output@) == match parts {
            Some(p) => Some((table_of(p.0@), p.1, p.2, p.3)),
            None => None,
        },
{
    match from_slice::<((BTreeMap<String, u32>, u32), bool, u32)>(output.as_slice()) {
        Ok(((table, count), counted, tokens)) => Some(
            (table.into_iter().collect(), count, counted, tokens),
        ),
        Err(_) => None,
    }
}

/// Calls `risc0_zkvm::serde::from_slice` for two digests, two strings, an
/// amount and a flag. Trusted: that whether the journal decodes, and to what,
/// depends on its words alone, and that the call returns, as above.
#[verifier::external_body]
pub(crate) fn words_to_issue_commit(journal: &Vec<u32>) -> (commit: Option<IssueTransactionCommit>)
    requires
        word_lengths_fit(),
    ensures
        decoded_issue_commit(journal@) == match commit {
            Some(c) => Some(c@),
            None => None,
        },
{
    match from_slice::<(risc0_zkvm::sha::Digest, risc0_zkvm::sha::Digest, String, String, u32, bool)>(journal.as_slice()) {
        Ok((old, new, receiver, sender, tokens, counted)) => Some(
            IssueTransactionCommit {
                old_state: StateDigest { words: *old.get() },
                new_state: StateDigest { words: *new.get() },
                receiver,
                sender,
                tokens,
                transfer_counted: counted,
            },
        ),
        Err(_) => None,
    }
}

/// Calls `risc0_zkvm::serde::from_slice` for one digest. Trusted: that the
/// deserializer takes the first eight words as the digest, fails where there
/// are fewer, and passes over what follows them.
#[verifier::external_body]
pub(crate) fn words_to_init_commit(journal: &Vec<u32>) -> (commit: Option<InitializeLedgerCommit>)
    ensures
        decoded_init_commit(journal@) == match commit {
            Some(c) => Some(c.state.words@),
            None => None,
        },
{
    match from_slice::<risc0_zkvm::sha::Digest>(journal.as_slice()) {
        Ok(digest) => Some(InitializeLedgerCommit { state: StateDigest { words: *digest.get() } }),
        Err(_) => None,
    }
}

} // verus!
