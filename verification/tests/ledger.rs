use zk_poc::ledger::{
    name_lt, IssueTransactionParams, IssueTransactionResult, LedgerState, Transaction,
};

fn name(s: &str) -> String {
    String::from(s)
}

fn state_of(entries: &[(&str, u32)], transfer_count: u32) -> LedgerState {
    let list: Vec<(String, u32)> = entries.iter().map(|(k, v)| (name(k), *v)).collect();
    LedgerState::from_entries(list, transfer_count)
}

fn listed(state: &LedgerState) -> Vec<(String, u32)> {
    state.accounts()
}

#[test]
fn new_state_is_empty() {
    let state = LedgerState::new();
    assert_eq!(state.len(), 0);
    assert_eq!(state.transfer_count(), 0);
    assert_eq!(state.balance(&name("A")), None);
    assert_eq!(listed(&state), vec![]);
}

#[test]
fn insert_keeps_the_order_of_identifiers() {
    let mut state = LedgerState::new();
    assert_eq!(state.insert(name("b"), 2), None);
    assert_eq!(state.insert(name("a"), 1), None);
    assert_eq!(state.insert(name("c"), 3), None);
    assert_eq!(state.insert(name("B"), 4), None);
    assert_eq!(
        listed(&state),
        vec![(name("B"), 4), (name("a"), 1), (name("b"), 2), (name("c"), 3)]
    );
    assert_eq!(state.len(), 4);
}

#[test]
fn insert_replaces_and_returns_the_old_balance() {
    let mut state = LedgerState::new();
    assert_eq!(state.insert(name("a"), 1), None);
    assert_eq!(state.insert(name("a"), 7), Some(1));
    assert_eq!(state.balance(&name("a")), Some(7));
    assert_eq!(state.len(), 1);
    assert_eq!(state.transfer_count(), 0);
}

#[test]
fn from_entries_lets_the_later_entry_stay() {
    let state = state_of(&[("x", 1), ("a", 2), ("x", 3)], 5);
    assert_eq!(listed(&state), vec![(name("a"), 2), (name("x"), 3)]);
    assert_eq!(state.transfer_count(), 5);
}

#[test]
fn states_with_the_same_table_are_equal() {
    let one = state_of(&[("b", 2), ("a", 1)], 0);
    let other = state_of(&[("a", 1), ("b", 2)], 0);
    assert_eq!(one, other);
    assert_ne!(one, state_of(&[("a", 1), ("b", 2)], 1));
    assert_eq!(one.clone(), one);
}

#[test]
fn identifiers_are_ordered_by_their_bytes() {
    assert!(name_lt(&name("a"), &name("b")));
    assert!(!name_lt(&name("b"), &name("a")));
    assert!(!name_lt(&name("a"), &name("a")));
    assert!(name_lt(&name(""), &name("a")));
    assert!(!name_lt(&name(""), &name("")));
    assert!(name_lt(&name("a"), &name("aa")));
    assert!(name_lt(&name("Z"), &name("a")));
    assert!(name_lt(&name("z"), &name("\u{e9}")));
    assert!(name_lt(&name("\u{e9}"), &name("\u{4e2d}")));
    assert_eq!(name_lt(&name("addressA"), &name("addressB")), "addressA" < "addressB");
    assert_eq!(name_lt(&name("\u{ffff}"), &name("\u{10000}")), "\u{ffff}" < "\u{10000}");
}

#[test]
fn transfer_moves_tokens_and_counts() {
    let mut state = state_of(&[("A", 1000)], 0);
    assert!(state.transfer(&name("B"), &name("A"), 100));
    assert_eq!(state, state_of(&[("A", 900), ("B", 100)], 1));
    assert!(state.transfer(&name("C"), &name("B"), 50));
    assert_eq!(state, state_of(&[("A", 900), ("B", 50), ("C", 50)], 2));
    assert_eq!(state.transfer_count(), 2);
}

#[test]
fn transfer_to_an_account_that_exists_adds_to_it() {
    let mut state = state_of(&[("A", 10), ("B", 5)], 3);
    assert!(state.transfer(&name("B"), &name("A"), 4));
    assert_eq!(state.balance(&name("A")), Some(6));
    assert_eq!(state.balance(&name("B")), Some(9));
    assert_eq!(state.transfer_count(), 4);
}

#[test]
fn transfer_of_the_whole_balance_leaves_an_entry_of_zero() {
    let mut state = state_of(&[("A", 10)], 0);
    assert!(state.transfer(&name("B"), &name("A"), 10));
    assert_eq!(state, state_of(&[("A", 0), ("B", 10)], 1));
}

#[test]
fn transfer_from_an_unknown_sender_changes_nothing() {
    let mut state = state_of(&[("A", 10)], 7);
    assert!(!state.transfer(&name("A"), &name("Z"), 1));
    assert_eq!(state, state_of(&[("A", 10)], 7));
    assert!(!state.transfer(&name("A"), &name("Z"), 0));
    assert_eq!(state, state_of(&[("A", 10)], 7));
}

#[test]
fn transfer_of_more_than_the_balance_changes_nothing() {
    let mut state = state_of(&[("A", 10)], 0);
    assert!(!state.transfer(&name("B"), &name("A"), 100));
    assert_eq!(state, state_of(&[("A", 10)], 0));
    assert_eq!(state.balance(&name("B")), None);
    assert!(!state.transfer(&name("B"), &name("A"), 11));
    assert_eq!(state.transfer_count(), 0);
}

#[test]
fn transfer_to_oneself_keeps_the_balance_and_counts() {
    let mut state = state_of(&[("A", 10)], 0);
    assert!(state.transfer(&name("A"), &name("A"), 10));
    assert_eq!(state, state_of(&[("A", 10)], 1));
    assert!(state.transfer(&name("A"), &name("A"), 3));
    assert_eq!(state, state_of(&[("A", 10)], 2));
    assert!(!state.transfer(&name("A"), &name("A"), 11));
    assert_eq!(state, state_of(&[("A", 10)], 2));
}

#[test]
fn transfer_of_nothing_succeeds_and_counts() {
    let mut state = state_of(&[("A", 10)], 0);
    assert!(state.transfer(&name("B"), &name("A"), 0));
    assert_eq!(state, state_of(&[("A", 10), ("B", 0)], 1));
    let mut empty_handed = state_of(&[("A", 0)], 0);
    assert!(empty_handed.transfer(&name("A"), &name("A"), 0));
    assert_eq!(empty_handed, state_of(&[("A", 0)], 1));
}

#[test]
fn transfer_may_fill_a_balance_to_the_brim() {
    let mut state = state_of(&[("A", 10), ("B", u32::MAX - 10)], 0);
    assert!(state.transfer(&name("B"), &name("A"), 10));
    assert_eq!(state, state_of(&[("A", 0), ("B", u32::MAX)], 1));
}

#[test]
fn transfer_leaves_the_other_accounts_alone() {
    let mut state = state_of(&[("A", 10), ("B", 5), ("C", 1), ("D", 2)], 0);
    assert!(state.transfer(&name("C"), &name("B"), 5));
    assert_eq!(state, state_of(&[("A", 10), ("B", 0), ("C", 6), ("D", 2)], 1));
}

#[test]
fn process_works_on_a_copy() {
    let state = state_of(&[("A", 1000)], 0);
    let transaction =
        Transaction { receiver: name("B"), sender: name("A"), tokens: 100 };
    let params = IssueTransactionParams::new(state, transaction.clone());
    assert_eq!(params.transaction, transaction);
    let result = params.process();
    assert_eq!(
        result,
        IssueTransactionResult {
            state: state_of(&[("A", 900), ("B", 100)], 1),
            transfer_counted: true,
            tokens: 100,
        }
    );
    assert_eq!(params.state, state_of(&[("A", 1000)], 0));
}

#[test]
fn process_records_a_rejected_transfer() {
    let state = state_of(&[("A", 10)], 0);
    let transaction =
        Transaction { receiver: name("B"), sender: name("A"), tokens: 100 };
    let result = IssueTransactionParams::new(state, transaction).process();
    assert_eq!(
        result,
        IssueTransactionResult {
            state: state_of(&[("A", 10)], 0),
            transfer_counted: false,
            tokens: 100,
        }
    );
}

#[test]
fn fits_tells_when_a_transfer_stays_in_range() {
    let state = state_of(&[("A", 10), ("B", u32::MAX - 9)], 0);
    assert!(state.fits(&name("B"), &name("A"), 9));
    assert!(!state.fits(&name("B"), &name("A"), 10));
    // a transfer that is rejected moves nothing, so it fits
    assert!(state.fits(&name("B"), &name("A"), 11));
    assert!(state.fits(&name("B"), &name("Z"), 10));
    assert!(state.fits(&name("C"), &name("A"), 10));
    assert!(state.fits(&name("B"), &name("B"), u32::MAX - 9));
    let counted_out = state_of(&[("A", 10)], u32::MAX);
    assert!(!counted_out.fits(&name("B"), &name("A"), 1));
    assert!(!counted_out.fits(&name("A"), &name("A"), 0));
    assert!(counted_out.fits(&name("B"), &name("A"), 11));
}
