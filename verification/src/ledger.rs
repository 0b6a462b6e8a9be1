//! The ledger state model: a table of balances ordered by account identifier,
//! a transfer counter, and the transfer rule.
use vstd::prelude::*;
use vstd::string::*;
use vstd::utf8::*;

verus! {

/// Lexicographic comparison of two byte strings from position `i` on, the
/// positions before `i` being taken as equal.
pub open spec fn bytes_lt_from(a: Seq<u8>, b: Seq<u8>, i: int) -> bool
    decreases a.len() - i,
{
    if i < 0 || i >= b.len() {
        false
    } else if i >= a.len() {
        true
    } else if a[i] != b[i] {
        a[i] < b[i]
    } else {
        bytes_lt_from(a, b, i + 1)
    }
}

/// The order of account identifiers: the lexicographic order of their UTF-8
/// bytes.
pub open spec fn key_lt(a: Seq<char>, b: Seq<char>) -> bool {
    bytes_lt_from(encode_utf8(a), encode_utf8(b), 0)
}

proof fn lemma_bytes_irreflexive(a: Seq<u8>, i: int)
    requires
        0 <= i,
    ensures
        !bytes_lt_from(a, a, i),
    decreases a.len() - i,
{
    if i < a.len() {
        lemma_bytes_irreflexive(a, i + 1);
    }
}

proof fn lemma_bytes_transitive(a: Seq<u8>, b: Seq<u8>, c: Seq<u8>, i: int)
    requires
        0 <= i,
        bytes_lt_from(a, b, i),
        bytes_lt_from(b, c, i),
    ensures
        bytes_lt_from(a, c, i),
    decreases a.len() - i,
{
    if i < a.len() && i < b.len() && i < c.len() && a[i] == b[i] && b[i] == c[i] {
        lemma_bytes_transitive(a, b, c, i + 1);
    }
}

proof fn lemma_bytes_connected(a: Seq<u8>, b: Seq<u8>, i: int)
    requires
        0 <= i <= a.len(),
        i <= b.len(),
        !bytes_lt_from(a, b, i),
        !bytes_lt_from(b, a, i),
    ensures
        a.len() == b.len(),
        forall|j: int| i <= j < a.len() ==> a[j] == b[j],
    decreases a.len() - i,
{
    if i < a.len() && i < b.len() {
        lemma_bytes_connected(a, b, i + 1);
    }
}

/// No identifier comes before itself.
pub proof fn lemma_key_lt_irreflexive(a: Seq<char>)
    ensures
        !key_lt(a, a),
{
    lemma_bytes_irreflexive(encode_utf8(a), 0);
}

/// The order of identifiers is transitive.
pub proof fn lemma_key_lt_transitive(a: Seq<char>, b: Seq<char>, c: Seq<char>)
    requires
        key_lt(a, b),
        key_lt(b, c),
    ensures
        key_lt(a, c),
{
    lemma_bytes_transitive(encode_utf8(a), encode_utf8(b), encode_utf8(c), 0);
}

/// Two identifiers of which neither comes before the other are the same.
pub proof fn lemma_key_lt_connected(a: Seq<char>, b: Seq<char>)
    requires
        !key_lt(a, b),
        !key_lt(b, a),
    ensures
        a == b,
{
    let x = encode_utf8(a);
    let y = encode_utf8(b);
    lemma_bytes_connected(x, y, 0);
    assert(x =~= y);
    encode_utf8_decode_utf8(a);
    encode_utf8_decode_utf8(b);
}

/// Whether `a` comes before `b` in the order of account identifiers.
pub fn name_lt(a: &String, b: &String) -> (r: bool)
    ensures
        r == key_lt(a@, b@),
{
    let x = a.as_str().as_bytes();
    let y = b.as_str().as_bytes();
    let mut i: usize = 0;
    loop
        invariant
            x@ == encode_utf8(a@),
            y@ == encode_utf8(b@),
            i <= x@.len(),
            i <= y@.len(),
            key_lt(a@, b@) == bytes_lt_from(x@, y@, i as int),
        decreases x@.len() - i,
    {
        if i >= y.len() {
            return false;
        }
        if i >= x.len() {
            return true;
        }
        if x[i] != y[i] {
            return x[i] < y[i];
        }
        i += 1;
    }
}

/// What a ledger state stands for: the balance of every account that has one,
/// and the number of transfers that have moved tokens.
pub struct LedgerModel {
    pub balances: Map<Seq<char>, u32>,
    pub transfer_count: u32,
}

/// The entries are in strictly increasing order of identifier, so that no
/// identifier occurs twice.
pub open spec fn strictly_ordered(e: Seq<(String, u32)>) -> bool {
    forall|i: int, j: int|
        #![trigger e[i], e[j]]
        0 <= i < j < e.len() ==> key_lt(e[i].0@, e[j].0@)
}

/// Some entry of `e` has the identifier `k`.
pub open spec fn has_key(e: Seq<(String, u32)>, k: Seq<char>) -> bool {
    exists|i: int| 0 <= i < e.len() && (#[trigger] e[i]).0@ == k
}

/// The position of an entry of `e` with the identifier `k`.
pub open spec fn index_of(e: Seq<(String, u32)>, k: Seq<char>) -> int {
    choose|i: int| 0 <= i < e.len() && (#[trigger] e[i]).0@ == k
}

/// The table that a list of entries stands for.
pub open spec fn balances_of(e: Seq<(String, u32)>) -> Map<Seq<char>, u32> {
    Map::new(|k: Seq<char>| has_key(e, k), |k: Seq<char>| e[index_of(e, k)].1)
}

/// In an ordered list the entries at two different positions have different
/// identifiers.
pub proof fn lemma_ordered_distinct(e: Seq<(String, u32)>, i: int, j: int)
    requires
        strictly_ordered(e),
        0 <= i < e.len(),
        0 <= j < e.len(),
        e[i].0@ == e[j].0@,
    ensures
        i == j,
{
    lemma_key_lt_irreflexive(e[i].0@);
    if i < j {
        assert(key_lt(e[i].0@, e[j].0@));
    } else if j < i {
        assert(key_lt(e[j].0@, e[i].0@));
    }
}

/// An ordered list maps the identifier of each of its entries to that entry's
/// balance.
pub proof fn lemma_lookup(e: Seq<(String, u32)>, i: int)
    requires
        strictly_ordered(e),
        0 <= i < e.len(),
    ensures
        balances_of(e).contains_key(e[i].0@),
        balances_of(e)[e[i].0@] == e[i].1,
{
    let k = e[i].0@;
    assert(has_key(e, k));
    lemma_ordered_distinct(e, i, index_of(e, k));
}

/// Replacing the balance of the entry at `i` is an insertion under that
/// entry's identifier.
proof fn lemma_update(e: Seq<(String, u32)>, i: int, entry: (String, u32))
    requires
        strictly_ordered(e),
        0 <= i < e.len(),
        entry.0@ == e[i].0@,
    ensures
        strictly_ordered(e.update(i, entry)),
        balances_of(e.update(i, entry)) == balances_of(e).insert(entry.0@, entry.1),
{
    let e2 = e.update(i, entry);
    assert forall|a: int, b: int| 0 <= a < b < e2.len() implies key_lt(
        (#[trigger] e2[a]).0@,
        (#[trigger] e2[b]).0@,
    ) by {
        assert(key_lt(e[a].0@, e[b].0@));
    }
    assert forall|k: Seq<char>| has_key(e2, k) == has_key(e, k) by {
        if has_key(e, k) {
            let j = index_of(e, k);
            assert(e2[j].0@ == k);
        }
        if has_key(e2, k) {
            let j = index_of(e2, k);
            assert(e[j].0@ == k);
        }
    }
    assert forall|k: Seq<char>| has_key(e2, k) implies #[trigger] balances_of(e2)[k]
        == balances_of(e).insert(entry.0@, entry.1)[k] by {
        let j = index_of(e2, k);
        lemma_lookup(e2, j);
        if j != i {
            lemma_lookup(e, j);
            if k == e[i].0@ {
                lemma_ordered_distinct(e, i, j);
            }
        }
    }
    lemma_lookup(e, i);
    assert(balances_of(e2) =~= balances_of(e).insert(entry.0@, entry.1));
}

/// Putting a new entry at the place where its identifier belongs is an
/// insertion under that identifier.
proof fn lemma_insert(e: Seq<(String, u32)>, p: int, entry: (String, u32))
    requires
        strictly_ordered(e),
        0 <= p <= e.len(),
        forall|j: int| 0 <= j < p ==> key_lt((#[trigger] e[j]).0@, entry.0@),
        forall|j: int| p <= j < e.len() ==> key_lt(entry.0@, (#[trigger] e[j]).0@),
    ensures
        strictly_ordered(e.insert(p, entry)),
        balances_of(e.insert(p, entry)) == balances_of(e).insert(entry.0@, entry.1),
{
    let e2 = e.insert(p, entry);
    assert forall|a: int, b: int| 0 <= a < b < e2.len() implies key_lt(
        (#[trigger] e2[a]).0@,
        (#[trigger] e2[b]).0@,
    ) by {
        if b < p {
            assert(key_lt(e[a].0@, e[b].0@));
        } else if b == p {
            assert(key_lt(e[a].0@, entry.0@));
        } else if a < p {
            assert(key_lt(e[a].0@, e[b - 1].0@));
        } else if a == p {
            assert(key_lt(entry.0@, e[b - 1].0@));
        } else {
            assert(key_lt(e[a - 1].0@, e[b - 1].0@));
        }
    }
    assert(e2[p] == entry);
    assert forall|k: Seq<char>| has_key(e2, k) == (has_key(e, k) || k == entry.0@) by {
        if has_key(e, k) {
            let j = index_of(e, k);
            if j < p {
                assert(e2[j].0@ == k);
            } else {
                assert(e2[j + 1].0@ == k);
            }
        }
        if has_key(e2, k) && k != entry.0@ {
            let j = index_of(e2, k);
            if j < p {
                assert(e[j].0@ == k);
            } else {
                assert(e[j - 1].0@ == k);
            }
        }
    }
    assert forall|k: Seq<char>| has_key(e2, k) implies #[trigger] balances_of(e2)[k]
        == balances_of(e).insert(entry.0@, entry.1)[k] by {
        let j = index_of(e2, k);
        lemma_lookup(e2, j);
        if k == entry.0@ {
            lemma_ordered_distinct(e2, j, p);
        }
        if j < p {
            lemma_lookup(e, j);
        } else if j > p {
            lemma_lookup(e, j - 1);
        }
    }
    assert(balances_of(e2) =~= balances_of(e).insert(entry.0@, entry.1));
}

/// Where every entry before `p` comes before `k` and every entry from `p` on
/// comes after it, no entry has the identifier `k`.
proof fn lemma_absent(e: Seq<(String, u32)>, p: int, k: Seq<char>)
    requires
        0 <= p <= e.len(),
        forall|j: int| 0 <= j < p ==> key_lt((#[trigger] e[j]).0@, k),
        forall|j: int| p <= j < e.len() ==> key_lt(k, (#[trigger] e[j]).0@),
    ensures
        !balances_of(e).contains_key(k),
{
    lemma_key_lt_irreflexive(k);
    if has_key(e, k) {
        let j = index_of(e, k);
        assert(e[j].0@ == k);
        if j < p {
            assert(key_lt(e[j].0@, k));
        } else {
            assert(key_lt(k, e[j].0@));
        }
    }
}

/// An ordered list with its last entry taken off is ordered, holds no entry
/// with the identifier of that last entry, and stands for the table without
/// it.
proof fn lemma_front(e: Seq<(String, u32)>)
    requires
        strictly_ordered(e),
        e.len() > 0,
    ensures
        strictly_ordered(e.drop_last()),
        !balances_of(e.drop_last()).contains_key(e.last().0@),
        balances_of(e) == balances_of(e.drop_last()).insert(e.last().0@, e.last().1),
{
    let front = e.drop_last();
    let last = e.last();
    assert forall|i: int, j: int| 0 <= i < j < front.len() implies key_lt(
        (#[trigger] front[i]).0@,
        (#[trigger] front[j]).0@,
    ) by {
        assert(key_lt(e[i].0@, e[j].0@));
    }
    assert forall|j: int| 0 <= j < front.len() implies key_lt(
        (#[trigger] front[j]).0@,
        last.0@,
    ) by {
        assert(key_lt(e[j].0@, e[e.len() - 1].0@));
    }
    lemma_insert(front, front.len() as int, last);
    assert(front.insert(front.len() as int, last) =~= e);
    lemma_absent(front, front.len() as int, last.0@);
}

/// An ordered list has as many entries as its table has accounts.
pub proof fn lemma_count(e: Seq<(String, u32)>)
    requires
        strictly_ordered(e),
    ensures
        balances_of(e).dom().finite(),
        balances_of(e).dom().len() == e.len(),
    decreases e.len(),
{
    if e.len() == 0 {
        assert(balances_of(e).dom() =~= Set::<Seq<char>>::empty());
    } else {
        lemma_front(e);
        lemma_count(e.drop_last());
        assert(balances_of(e).dom() =~= balances_of(e.drop_last()).dom().insert(e.last().0@));
    }
}

/// A table has one ordered list only: two ordered lists that stand for the
/// same table hold the same identifiers with the same balances at the same
/// places.
pub proof fn lemma_ordered_lists_agree(a: Seq<(String, u32)>, b: Seq<(String, u32)>)
    requires
        strictly_ordered(a),
        strictly_ordered(b),
        balances_of(a) == balances_of(b),
    ensures
        a.len() == b.len(),
        forall|i: int| 0 <= i < a.len() ==> (#[trigger] a[i]).0@ == b[i].0@ && a[i].1 == b[i].1,
    decreases a.len(),
{
    lemma_count(a);
    lemma_count(b);
    if a.len() > 0 {
        let ka = a.last().0@;
        let kb = b.last().0@;
        lemma_lookup(a, a.len() - 1);
        lemma_lookup(b, b.len() - 1);
        if ka != kb {
            assert(has_key(b, ka));
            assert(has_key(a, kb));
            let j = index_of(b, ka);
            let i = index_of(a, kb);
            assert(key_lt(b[j].0@, b[b.len() - 1].0@));
            assert(key_lt(a[i].0@, a[a.len() - 1].0@));
            lemma_key_lt_transitive(ka, kb, ka);
            lemma_key_lt_irreflexive(ka);
        }
        lemma_front(a);
        lemma_front(b);
        let fa = a.drop_last();
        let fb = b.drop_last();
        assert(balances_of(fa) =~= balances_of(a).remove(ka));
        assert(balances_of(fb) =~= balances_of(b).remove(kb));
        lemma_ordered_lists_agree(fa, fb);
        assert forall|i: int| 0 <= i < a.len() implies (#[trigger] a[i]).0@ == b[i].0@ && a[i].1
            == b[i].1 by {
            if i < a.len() - 1 {
                assert(fa[i] == a[i]);
                assert(fb[i] == b[i]);
            }
        }
    }
}

/// The table that results from inserting the entries of a list one after
/// another: of two entries with one identifier the later one stays.
pub open spec fn table_of(e: Seq<(String, u32)>) -> Map<Seq<char>, u32>
    decreases e.len(),
{
    if e.len() == 0 {
        Map::empty()
    } else {
        table_of(e.drop_last()).insert(e.last().0@, e.last().1)
    }
}

/// A transfer moves tokens exactly when the sender has an entry that holds at
/// least the amount.
pub open spec fn transfer_allowed(m: LedgerModel, sender: Seq<char>, tokens: u32) -> bool {
    m.balances.contains_key(sender) && m.balances[sender] >= tokens
}

/// The balance that an account holds, zero where it has no entry.
pub open spec fn balance_of(m: LedgerModel, account: Seq<char>) -> int {
    if m.balances.contains_key(account) {
        m.balances[account] as int
    } else {
        0
    }
}

/// The transfer stays within the range of the balances and of the counter:
/// where it moves tokens, the receiver's new balance and the new count are at
/// most `u32::MAX`.
pub open spec fn transfer_fits(
    m: LedgerModel,
    receiver: Seq<char>,
    sender: Seq<char>,
    tokens: u32,
) -> bool {
    transfer_allowed(m, sender, tokens) ==> {
        &&& m.transfer_count < u32::MAX
        &&& receiver != sender ==> balance_of(m, receiver) + tokens <= u32::MAX
    }
}

/// The state after a transfer: unchanged where the transfer is not allowed;
/// else the sender debited, then the receiver credited (with a new entry where
/// it had none), and the counter one higher.
pub open spec fn after_transfer(
    m: LedgerModel,
    receiver: Seq<char>,
    sender: Seq<char>,
    tokens: u32,
) -> LedgerModel {
    if transfer_allowed(m, sender, tokens) {
        let debited = m.balances.insert(sender, (m.balances[sender] - tokens) as u32);
        let credit = if debited.contains_key(receiver) {
            debited[receiver] + tokens
        } else {
            tokens as int
        };
        LedgerModel {
            balances: debited.insert(receiver, credit as u32),
            transfer_count: (m.transfer_count + 1) as u32,
        }
    } else {
        m
    }
}

/// The balance table and the transfer counter. The table is kept as a list of
/// entries in strictly increasing order of account identifier.
#[derive(Debug, PartialEq, Eq)]
pub struct LedgerState {
    addresses: Vec<(String, u32)>,
    transfer_count: u32,
}

impl View for LedgerState {
    type V = LedgerModel;

    closed spec fn view(&self) -> LedgerModel {
        LedgerModel {
            balances: balances_of(self.addresses@),
            transfer_count: self.transfer_count,
        }
    }
}

impl Clone for LedgerState {
    fn clone(&self) -> (copy: Self)
        ensures
            copy@ == self@,
    {
        proof {
            use_type_invariant(self);
        }
        let mut addresses: Vec<(String, u32)> = Vec::new();
        let mut i: usize = 0;
        while i < self.addresses.len()
            invariant
                i <= self.addresses.len(),
                addresses@ == self.addresses@.take(i as int),
            decreases self.addresses.len() - i,
        {
            let name = self.addresses[i].0.clone();
            addresses.push((name, self.addresses[i].1));
            assert(addresses@ =~= self.addresses@.take(i as int + 1));
            i += 1;
        }
        assert(addresses@ =~= self.addresses@);
        LedgerState { addresses, transfer_count: self.transfer_count }
    }
}

impl LedgerState {
    #[verifier::type_invariant]
    spec fn ordered(self) -> bool {
        strictly_ordered(self.addresses@)
    }

    /// The state with no account and no transfer.
    pub fn new() -> (state: Self)
        ensures
            state@.balances == Map::<Seq<char>, u32>::empty(),
            state@.transfer_count == 0,
    {
        let state = LedgerState { addresses: Vec::new(), transfer_count: 0 };
        assert(state@.balances =~= Map::<Seq<char>, u32>::empty());
        state
    }

    /// The place of `account` in the list, and whether it has an entry there.
    fn locate(&self, account: &String) -> (place: (usize, bool))
        ensures
            place.0 <= self.addresses@.len(),
            forall|j: int|
                0 <= j < place.0 ==> key_lt((#[trigger] self.addresses@[j]).0@, account@),
            place.1 ==> place.0 < self.addresses@.len() && self.addresses@[place.0 as int].0@
                == account@,
            !place.1 ==> forall|j: int|
                place.0 <= j < self.addresses@.len() ==> key_lt(
                    account@,
                    (#[trigger] self.addresses@[j]).0@,
                ),
            place.1 == self@.balances.contains_key(account@),
            place.1 ==> self@.balances[account@] == self.addresses@[place.0 as int].1,
    {
        proof {
            use_type_invariant(self);
        }
        let mut i: usize = 0;
        while i < self.addresses.len()
            invariant
                i <= self.addresses@.len(),
                strictly_ordered(self.addresses@),
                forall|j: int| 0 <= j < i ==> key_lt((#[trigger] self.addresses@[j]).0@, account@),
            decreases self.addresses@.len() - i,
        {
            if !name_lt(&self.addresses[i].0, account) {
                let found = self.addresses[i].0 == *account;
                proof {
                    let e = self.addresses@;
                    if found {
                        lemma_lookup(e, i as int);
                    } else {
                        if !key_lt(account@, e[i as int].0@) {
                            lemma_key_lt_connected(e[i as int].0@, account@);
                        }
                        assert forall|j: int| i <= j < e.len() implies key_lt(
                            account@,
                            (#[trigger] e[j]).0@,
                        ) by {
                            if i < j {
                                assert(key_lt(e[i as int].0@, e[j].0@));
                                lemma_key_lt_transitive(account@, e[i as int].0@, e[j].0@);
                            }
                        }
                        lemma_absent(e, i as int, account@);
                    }
                }
                return (i, found);
            }
            i += 1;
        }
        proof {
            lemma_absent(self.addresses@, i as int, account@);
        }
        (i, false)
    }

    /// The balance of `account`, where it has an entry.
    pub fn balance(&self, account: &String) -> (balance: Option<u32>)
        ensures
            balance == if self@.balances.contains_key(account@) {
                Some(self@.balances[account@])
            } else {
                None
            },
    {
        let (i, found) = self.locate(account);
        if found {
            Some(self.addresses[i].1)
        } else {
            None
        }
    }

    /// The number of accounts that have an entry.
    pub fn len(&self) -> (count: usize)
        ensures
            count == self@.balances.dom().len(),
    {
        proof {
            use_type_invariant(self);
            lemma_count(self.addresses@);
        }
        self.addresses.len()
    }

    /// The number of transfers that have moved tokens.
    pub fn transfer_count(&self) -> (count: u32)
        ensures
            count == self@.transfer_count,
    {
        self.transfer_count
    }

    /// The entries of the table, in increasing order of account identifier.
    pub fn accounts(&self) -> (entries: Vec<(String, u32)>)
        ensures
            strictly_ordered(entries@),
            balances_of(entries@) == self@.balances,
    {
        proof {
            use_type_invariant(self);
        }
        let copy = self.clone();
        proof {
            use_type_invariant(&copy);
        }
        copy.addresses
    }

    /// Puts the entry at `place`, in the place of the one that is there where
    /// `present`, else as a new entry before it.
    fn store(&mut self, place: usize, present: bool, account: &String, balance: u32)
        requires
            place <= old(self).addresses@.len(),
            forall|j: int|
                0 <= j < place ==> key_lt((#[trigger] old(self).addresses@[j]).0@, account@),
            present ==> place < old(self).addresses@.len() && old(self).addresses@[place as int].0@
                == account@,
            !present ==> forall|j: int|
                place <= j < old(self).addresses@.len() ==> key_lt(
                    account@,
                    (#[trigger] old(self).addresses@[j]).0@,
                ),
        ensures
            final(self)@.balances == old(self)@.balances.insert(account@, balance),
            final(self)@.transfer_count == old(self)@.transfer_count,
    {
        proof {
            use_type_invariant(&*self);
        }
        let entry = (account.clone(), balance);
        let mut entries: Vec<(String, u32)> = Vec::new();
        std::mem::swap(&mut self.addresses, &mut entries);
        if present {
            proof {
                lemma_update(entries@, place as int, entry);
            }
            entries.set(place, entry);
        } else {
            proof {
                lemma_insert(entries@, place as int, entry);
            }
            entries.insert(place, entry);
        }
        self.addresses = entries;
    }

    /// Gives `account` the balance `balance`, with a new entry where it had
    /// none, and returns the balance that it had.
    pub fn insert(&mut self, account: String, balance: u32) -> (previous: Option<u32>)
        ensures
            final(self)@.balances == old(self)@.balances.insert(account@, balance),
            final(self)@.transfer_count == old(self)@.transfer_count,
            previous == if old(self)@.balances.contains_key(account@) {
                Some(old(self)@.balances[account@])
            } else {
                None
            },
    {
        let (place, present) = self.locate(&account);
        let previous = if present {
            Some(self.addresses[place].1)
        } else {
            None
        };
        self.store(place, present, &account, balance);
        previous
    }

    /// The state whose table results from inserting `entries` one after
    /// another, with the counter at `transfer_count`.
    pub fn from_entries(entries: Vec<(String, u32)>, transfer_count: u32) -> (state: Self)
        ensures
            state@.balances == table_of(entries@),
            state@.transfer_count == transfer_count,
    {
        let mut state = LedgerState { addresses: Vec::new(), transfer_count };
        assert(state@.balances =~= Map::<Seq<char>, u32>::empty());
        let mut i: usize = 0;
        while i < entries.len()
            invariant
                i <= entries@.len(),
                state@.balances == table_of(entries@.take(i as int)),
                state@.transfer_count == transfer_count,
            decreases entries@.len() - i,
        {
            let name = entries[i].0.clone();
            state.insert(name, entries[i].1);
            proof {
                let next = entries@.take(i as int + 1);
                assert(next.drop_last() =~= entries@.take(i as int));
                assert(next.last() == entries@[i as int]);
            }
            i += 1;
        }
        assert(entries@.take(i as int) =~= entries@);
        state
    }

    /// Whether a transfer of `tokens` from `sender` to `receiver` stays within
    /// the range of the balances and of the counter.
    pub fn fits(&self, receiver: &String, sender: &String, tokens: u32) -> (fits: bool)
        ensures
            fits == transfer_fits(self@, receiver@, sender@, tokens),
    {
        let held = match self.balance(sender) {
            Some(held) => held,
            None => {
                return true;
            },
        };
        if held < tokens {
            return true;
        }
        if self.transfer_count == u32::MAX {
            return false;
        }
        if *receiver == *sender {
            return true;
        }
        match self.balance(receiver) {
            Some(credited) => credited <= u32::MAX - tokens,
            None => true,
        }
    }

    /// Moves `tokens` from `sender` to `receiver`. Where `sender` has no entry
    /// or holds less than `tokens`, nothing changes and the result is `false`.
    /// Else the sender is debited, the receiver credited, with a new entry
    /// where it had none, the counter goes up by one, and the result is `true`.
    pub fn transfer(&mut self, receiver: &String, sender: &String, tokens: u32) -> (counted: bool)
        requires
            transfer_fits(old(self)@, receiver@, sender@, tokens),
        ensures
            counted == transfer_allowed(old(self)@, sender@, tokens),
            final(self)@ == after_transfer(old(self)@, receiver@, sender@, tokens),
    {
        let (from, has_sender) = self.locate(sender);
        if !has_sender {
            return false;
        }
        let held = self.addresses[from].1;
        if held < tokens {
            return false;
        }
        self.store(from, true, sender, held - tokens);
        let (to, has_receiver) = self.locate(receiver);
        let credited = if has_receiver {
            self.addresses[to].1 + tokens
        } else {
            tokens
        };
        self.store(to, has_receiver, receiver, credited);
        proof {
            use_type_invariant(&*self);
        }
        self.transfer_count = self.transfer_count + 1;
        true
    }
}

/// A request to move `tokens` from `sender` to `receiver`.
#[derive(Debug, PartialEq, Eq)]
pub struct Transaction {
    pub receiver: String,
    pub sender: String,
    pub tokens: u32,
}

impl Clone for Transaction {
    fn clone(&self) -> (copy: Self)
        ensures
            copy == *self,
    {
        Transaction {
            receiver: self.receiver.clone(),
            sender: self.sender.clone(),
            tokens: self.tokens,
        }
    }
}

/// What the program that issues a transaction is given: a state and the
/// transaction to apply to it.
#[derive(Debug, PartialEq, Eq)]
pub struct IssueTransactionParams {
    pub state: LedgerState,
    pub transaction: Transaction,
}

/// What the program that issues a transaction hands back: the state after the
/// transfer, whether tokens moved, and the amount asked for.
#[derive(Debug, PartialEq, Eq)]
pub struct IssueTransactionResult {
    pub state: LedgerState,
    pub transfer_counted: bool,
    pub tokens: u32,
}

impl Clone for IssueTransactionParams {
    fn clone(&self) -> (copy: Self)
        ensures
            copy.state@ == self.state@,
            copy.transaction == self.transaction,
    {
        IssueTransactionParams { state: self.state.clone(), transaction: self.transaction.clone() }
    }
}

impl Clone for IssueTransactionResult {
    fn clone(&self) -> (copy: Self)
        ensures
            copy.state@ == self.state@,
            copy.transfer_counted == self.transfer_counted,
            copy.tokens == self.tokens,
    {
        IssueTransactionResult {
            state: self.state.clone(),
            transfer_counted: self.transfer_counted,
            tokens: self.tokens,
        }
    }
}

impl IssueTransactionParams {
    pub fn new(state: LedgerState, transaction: Transaction) -> (params: Self)
        ensures
            params.state == state,
            params.transaction == transaction,
    {
        IssueTransactionParams { state: state, transaction: transaction }
    }

    /// Applies the transaction to a copy of the state.
    pub fn process(&self) -> (result: IssueTransactionResult)
        requires
            transfer_fits(
                self.state@,
                self.transaction.receiver@,
                self.transaction.sender@,
                self.transaction.tokens,
            ),
        ensures
            result.state@ == after_transfer(
                self.state@,
                self.transaction.receiver@,
                self.transaction.sender@,
                self.transaction.tokens,
            ),
            result.transfer_counted == transfer_allowed(
                self.state@,
                self.transaction.sender@,
                self.transaction.tokens,
            ),
            result.tokens == self.transaction.tokens,
    {
        let mut state = self.state.clone();
        let transfer_counted = state.transfer(
            &self.transaction.receiver,
            &self.transaction.sender,
            self.transaction.tokens,
        );
        IssueTransactionResult {
            state: state,
            transfer_counted: transfer_counted,
            tokens: self.transaction.tokens,
        }
    }
}

/// What a transfer does to the balances and to the counter. Where it is not
/// allowed the state stays as it was. Where it is allowed the counter goes up
/// by exactly one, every account other than the two named keeps what it had,
/// and between two different accounts the sender's balance goes down by the
/// amount and the receiver's, taken as zero where it had no entry, goes up by
/// it; a transfer from an account to itself leaves its balance as it was.
pub proof fn lemma_transfer_moves_tokens(
    m: LedgerModel,
    receiver: Seq<char>,
    sender: Seq<char>,
    tokens: u32,
)
    requires
        transfer_fits(m, receiver, sender, tokens),
    ensures
        !transfer_allowed(m, sender, tokens) ==> after_transfer(m, receiver, sender, tokens) == m,
        transfer_allowed(m, sender, tokens) ==> {
            let after = after_transfer(m, receiver, sender, tokens);
            &&& after.transfer_count == m.transfer_count + 1
            &&& after.balances.dom() == m.balances.dom().insert(receiver)
            &&& receiver != sender ==> balance_of(after, sender) == balance_of(m, sender) - tokens
            &&& receiver != sender ==> balance_of(after, receiver) == balance_of(m, receiver)
                + tokens
            &&& receiver == sender ==> balance_of(after, sender) == balance_of(m, sender)
            &&& forall|other: Seq<char>|
                other != sender && other != receiver ==> after.balances.contains_key(other)
                    == m.balances.contains_key(other) && #[trigger] balance_of(after, other)
                    == balance_of(m, other)
        },
{
    if transfer_allowed(m, sender, tokens) {
        let after = after_transfer(m, receiver, sender, tokens);
        assert(after.balances.dom() =~= m.balances.dom().insert(receiver));
    }
}

} // verus!
