//! The transaction ledger: the latest transfer per address in each direction,
//! and running totals over the recorded transfers.

use crate::address::Address;
use crate::address_map::AddressMap;
use vstd::prelude::*;

verus! {

/// The most recent transfer recorded for an address in one direction.
#[derive(Clone, Copy, Debug, PartialEq, Eq, Structural)]
pub struct TransactionDetail {
    pub amount: i128,
    pub id: i128,
}

/// What the ledger holds, as mathematics: maps keyed by the text of an
/// address, and unbounded totals.
pub struct LedgerView {
    /// The admin set.
    pub admins: Map<Seq<char>, bool>,
    /// For each sender, its latest transfer.
    pub received: Map<Seq<char>, TransactionDetail>,
    /// For each recipient, its latest transfer.
    pub outgoing: Map<Seq<char>, TransactionDetail>,
    /// Point balances.
    pub users_points: Map<Seq<char>, int>,
    /// For each address, how many recordings named it.
    pub participant_count: Map<Seq<char>, int>,
    /// How many transfers were recorded with a direction.
    pub total_transactions: int,
    /// The sum of the amounts recorded as outgoing.
    pub total_cash_outflows: int,
    /// The sum of the amounts recorded as incoming.
    pub total_cash_inflows: int,
}

impl LedgerView {
    /// The ledger in which nothing was ever written.
    pub open spec fn empty() -> LedgerView {
        LedgerView {
            admins: Map::empty(),
            received: Map::empty(),
            outgoing: Map::empty(),
            users_points: Map::empty(),
            participant_count: Map::empty(),
            total_transactions: 0,
            total_cash_outflows: 0,
            total_cash_inflows: 0,
        }
    }

    /// Whether `address` is in the admin set and marked true there.
    pub open spec fn is_admin(self, address: Seq<char>) -> bool {
        self.admins.contains_key(address) && self.admins[address]
    }

    /// The number of recordings that named `address`; zero if none did.
    pub open spec fn tx_count(self, address: Seq<char>) -> int {
        if self.participant_count.contains_key(address) {
            self.participant_count[address]
        } else {
            0
        }
    }

    /// The points of `address`; zero if it has none.
    pub open spec fn user_points(self, address: Seq<char>) -> int {
        if self.users_points.contains_key(address) {
            self.users_points[address]
        } else {
            0
        }
    }

    /// Whether one more recording can be counted for `address` in an `i128`.
    pub open spec fn can_count(self, address: Seq<char>) -> bool {
        self.tx_count(address) < i128::MAX
    }

    /// Whether an incoming transfer of `amount` from `from` can be recorded
    /// with every total and count still in the range of an `i128`.
    pub open spec fn can_record_incoming(self, from: Seq<char>, amount: i128) -> bool {
        &&& i128::MIN <= self.total_cash_inflows + amount <= i128::MAX
        &&& self.can_count(from)
        &&& self.total_transactions < i128::MAX
    }

    /// Whether an outgoing transfer of `amount` to `to` can be recorded with
    /// every total and count still in the range of an `i128`.
    pub open spec fn can_record_outgoing(self, to: Seq<char>, amount: i128) -> bool {
        &&& i128::MIN <= self.total_cash_outflows + amount <= i128::MAX
        &&& self.can_count(to)
        &&& self.total_transactions < i128::MAX
    }

    /// The admin set becomes `admin` alone, and the two maps of latest
    /// transfers become empty. Totals, counts and points stay.
    pub open spec fn initialize(self, admin: Seq<char>) -> LedgerView {
        LedgerView {
            admins: Map::empty().insert(admin, true),
            received: Map::empty(),
            outgoing: Map::empty(),
            ..self
        }
    }

    /// The transfer becomes the latest one of `from` among the received and
    /// of `to` among the outgoing. Nothing else changes.
    pub open spec fn record_transaction(
        self,
        from: Seq<char>,
        to: Seq<char>,
        amount: i128,
        id: i128,
    ) -> LedgerView {
        LedgerView {
            received: self.received.insert(from, TransactionDetail { amount, id }),
            outgoing: self.outgoing.insert(to, TransactionDetail { amount, id }),
            ..self
        }
    }

    /// One more recording names `address`.
    pub open spec fn increment_participant_count(self, address: Seq<char>) -> LedgerView {
        LedgerView {
            participant_count: self.participant_count.insert(address, self.tx_count(address) + 1),
            ..self
        }
    }

    /// The transfer becomes the latest received one of `from`; the inflows
    /// grow by `amount`, the count of `from` and the number of transactions
    /// by one.
    pub open spec fn record_incoming_transaction(
        self,
        from: Seq<char>,
        amount: i128,
        id: i128,
    ) -> LedgerView {
        LedgerView {
            received: self.received.insert(from, TransactionDetail { amount, id }),
            total_cash_inflows: self.total_cash_inflows + amount,
            participant_count: self.participant_count.insert(from, self.tx_count(from) + 1),
            total_transactions: self.total_transactions + 1,
            ..self
        }
    }

    /// The transfer becomes the latest outgoing one of `to`; the outflows
    /// grow by `amount`, the count of `to` and the number of transactions by
    /// one.
    pub open spec fn record_outgoing_transaction(
        self,
        to: Seq<char>,
        amount: i128,
        id: i128,
    ) -> LedgerView {
        LedgerView {
            outgoing: self.outgoing.insert(to, TransactionDetail { amount, id }),
            total_cash_outflows: self.total_cash_outflows + amount,
            participant_count: self.participant_count.insert(to, self.tx_count(to) + 1),
            total_transactions: self.total_transactions + 1,
            ..self
        }
    }
}

/// The same map with each stored number read as a mathematical integer.
pub open spec fn widen(numbers: Map<Seq<char>, i128>) -> Map<Seq<char>, int> {
    numbers.map_values(|number: i128| number as int)
}

/// Widening commutes with storing a number.
proof fn lemma_widen_insert(numbers: Map<Seq<char>, i128>, address: Seq<char>, number: i128)
    ensures
        widen(numbers.insert(address, number)) == widen(numbers).insert(address, number as int),
{
    assert(widen(numbers.insert(address, number)) =~= widen(numbers).insert(
        address,
        number as int,
    ));
}

/// Widening the empty map gives the empty map.
proof fn lemma_widen_empty()
    ensures
        widen(Map::empty()) == Map::<Seq<char>, int>::empty(),
{
    assert(widen(Map::empty()) =~= Map::<Seq<char>, int>::empty());
}

/// What a slot for a map holds: the map, or no entry at all if the slot was
/// never written.
pub open spec fn map_or_empty<V>(slot: Option<AddressMap<V>>) -> Map<Seq<char>, V> {
    match slot {
        Some(map) => map@,
        None => Map::empty(),
    }
}

/// What a slot for a total holds: the total, or zero if the slot was never
/// written.
pub open spec fn total_or_zero(slot: Option<i128>) -> int {
    match slot {
        Some(total) => total as int,
        None => 0,
    }
}

/// The state of one transaction ledger.
///
/// Every operation reads the state it is given and writes the next one in
/// place; whoever owns the value decides when that state is committed.
#[derive(Debug)]
pub struct Transactions {
    /// The admin set.
    pub admins: AddressMap<bool>,
    /// For each sender, its latest transfer.
    pub received: AddressMap<TransactionDetail>,
    /// For each recipient, its latest transfer.
    pub outgoing: AddressMap<TransactionDetail>,
    /// Point balances.
    pub users_points: AddressMap<i128>,
    /// For each address, how many recordings named it.
    pub participant_count: AddressMap<i128>,
    /// How many transfers were recorded with a direction.
    pub total_transactions: i128,
    /// The sum of the amounts recorded as outgoing.
    pub total_cash_outflows: i128,
    /// The sum of the amounts recorded as incoming.
    pub total_cash_inflows: i128,
}

impl View for Transactions {
    type V = LedgerView;

    open spec fn view(&self) -> LedgerView {
        LedgerView {
            admins: self.admins@,
            received: self.received@,
            outgoing: self.outgoing@,
            users_points: widen(self.users_points@),
            participant_count: widen(self.participant_count@),
            total_transactions: self.total_transactions as int,
            total_cash_outflows: self.total_cash_outflows as int,
            total_cash_inflows: self.total_cash_inflows as int,
        }
    }
}

impl Transactions {
    /// A ledger in which nothing was ever written.
    pub fn new() -> (ledger: Transactions)
        ensures
            ledger@ == LedgerView::empty(),
    {
        proof {
            lemma_widen_empty();
        }
        Transactions {
            admins: AddressMap::new(),
            received: AddressMap::new(),
            outgoing: AddressMap::new(),
            users_points: AddressMap::new(),
            participant_count: AddressMap::new(),
            total_transactions: 0,
            total_cash_outflows: 0,
            total_cash_inflows: 0,
        }
    }

    /// The ledger that a store holds, slot by slot: a map that was never
    /// written is empty, and a total that was never written is zero.
    pub fn from_stored(
        admins: Option<AddressMap<bool>>,
        received: Option<AddressMap<TransactionDetail>>,
        outgoing: Option<AddressMap<TransactionDetail>>,
        users_points: Option<AddressMap<i128>>,
        participant_count: Option<AddressMap<i128>>,
        total_transactions: Option<i128>,
        total_cash_outflows: Option<i128>,
        total_cash_inflows: Option<i128>,
    ) -> (ledger: Transactions)
        ensures
            ledger@ == (LedgerView {
                admins: map_or_empty(admins),
                received: map_or_empty(received),
                outgoing: map_or_empty(outgoing),
                users_points: widen(map_or_empty(users_points)),
                participant_count: widen(map_or_empty(participant_count)),
                total_transactions: total_or_zero(total_transactions),
                total_cash_outflows: total_or_zero(total_cash_outflows),
                total_cash_inflows: total_or_zero(total_cash_inflows),
            }),
    {
        Transactions {
            admins: Self::stored_map(admins),
            received: Self::stored_map(received),
            outgoing: Self::stored_map(outgoing),
            users_points: Self::stored_map(users_points),
            participant_count: Self::stored_map(participant_count),
            total_transactions: Self::stored_total(total_transactions),
            total_cash_outflows: Self::stored_total(total_cash_outflows),
            total_cash_inflows: Self::stored_total(total_cash_inflows),
        }
    }

    /// The map in a slot, empty if the slot was never written.
    fn stored_map<V: Copy>(slot: Option<AddressMap<V>>) -> (map: AddressMap<V>)
        ensures
            map@ == map_or_empty(slot),
    {
        match slot {
            Some(map) => map,
            None => AddressMap::new(),
        }
    }

    /// The total in a slot, zero if the slot was never written.
    fn stored_total(slot: Option<i128>) -> (total: i128)
        ensures
            total == total_or_zero(slot),
    {
        match slot {
            Some(total) => total,
            None => 0,
        }
    }

    /// Makes `admin` the only admin and empties the two maps of latest
    /// transfers. Totals, counts and points are left as they are, also when
    /// the ledger was initialized before.
    pub fn initialize(&mut self, admin: Address)
        ensures
            final(self)@ == old(self)@.initialize(admin@),
    {
        let mut admins: AddressMap<bool> = AddressMap::new();
        admins.set(admin, true);
        self.admins = admins;
        self.received = AddressMap::new();
        self.outgoing = AddressMap::new();
    }

    /// Records a transfer without counting it: it becomes the latest
    /// received transfer of `from` and the latest outgoing one of `to`, and
    /// no total and no count changes.
    pub fn record_transaction(&mut self, from: Address, to: Address, amount: i128, id: i128)
        ensures
            final(self)@ == old(self)@.record_transaction(from@, to@, amount, id),
    {
        self.received.set(from, TransactionDetail { amount, id });
        self.outgoing.set(to, TransactionDetail { amount, id });
    }

    /// The whole map of latest received transfers, whatever `_address` is.
    pub fn read_received_transactions(&self, _address: Address) -> (received: AddressMap<
        TransactionDetail,
    >)
        ensures
            received@ == self@.received,
    {
        self.received.clone()
    }

    /// The whole map of latest outgoing transfers, whatever `_address` is.
    pub fn read_outgoing_transactions(&self, _address: Address) -> (outgoing: AddressMap<
        TransactionDetail,
    >)
        ensures
            outgoing@ == self@.outgoing,
    {
        self.outgoing.clone()
    }

    /// How many transfers were recorded with a direction.
    pub fn read_total_transaction(&self) -> (total: i128)
        ensures
            total == self@.total_transactions,
    {
        self.total_transactions
    }

    /// The sum of the amounts recorded as outgoing.
    pub fn read_cash_outflows(&self) -> (total: i128)
        ensures
            total == self@.total_cash_outflows,
    {
        self.total_cash_outflows
    }

    /// The sum of the amounts recorded as incoming.
    pub fn read_cash_inflows(&self) -> (total: i128)
        ensures
            total == self@.total_cash_inflows,
    {
        self.total_cash_inflows
    }

    /// The points of `address`, zero if it has none.
    pub fn read_user_points(&self, address: Address) -> (points: i128)
        ensures
            points == self@.user_points(address@),
    {
        match self.users_points.get(address) {
            Some(points) => points,
            None => 0,
        }
    }

    /// How many recordings named `address`, zero if none did.
    pub fn read_tx_count(&self, address: Address) -> (count: i128)
        ensures
            count == self@.tx_count(address@),
    {
        match self.participant_count.get(address) {
            Some(count) => count,
            None => 0,
        }
    }

    /// Whether one more recording can be counted for `address`.
    pub fn can_count(&self, address: &Address) -> (fits: bool)
        ensures
            fits == self@.can_count(address@),
    {
        self.read_tx_count(address.clone()) < i128::MAX
    }

    /// Whether `record_incoming_transaction` can take this transfer: whether
    /// the inflows, the count of `from` and the number of transactions all
    /// stay in the range of an `i128`.
    pub fn can_record_incoming(&self, from: &Address, amount: i128) -> (fits: bool)
        ensures
            fits == self@.can_record_incoming(from@, amount),
    {
        self.total_cash_inflows.checked_add(amount).is_some() && self.can_count(from)
            && self.total_transactions < i128::MAX
    }

    /// Whether `record_outgoing_transaction` can take this transfer: whether
    /// the outflows, the count of `to` and the number of transactions all
    /// stay in the range of an `i128`.
    pub fn can_record_outgoing(&self, to: &Address, amount: i128) -> (fits: bool)
        ensures
            fits == self@.can_record_outgoing(to@, amount),
    {
        self.total_cash_outflows.checked_add(amount).is_some() && self.can_count(to)
            && self.total_transactions < i128::MAX
    }

    /// Records a transfer received from `from`: it becomes the latest
    /// received transfer of `from`, the inflows grow by `amount`, and the
    /// count of `from` and the number of transactions grow by one.
    pub fn record_incoming_transaction(&mut self, from: Address, amount: i128, id: i128)
        requires
            old(self)@.can_record_incoming(from@, amount),
        ensures
            final(self)@ == old(self)@.record_incoming_transaction(from@, amount, id),
    {
        self.total_cash_inflows = self.total_cash_inflows + amount;
        self.increment_participant_count(&from);
        self.total_transactions = self.total_transactions + 1;
        self.received.set(from, TransactionDetail { amount, id });
    }

    /// Records a transfer sent to `to`: it becomes the latest outgoing
    /// transfer of `to`, the outflows grow by `amount`, and the count of `to`
    /// and the number of transactions grow by one.
    pub fn record_outgoing_transaction(&mut self, to: Address, amount: i128, id: i128)
        requires
            old(self)@.can_record_outgoing(to@, amount),
        ensures
            final(self)@ == old(self)@.record_outgoing_transaction(to@, amount, id),
    {
        self.total_cash_outflows = self.total_cash_outflows + amount;
        self.increment_participant_count(&to);
        self.total_transactions = self.total_transactions + 1;
        self.outgoing.set(to, TransactionDetail { amount, id });
    }

    /// Counts one more recording for `address`.
    pub fn increment_participant_count(&mut self, address: &Address)
        requires
            old(self)@.can_count(address@),
        ensures
            final(self)@ == old(self)@.increment_participant_count(address@),
    {
        let current_count = self.read_tx_count(address.clone());
        proof {
            lemma_widen_insert(self.participant_count@, address@, (current_count + 1) as i128);
        }
        self.participant_count.set(address.clone(), current_count + 1);
    }

    /// Whether `address` is in the admin set and marked true there.
    pub fn is_admin(&self, address: &Address) -> (admin: bool)
        ensures
            admin == self@.is_admin(address@),
    {
        match self.admins.get(address.clone()) {
            Some(flag) => flag,
            None => false,
        }
    }
}

} // verus!
