//! What holds of the transaction ledger over whole sequences of calls.

use crate::transactions::{LedgerView, TransactionDetail};
use vstd::prelude::*;

verus! {

/// One call that changes the ledger.
pub enum LedgerCall {
    Initialize { admin: Seq<char> },
    Record { from: Seq<char>, to: Seq<char>, amount: i128, id: i128 },
    RecordIncoming { from: Seq<char>, amount: i128, id: i128 },
    RecordOutgoing { to: Seq<char>, amount: i128, id: i128 },
}

/// The ledger after one call.
pub open spec fn apply(ledger: LedgerView, call: LedgerCall) -> LedgerView {
    match call {
        LedgerCall::Initialize { admin } => ledger.initialize(admin),
        LedgerCall::Record { from, to, amount, id } => ledger.record_transaction(
            from,
            to,
            amount,
            id,
        ),
        LedgerCall::RecordIncoming { from, amount, id } => ledger.record_incoming_transaction(
            from,
            amount,
            id,
        ),
        LedgerCall::RecordOutgoing { to, amount, id } => ledger.record_outgoing_transaction(
            to,
            amount,
            id,
        ),
    }
}

/// The ledger after a sequence of calls, made in order.
pub open spec fn replay(ledger: LedgerView, calls: Seq<LedgerCall>) -> LedgerView
    decreases calls.len(),
{
    if calls.len() == 0 {
        ledger
    } else {
        apply(replay(ledger, calls.drop_last()), calls.last())
    }
}

/// The amount that one call adds to the inflows.
pub open spec fn inflow_of(call: LedgerCall) -> int {
    match call {
        LedgerCall::RecordIncoming { amount, .. } => amount as int,
        _ => 0,
    }
}

/// The amount that one call adds to the outflows.
pub open spec fn outflow_of(call: LedgerCall) -> int {
    match call {
        LedgerCall::RecordOutgoing { amount, .. } => amount as int,
        _ => 0,
    }
}

/// Whether the call records a transfer with a direction.
pub open spec fn is_directed(call: LedgerCall) -> bool {
    call is RecordIncoming || call is RecordOutgoing
}

/// Whether the call records a transfer with a direction and names `address`
/// as its party.
pub open spec fn names(call: LedgerCall, address: Seq<char>) -> bool {
    match call {
        LedgerCall::RecordIncoming { from, .. } => from == address,
        LedgerCall::RecordOutgoing { to, .. } => to == address,
        _ => false,
    }
}

/// The sum of the amounts of the incoming recordings among the calls.
pub open spec fn inflow_sum(calls: Seq<LedgerCall>) -> int
    decreases calls.len(),
{
    if calls.len() == 0 {
        0
    } else {
        inflow_sum(calls.drop_last()) + inflow_of(calls.last())
    }
}

/// The sum of the amounts of the outgoing recordings among the calls.
pub open spec fn outflow_sum(calls: Seq<LedgerCall>) -> int
    decreases calls.len(),
{
    if calls.len() == 0 {
        0
    } else {
        outflow_sum(calls.drop_last()) + outflow_of(calls.last())
    }
}

/// How many of the calls record a transfer with a direction.
pub open spec fn directed_count(calls: Seq<LedgerCall>) -> nat
    decreases calls.len(),
{
    if calls.len() == 0 {
        0
    } else if is_directed(calls.last()) {
        directed_count(calls.drop_last()) + 1
    } else {
        directed_count(calls.drop_last())
    }
}

/// How many of the calls record a transfer with a direction that names
/// `address`.
pub open spec fn naming_count(calls: Seq<LedgerCall>, address: Seq<char>) -> nat
    decreases calls.len(),
{
    if calls.len() == 0 {
        0
    } else if names(calls.last(), address) {
        naming_count(calls.drop_last(), address) + 1
    } else {
        naming_count(calls.drop_last(), address)
    }
}

/// What a sequence of calls did last to the entry of one address in a map of
/// latest transfers.
pub enum Latest {
    /// No call touched the entry.
    Untouched,
    /// The map was emptied and the entry not written since.
    Cleared,
    /// The entry was written last with this transfer.
    Written(TransactionDetail),
}

/// What the calls did last to the received transfer of `address`.
pub open spec fn latest_received(calls: Seq<LedgerCall>, address: Seq<char>) -> Latest
    decreases calls.len(),
{
    if calls.len() == 0 {
        Latest::Untouched
    } else {
        let earlier = latest_received(calls.drop_last(), address);
        match calls.last() {
            LedgerCall::Initialize { .. } => Latest::Cleared,
            LedgerCall::Record { from, amount, id, .. } => if from == address {
                Latest::Written(TransactionDetail { amount, id })
            } else {
                earlier
            },
            LedgerCall::RecordIncoming { from, amount, id } => if from == address {
                Latest::Written(TransactionDetail { amount, id })
            } else {
                earlier
            },
            LedgerCall::RecordOutgoing { .. } => earlier,
        }
    }
}

/// What the calls did last to the outgoing transfer of `address`.
pub open spec fn latest_outgoing(calls: Seq<LedgerCall>, address: Seq<char>) -> Latest
    decreases calls.len(),
{
    if calls.len() == 0 {
        Latest::Untouched
    } else {
        let earlier = latest_outgoing(calls.drop_last(), address);
        match calls.last() {
            LedgerCall::Initialize { .. } => Latest::Cleared,
            LedgerCall::Record { to, amount, id, .. } => if to == address {
                Latest::Written(TransactionDetail { amount, id })
            } else {
                earlier
            },
            LedgerCall::RecordOutgoing { to, amount, id } => if to == address {
                Latest::Written(TransactionDetail { amount, id })
            } else {
                earlier
            },
            LedgerCall::RecordIncoming { .. } => earlier,
        }
    }
}

/// The entry that a map of latest transfers holds for an address after calls
/// that did `latest` to it.
pub open spec fn entry_after(
    before: Map<Seq<char>, TransactionDetail>,
    address: Seq<char>,
    latest: Latest,
) -> Option<TransactionDetail> {
    match latest {
        Latest::Untouched => before.get(address),
        Latest::Cleared => None,
        Latest::Written(detail) => Some(detail),
    }
}

/// Each map of latest transfers holds, for every address, the transfer of
/// the last call that named the address on that side, and no entry for an
/// address that no call named since the ledger was last initialized.
pub proof fn maps_hold_the_latest_transfers(
    ledger: LedgerView,
    calls: Seq<LedgerCall>,
    address: Seq<char>,
)
    ensures
        replay(ledger, calls).received.get(address) == entry_after(
            ledger.received,
            address,
            latest_received(calls, address),
        ),
        replay(ledger, calls).outgoing.get(address) == entry_after(
            ledger.outgoing,
            address,
            latest_outgoing(calls, address),
        ),
    decreases calls.len(),
{
    if calls.len() > 0 {
        maps_hold_the_latest_transfers(ledger, calls.drop_last(), address);
    }
}

/// The inflows grow by the sum of the amounts recorded as incoming, and the
/// outflows by the sum of those recorded as outgoing; no other call touches
/// them.
pub proof fn cash_flows_are_sums(ledger: LedgerView, calls: Seq<LedgerCall>)
    ensures
        replay(ledger, calls).total_cash_inflows == ledger.total_cash_inflows + inflow_sum(calls),
        replay(ledger, calls).total_cash_outflows == ledger.total_cash_outflows + outflow_sum(
            calls,
        ),
    decreases calls.len(),
{
    if calls.len() > 0 {
        cash_flows_are_sums(ledger, calls.drop_last());
    }
}

/// The number of transactions grows by the number of incoming and outgoing
/// recordings.
pub proof fn total_counts_directed_recordings(ledger: LedgerView, calls: Seq<LedgerCall>)
    ensures
        replay(ledger, calls).total_transactions == ledger.total_transactions + directed_count(
            calls,
        ),
    decreases calls.len(),
{
    if calls.len() > 0 {
        total_counts_directed_recordings(ledger, calls.drop_last());
    }
}

/// The count of an address grows by the number of incoming and outgoing
/// recordings that named it.
pub proof fn tx_count_counts_namings(
    ledger: LedgerView,
    calls: Seq<LedgerCall>,
    address: Seq<char>,
)
    ensures
        replay(ledger, calls).tx_count(address) == ledger.tx_count(address) + naming_count(
            calls,
            address,
        ),
    decreases calls.len(),
{
    if calls.len() > 0 {
        tx_count_counts_namings(ledger, calls.drop_last(), address);
    }
}

/// On a ledger that starts empty, the totals are the sums and counts over
/// all the calls made.
pub proof fn totals_of_a_fresh_ledger(calls: Seq<LedgerCall>, address: Seq<char>)
    ensures
        replay(LedgerView::empty(), calls).total_cash_inflows == inflow_sum(calls),
        replay(LedgerView::empty(), calls).total_cash_outflows == outflow_sum(calls),
        replay(LedgerView::empty(), calls).total_transactions == directed_count(calls),
        replay(LedgerView::empty(), calls).tx_count(address) == naming_count(calls, address),
{
    cash_flows_are_sums(LedgerView::empty(), calls);
    total_counts_directed_recordings(LedgerView::empty(), calls);
    tx_count_counts_namings(LedgerView::empty(), calls, address);
}

/// Initializing leaves exactly one admin, the one it was given, and no
/// recording changes the admin set.
pub proof fn admin_set_is_the_initializing_admin(
    ledger: LedgerView,
    admin: Seq<char>,
    address: Seq<char>,
    call: LedgerCall,
)
    ensures
        ledger.initialize(admin).is_admin(address) <==> address == admin,
        !(call is Initialize) ==> apply(ledger, call).admins == ledger.admins,
{
}

/// Recording without a direction is last-write-wins and counts nothing:
/// after two such recordings for the same sender and recipient only the
/// second detail is visible, the ledger is what the second recording alone
/// would have made it, and no total and no count has changed.
pub proof fn undirected_recording_overwrites(
    ledger: LedgerView,
    from: Seq<char>,
    to: Seq<char>,
    first: TransactionDetail,
    second: TransactionDetail,
)
    ensures
        ({
            let once = ledger.record_transaction(from, to, second.amount, second.id);
            let twice = ledger.record_transaction(
                from,
                to,
                first.amount,
                first.id,
            ).record_transaction(from, to, second.amount, second.id);
            &&& twice == once
            &&& twice.received[from] == second
            &&& twice.outgoing[to] == second
            &&& twice.total_transactions == ledger.total_transactions
            &&& twice.total_cash_inflows == ledger.total_cash_inflows
            &&& twice.total_cash_outflows == ledger.total_cash_outflows
            &&& twice.participant_count == ledger.participant_count
            &&& twice.users_points == ledger.users_points
            &&& twice.admins == ledger.admins
        }),
{
    let once = ledger.record_transaction(from, to, second.amount, second.id);
    let twice = ledger.record_transaction(from, to, first.amount, first.id).record_transaction(
        from,
        to,
        second.amount,
        second.id,
    );
    assert(twice.received =~= once.received);
    assert(twice.outgoing =~= once.outgoing);
}

} // verus!
