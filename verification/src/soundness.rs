//! The bookkeeping that a ledger built by requests alone never loses: what
//! an account holds is what its open disputes hold.

use crate::amount::in_range;
use crate::common_types::{CustomerId, TransactionId};
use crate::ledger::{
    decide, lemma_first_writes, lemma_new_customer_comes_last, step, structurally_valid, Ledger,
    LedgerError,
};
use crate::theorems::{balances_are_regular, makes_a_transaction};
use crate::transaction_request::{RequestView, TransactionState};
use vstd::prelude::*;

verus! {

/// What the open dispute of transaction `id`, if there is one, holds of
/// the funds of `client`.
pub open spec fn held_by(ledger: Ledger, client: CustomerId, id: TransactionId) -> int {
    if ledger.disputed(id) && ledger.records.contains_key(id) && ledger.records[id].client_id
        == client && ledger.records[id].amount is Some {
        ledger.records[id].amount.unwrap()
    } else {
        0
    }
}

/// What the open disputes of the transactions with an id below `bound` hold
/// of the funds of `client`.
pub open spec fn held_below(ledger: Ledger, client: CustomerId, bound: nat) -> int
    decreases bound,
{
    if bound == 0 {
        0
    } else {
        held_below(ledger, client, (bound - 1) as nat) + held_by(
            ledger,
            client,
            (bound - 1) as TransactionId,
        )
    }
}

/// The number of transaction ids.
pub open spec fn id_count() -> nat {
    0x1_0000_0000
}

/// What all open disputes hold of the funds of `client`.
pub open spec fn held_in_disputes(ledger: Ledger, client: CustomerId) -> int {
    held_below(ledger, client, id_count())
}

/// Every balance is within the range of an amount.
pub open spec fn balances_in_range(ledger: Ledger) -> bool {
    forall|client: CustomerId| #[trigger]
        ledger.accounts.contains_key(client) ==> in_range(ledger.accounts[client].available)
            && in_range(ledger.accounts[client].held)
}

/// Every customer with an account stands once in the order of the
/// accounts, and nobody else.
pub open spec fn accounts_are_in_order(ledger: Ledger) -> bool {
    &&& ledger.order.no_duplicates()
    &&& forall|client: CustomerId|
        ledger.accounts.contains_key(client) <==> ledger.order.contains(client)
}

/// Every record stands under its own id, is a deposit or withdrawal of a
/// positive amount, and belongs to a client with an account.
pub open spec fn records_are_transactions(ledger: Ledger) -> bool {
    forall|id: TransactionId| #[trigger]
        ledger.records.contains_key(id) ==> {
            &&& ledger.records[id].transaction_id == id
            &&& makes_a_transaction(ledger.records[id])
            &&& structurally_valid(ledger.records[id])
            &&& ledger.accounts.contains_key(ledger.records[id].client_id)
        }
}

/// Every dispute state is that of a recorded transaction, and none is both
/// held and charged back.
pub open spec fn states_are_of_records(ledger: Ledger) -> bool {
    forall|id: TransactionId| #[trigger]
        ledger.states.contains_key(id) ==> ledger.records.contains_key(id) && !(
        ledger.states[id].held && ledger.states[id].charged_back)
}

/// The held funds of every client are what the open disputes of that
/// client's transactions hold.
pub open spec fn held_funds_are_disputed(ledger: Ledger) -> bool {
    forall|client: CustomerId| #[trigger]
        ledger.held(client) == held_in_disputes(ledger, client)
}

/// The bookkeeping is in order.
pub open spec fn sound(ledger: Ledger) -> bool {
    &&& accounts_are_in_order(ledger)
    &&& balances_in_range(ledger)
    &&& records_are_transactions(ledger)
    &&& states_are_of_records(ledger)
    &&& held_funds_are_disputed(ledger)
}

/// Where two ledgers differ in what one transaction's dispute holds, and in
/// no other's, their sums differ by as much.
proof fn lemma_held_below_differs_at(
    before: Ledger,
    after: Ledger,
    client: CustomerId,
    id: TransactionId,
    bound: nat,
)
    requires
        bound <= id_count(),
        forall|other: TransactionId|
            other != id ==> held_by(after, client, other) == held_by(before, client, other),
    ensures
        held_below(after, client, bound) == held_below(before, client, bound) + if id < bound {
            held_by(after, client, id) - held_by(before, client, id)
        } else {
            0
        },
    decreases bound,
{
    if bound > 0 {
        lemma_held_below_differs_at(before, after, client, id, (bound - 1) as nat);
    }
}

/// Where no dispute holds a negative amount, the sum is at least what any
/// one dispute holds, and not negative.
proof fn lemma_held_below_covers(ledger: Ledger, client: CustomerId, id: TransactionId, bound: nat)
    requires
        bound <= id_count(),
        forall|other: TransactionId| held_by(ledger, client, other) >= 0,
    ensures
        held_below(ledger, client, bound) >= 0,
        id < bound ==> held_below(ledger, client, bound) >= held_by(ledger, client, id),
    decreases bound,
{
    if bound > 0 {
        lemma_held_below_covers(ledger, client, id, (bound - 1) as nat);
    }
}

/// In a sound ledger no dispute holds a negative amount.
proof fn lemma_sound_disputes_hold_nothing_negative(ledger: Ledger, client: CustomerId)
    requires
        records_are_transactions(ledger),
    ensures
        forall|id: TransactionId| held_by(ledger, client, id) >= 0,
{
}

/// The ledger that holds nothing is sound.
pub proof fn empty_ledger_is_sound()
    ensures
        sound(Ledger::empty()),
{
    let ledger = Ledger::empty();
    assert forall|client: CustomerId| #[trigger]
        ledger.held(client) == held_in_disputes(ledger, client) by {
        lemma_nothing_disputed_nothing_held(ledger, client, id_count());
    }
}

/// Without dispute states the disputes hold nothing.
proof fn lemma_nothing_disputed_nothing_held(ledger: Ledger, client: CustomerId, bound: nat)
    requires
        ledger.states == Map::<TransactionId, TransactionState>::empty(),
    ensures
        held_below(ledger, client, bound) == 0,
    decreases bound,
{
    if bound > 0 {
        lemma_nothing_disputed_nothing_held(ledger, client, (bound - 1) as nat);
    }
}

/// In a sound ledger no client's held funds are negative, and they cover
/// what each open dispute of the client's transactions holds.
pub proof fn sound_ledger_holds_what_is_disputed(
    ledger: Ledger,
    client: CustomerId,
    id: TransactionId,
)
    requires
        sound(ledger),
    ensures
        ledger.held(client) >= 0,
        ledger.held(client) >= held_by(ledger, client, id),
{
    lemma_sound_disputes_hold_nothing_negative(ledger, client);
    lemma_held_below_covers(ledger, client, id, id_count());
    assert(ledger.held(client) == held_in_disputes(ledger, client));
}

/// In a sound ledger the balances of every client are in range, and the
/// held funds are not negative.
pub proof fn sound_ledger_has_regular_balances(ledger: Ledger, client: CustomerId)
    requires
        sound(ledger),
    ensures
        balances_are_regular(ledger, client),
{
    sound_ledger_holds_what_is_disputed(ledger, client, 0);
    if ledger.accounts.contains_key(client) {
        assert(in_range(ledger.accounts[client].available));
    }
}

/// A sound ledger is never found corrupt: no request is refused because a
/// record has no amount, or because held funds are missing.
pub proof fn sound_ledger_is_never_corrupt(ledger: Ledger, request: RequestView)
    requires
        sound(ledger),
    ensures
        decide(ledger, request).result != Err::<bool, LedgerError>(
            LedgerError::RecordWithoutAmount,
        ),
        decide(ledger, request).result != Err::<bool, LedgerError>(LedgerError::HeldFundsMissing),
{
    sound_ledger_holds_what_is_disputed(ledger, request.client_id, request.transaction_id);
}

/// Whatever the request, a sound ledger is sound after it.
pub proof fn sound_ledger_stays_sound(ledger: Ledger, request: RequestView)
    requires
        sound(ledger),
    ensures
        sound(step(ledger, request)),
{
    let decision = decide(ledger, request);
    let after = step(ledger, request);
    let id = request.transaction_id;
    lemma_first_writes(ledger, decision.writes);
    if decision.result == Ok::<bool, LedgerError>(true) {
        sound_ledger_holds_what_is_disputed(ledger, request.client_id, id);
        if !ledger.accounts.contains_key(request.client_id) {
            lemma_new_customer_comes_last(ledger.order, request.client_id);
        }
        assert forall|other: CustomerId|
            after.accounts.contains_key(other) <==> after.order.contains(other) by {
            assert(ledger.accounts.contains_key(other) <==> ledger.order.contains(other));
        }
        assert forall|client: CustomerId| #[trigger]
            after.held(client) == held_in_disputes(after, client) by {
            assert(ledger.held(client) == held_in_disputes(ledger, client));
            lemma_held_below_differs_at(ledger, after, client, id, id_count());
        }
    }
}

/// The ledger after `requests` were handled one after the other on
/// reliable stores.
pub open spec fn after_all(ledger: Ledger, requests: Seq<RequestView>) -> Ledger
    decreases requests.len(),
{
    if requests.len() == 0 {
        ledger
    } else {
        step(after_all(ledger, requests.drop_last()), requests.last())
    }
}

/// Whatever the requests, the ledger that they make of the empty one is
/// sound.
pub proof fn ledger_made_by_requests_is_sound(requests: Seq<RequestView>)
    ensures
        sound(after_all(Ledger::empty(), requests)),
    decreases requests.len(),
{
    if requests.len() == 0 {
        empty_ledger_is_sound();
    } else {
        ledger_made_by_requests_is_sound(requests.drop_last());
        sound_ledger_stays_sound(
            after_all(Ledger::empty(), requests.drop_last()),
            requests.last(),
        );
    }
}

} // verus!
