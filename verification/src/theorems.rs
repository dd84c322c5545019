//! What holds of the ledger whatever the requests are.

use crate::amount::in_range;
use crate::common_types::{CustomerId, TransactionId};
use crate::ledger::{
    decide, lemma_first_writes, step, structurally_valid, Ledger, LedgerError,
};
use crate::transaction_request::{RequestView, TransactionType};
use vstd::prelude::*;

verus! {

/// Whether `request` is a dispute, a resolve or a chargeback.
pub open spec fn refers_to_a_transaction(request: RequestView) -> bool {
    request.transaction_type is Dispute || request.transaction_type is Resolve
        || request.transaction_type is Chargeback
}

/// Whether `request` is a deposit or a withdrawal.
pub open spec fn makes_a_transaction(request: RequestView) -> bool {
    request.transaction_type is Deposit || request.transaction_type is Withdrawal
}

/// Whether `later` is of the given kind and names the client and the
/// transaction of `earlier`, without an amount.
pub open spec fn follows_up(
    later: RequestView,
    kind: TransactionType,
    earlier: RequestView,
) -> bool {
    &&& later.transaction_type == kind
    &&& later.client_id == earlier.client_id
    &&& later.transaction_id == earlier.transaction_id
    &&& later.amount is None
}

/// Only an applied request changes the ledger.
pub proof fn unapplied_request_changes_nothing(ledger: Ledger, request: RequestView)
    requires
        decide(ledger, request).result != Ok::<bool, LedgerError>(true),
    ensures
        step(ledger, request) == ledger,
{
}

/// A deposit or withdrawal under a transaction id that is already recorded
/// is skipped.
pub proof fn recorded_id_is_skipped(ledger: Ledger, request: RequestView)
    requires
        makes_a_transaction(request),
        structurally_valid(request),
        ledger.records.contains_key(request.transaction_id),
    ensures
        decide(ledger, request).result == Ok::<bool, LedgerError>(false),
        step(ledger, request) == ledger,
{
}

/// A deposit or withdrawal that is submitted twice has the effect of the
/// first submission only: the second changes nothing, and it is answered
/// with `Ok(false)` unless the first was refused with an error.
pub proof fn second_submission_changes_nothing(ledger: Ledger, request: RequestView)
    requires
        makes_a_transaction(request),
    ensures
        step(step(ledger, request), request) == step(ledger, request),
        decide(ledger, request).result is Ok ==> decide(step(ledger, request), request).result
            == Ok::<bool, LedgerError>(false),
        decide(ledger, request).result is Err ==> decide(step(ledger, request), request).result
            == decide(ledger, request).result,
{
    let first = decide(ledger, request);
    let once = step(ledger, request);
    lemma_first_writes(ledger, first.writes);
    if first.result == Ok::<bool, LedgerError>(true) {
        assert(once.records.contains_key(request.transaction_id));
    }
}

/// A dispute, resolve or chargeback of a transaction that is not recorded
/// is skipped, and changes nothing.
pub proof fn unknown_transaction_is_skipped(ledger: Ledger, request: RequestView)
    requires
        refers_to_a_transaction(request),
        structurally_valid(request),
        !ledger.records.contains_key(request.transaction_id),
    ensures
        decide(ledger, request).result == Ok::<bool, LedgerError>(false),
        step(ledger, request) == ledger,
{
}

/// A dispute, resolve or chargeback by another client than the one the
/// transaction is recorded for is skipped, and changes nothing.
pub proof fn foreign_transaction_is_skipped(ledger: Ledger, request: RequestView)
    requires
        refers_to_a_transaction(request),
        structurally_valid(request),
        ledger.records.contains_key(request.transaction_id),
        ledger.records[request.transaction_id].client_id != request.client_id,
    ensures
        decide(ledger, request).result == Ok::<bool, LedgerError>(false),
        step(ledger, request) == ledger,
{
}

/// A withdrawal is applied only where the client has an account that is
/// not locked and whose available funds cover the amount.
pub proof fn withdrawal_needs_unlocked_funds(ledger: Ledger, request: RequestView)
    requires
        request.transaction_type is Withdrawal,
        decide(ledger, request).result == Ok::<bool, LedgerError>(true),
    ensures
        ledger.accounts.contains_key(request.client_id),
        !ledger.locked(request.client_id),
        request.amount matches Some(amount) && 0 < amount <= ledger.available(request.client_id),
{
}

/// An applied withdrawal takes exactly its amount from the available funds,
/// which do not become negative by it.
pub proof fn withdrawal_takes_its_amount(ledger: Ledger, request: RequestView)
    requires
        request.transaction_type is Withdrawal,
        decide(ledger, request).result == Ok::<bool, LedgerError>(true),
    ensures
        step(ledger, request).available(request.client_id) == ledger.available(request.client_id)
            - request.amount.unwrap(),
        step(ledger, request).available(request.client_id) >= 0,
        step(ledger, request).held(request.client_id) == ledger.held(request.client_id),
{
    lemma_first_writes(ledger, decide(ledger, request).writes);
}

/// An applied deposit adds exactly its amount to the available funds, and
/// opens the account where there was none.
pub proof fn deposit_adds_its_amount(ledger: Ledger, request: RequestView)
    requires
        request.transaction_type is Deposit,
        decide(ledger, request).result == Ok::<bool, LedgerError>(true),
    ensures
        step(ledger, request).accounts.contains_key(request.client_id),
        step(ledger, request).available(request.client_id) == ledger.available(request.client_id)
            + request.amount.unwrap(),
        step(ledger, request).held(request.client_id) == ledger.held(request.client_id),
        step(ledger, request).locked(request.client_id) == ledger.locked(request.client_id),
{
    lemma_first_writes(ledger, decide(ledger, request).writes);
}

/// No request unlocks an account: once locked, it stays locked.
pub proof fn lock_is_permanent(ledger: Ledger, request: RequestView, client: CustomerId)
    requires
        ledger.locked(client),
    ensures
        step(ledger, request).locked(client),
{
    lemma_first_writes(ledger, decide(ledger, request).writes);
}

/// No request closes an account or changes the order of those that are
/// open: an account that is opened comes last.
pub proof fn accounts_stay_in_their_order(ledger: Ledger, request: RequestView)
    ensures
        ledger.order.is_prefix_of(step(ledger, request).order),
        forall|client: CustomerId| #[trigger]
            ledger.accounts.contains_key(client) ==> step(ledger, request).accounts.contains_key(
                client,
            ),
{
    lemma_first_writes(ledger, decide(ledger, request).writes);
}

/// No request changes or removes a record: what is recorded under a
/// transaction id stays as it is.
pub proof fn records_are_written_once(ledger: Ledger, request: RequestView, id: TransactionId)
    requires
        ledger.records.contains_key(id),
    ensures
        step(ledger, request).records.contains_key(id),
        step(ledger, request).records[id] == ledger.records[id],
{
    lemma_first_writes(ledger, decide(ledger, request).writes);
}

/// A locked account admits no withdrawal.
pub proof fn locked_account_admits_no_withdrawal(ledger: Ledger, request: RequestView)
    requires
        request.transaction_type is Withdrawal,
        structurally_valid(request),
        ledger.locked(request.client_id),
    ensures
        decide(ledger, request).result == Ok::<bool, LedgerError>(false),
        step(ledger, request) == ledger,
{
}

/// Whether the balances of `client` are within the range of an amount, and
/// the held funds are not negative. This holds of every client of a sound
/// ledger.
pub open spec fn balances_are_regular(ledger: Ledger, client: CustomerId) -> bool {
    &&& in_range(ledger.available(client))
    &&& in_range(ledger.held(client))
    &&& ledger.held(client) >= 0
}

/// An applied dispute moves the amount of the transaction it refers to
/// from the available to the held funds of its client, and marks the
/// transaction held.
pub proof fn dispute_holds_the_amount(ledger: Ledger, dispute: RequestView)
    requires
        dispute.transaction_type is Dispute,
        decide(ledger, dispute).result == Ok::<bool, LedgerError>(true),
    ensures
        ledger.records.contains_key(dispute.transaction_id),
        ledger.records[dispute.transaction_id].amount matches Some(amount) && ({
            let after = step(ledger, dispute);
            &&& after.accounts.contains_key(dispute.client_id)
            &&& after.available(dispute.client_id) == ledger.available(dispute.client_id) - amount
            &&& after.held(dispute.client_id) == ledger.held(dispute.client_id) + amount
            &&& after.locked(dispute.client_id) == ledger.locked(dispute.client_id)
            &&& after.disputed(dispute.transaction_id)
            &&& !after.charged_back(dispute.transaction_id)
            &&& after.records == ledger.records
        }),
{
    lemma_first_writes(ledger, decide(ledger, dispute).writes);
}

/// An applied resolve moves the amount of the transaction it refers to
/// back from the held to the available funds of its client, and the
/// transaction is no longer held. There was an open dispute of the
/// transaction, and the held funds covered its amount.
pub proof fn resolve_releases_the_amount(ledger: Ledger, resolve: RequestView)
    requires
        resolve.transaction_type is Resolve,
        decide(ledger, resolve).result == Ok::<bool, LedgerError>(true),
    ensures
        ledger.disputed(resolve.transaction_id),
        !ledger.charged_back(resolve.transaction_id),
        ledger.records.contains_key(resolve.transaction_id),
        ledger.records[resolve.transaction_id].amount matches Some(amount) && ({
            let after = step(ledger, resolve);
            &&& amount <= ledger.held(resolve.client_id)
            &&& after.available(resolve.client_id) == ledger.available(resolve.client_id) + amount
            &&& after.held(resolve.client_id) == ledger.held(resolve.client_id) - amount
            &&& after.locked(resolve.client_id) == ledger.locked(resolve.client_id)
            &&& !after.disputed(resolve.transaction_id)
            &&& !after.charged_back(resolve.transaction_id)
            &&& after.records == ledger.records
            &&& after.order == ledger.order
        }),
{
    lemma_first_writes(ledger, decide(ledger, resolve).writes);
}

/// An applied chargeback takes the amount of the transaction it refers to
/// from the held funds of its client, leaves the available funds as they
/// are, locks the account, and marks the transaction charged back. There
/// was an open dispute of the transaction, and the held funds covered its
/// amount.
pub proof fn chargeback_takes_the_amount(ledger: Ledger, chargeback: RequestView)
    requires
        chargeback.transaction_type is Chargeback,
        decide(ledger, chargeback).result == Ok::<bool, LedgerError>(true),
    ensures
        ledger.disputed(chargeback.transaction_id),
        !ledger.charged_back(chargeback.transaction_id),
        ledger.records.contains_key(chargeback.transaction_id),
        ledger.records[chargeback.transaction_id].amount matches Some(amount) && ({
            let after = step(ledger, chargeback);
            &&& amount <= ledger.held(chargeback.client_id)
            &&& after.available(chargeback.client_id) == ledger.available(chargeback.client_id)
            &&& after.held(chargeback.client_id) == ledger.held(chargeback.client_id) - amount
            &&& after.locked(chargeback.client_id)
            &&& !after.disputed(chargeback.transaction_id)
            &&& after.charged_back(chargeback.transaction_id)
            &&& after.records == ledger.records
            &&& after.order == ledger.order
        }),
{
    lemma_first_writes(ledger, decide(ledger, chargeback).writes);
}

/// A resolve that follows an applied dispute is applied, and restores the
/// available and the held funds of the client to what they were before the
/// dispute.
pub proof fn resolve_undoes_dispute(ledger: Ledger, dispute: RequestView, resolve: RequestView)
    requires
        balances_are_regular(ledger, dispute.client_id),
        dispute.transaction_type is Dispute,
        decide(ledger, dispute).result == Ok::<bool, LedgerError>(true),
        follows_up(resolve, TransactionType::Resolve, dispute),
    ensures
        decide(step(ledger, dispute), resolve).result == Ok::<bool, LedgerError>(true),
        ({
            let after = step(step(ledger, dispute), resolve);
            &&& after.available(dispute.client_id) == ledger.available(dispute.client_id)
            &&& after.held(dispute.client_id) == ledger.held(dispute.client_id)
            &&& after.locked(dispute.client_id) == ledger.locked(dispute.client_id)
            &&& ledger.accounts.contains_key(dispute.client_id) ==> after.accounts
                == ledger.accounts && after.order == ledger.order
            &&& after.records == ledger.records
            &&& !after.disputed(dispute.transaction_id)
            &&& !after.charged_back(dispute.transaction_id)
        }),
{
    let disputed = step(ledger, dispute);
    dispute_holds_the_amount(ledger, dispute);
    lemma_first_writes(disputed, decide(disputed, resolve).writes);
    let after = step(disputed, resolve);
    if ledger.accounts.contains_key(dispute.client_id) {
        lemma_first_writes(ledger, decide(ledger, dispute).writes);
        assert(after.accounts =~= ledger.accounts);
    }
}

/// A chargeback that follows an applied dispute is applied: it leaves the
/// available funds of the client as the dispute left them, takes the
/// disputed amount from the held funds, locks the account, and marks the
/// transaction charged back.
pub proof fn chargeback_removes_disputed_funds(
    ledger: Ledger,
    dispute: RequestView,
    chargeback: RequestView,
)
    requires
        balances_are_regular(ledger, dispute.client_id),
        dispute.transaction_type is Dispute,
        decide(ledger, dispute).result == Ok::<bool, LedgerError>(true),
        follows_up(chargeback, TransactionType::Chargeback, dispute),
    ensures
        decide(step(ledger, dispute), chargeback).result == Ok::<bool, LedgerError>(true),
        ({
            let disputed = step(ledger, dispute);
            let after = step(disputed, chargeback);
            let amount = ledger.records[dispute.transaction_id].amount.unwrap();
            &&& after.available(dispute.client_id) == disputed.available(dispute.client_id)
            &&& after.held(dispute.client_id) == disputed.held(dispute.client_id) - amount
            &&& after.held(dispute.client_id) == ledger.held(dispute.client_id)
            &&& after.locked(dispute.client_id)
            &&& after.records == ledger.records
            &&& !after.disputed(dispute.transaction_id)
            &&& after.charged_back(dispute.transaction_id)
        }),
{
    let disputed = step(ledger, dispute);
    dispute_holds_the_amount(ledger, dispute);
    lemma_first_writes(disputed, decide(disputed, chargeback).writes);
}

/// No request takes back a chargeback: a transaction that was charged back
/// stays so.
pub proof fn chargeback_is_final(ledger: Ledger, request: RequestView, id: TransactionId)
    requires
        ledger.charged_back(id),
    ensures
        step(ledger, request).charged_back(id),
{
    lemma_first_writes(ledger, decide(ledger, request).writes);
}

/// A dispute, resolve or chargeback of a transaction that was charged back
/// is skipped, unless the ledger is corrupt.
pub proof fn charged_back_transaction_is_closed(ledger: Ledger, request: RequestView)
    requires
        refers_to_a_transaction(request),
        structurally_valid(request),
        ledger.charged_back(request.transaction_id),
    ensures
        decide(ledger, request).result == Ok::<bool, LedgerError>(false) || decide(
            ledger,
            request,
        ).result == Err::<bool, LedgerError>(LedgerError::RecordWithoutAmount),
        step(ledger, request) == ledger,
{
}

/// A dispute of a transaction that is already disputed is skipped, unless
/// the ledger is corrupt.
pub proof fn disputed_transaction_is_not_disputed_again(ledger: Ledger, request: RequestView)
    requires
        request.transaction_type is Dispute,
        structurally_valid(request),
        ledger.disputed(request.transaction_id),
    ensures
        decide(ledger, request).result == Ok::<bool, LedgerError>(false) || decide(
            ledger,
            request,
        ).result == Err::<bool, LedgerError>(LedgerError::RecordWithoutAmount),
        step(ledger, request) == ledger,
{
}

} // verus!
