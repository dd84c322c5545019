//! The ledger as mathematics: what the accounts and the history hold, what
//! each kind of request decides, and what it writes.

use crate::amount::in_range;
use crate::common_types::{CustomerId, TransactionId};
use crate::transaction_request::{RequestView, TransactionState, TransactionType};
use vstd::prelude::*;

verus! {

/// Why a request was refused rather than applied or skipped.
#[derive(Debug, PartialEq, Eq)]
pub enum LedgerError {
    /// A store refused a call; the text is the store's own.
    Store(String),
    /// The request does not have the shape of its kind: it is a deposit or
    /// withdrawal without a positive amount, or a dispute, resolve or
    /// chargeback with an amount.
    InvalidRequest,
    /// The recorded transaction that the request refers to has no amount.
    RecordWithoutAmount,
    /// The account holds less than the disputed amount that the request
    /// would release.
    HeldFundsMissing,
    /// A balance would leave the range of an amount.
    AmountOutOfRange,
}

impl LedgerError {
    /// The words for this error.
    pub open spec fn text(self) -> Seq<char> {
        match self {
            LedgerError::Store(text) => text@,
            LedgerError::InvalidRequest => "the request does not have the shape of its kind"@,
            LedgerError::RecordWithoutAmount => "the disputed transaction has no amount"@,
            LedgerError::HeldFundsMissing => {
                "the funds of the disputed transaction are not held"@
            },
            LedgerError::AmountOutOfRange => "a balance would be out of range"@,
        }
    }

    /// The words for this error.
    pub fn message(&self) -> (r: String)
        ensures
            r@ == self.text(),
    {
        match self {
            LedgerError::Store(text) => text.clone(),
            LedgerError::InvalidRequest => {
                "the request does not have the shape of its kind".to_owned()
            },
            LedgerError::RecordWithoutAmount => {
                "the disputed transaction has no amount".to_owned()
            },
            LedgerError::HeldFundsMissing => {
                "the funds of the disputed transaction are not held".to_owned()
            },
            LedgerError::AmountOutOfRange => "a balance would be out of range".to_owned(),
        }
    }
}

/// The balances and the lock of one customer, in ten-thousandths.
pub struct AccountView {
    pub available: int,
    pub held: int,
    pub locked: bool,
}

impl AccountView {
    /// What is reported as the customer's total.
    pub open spec fn total(self) -> int {
        self.available + self.held
    }
}

/// Everything that the ledger keeps.
pub struct Ledger {
    /// The account of each customer who has one.
    pub accounts: Map<CustomerId, AccountView>,
    /// The customers in the order in which their accounts were opened.
    pub order: Seq<CustomerId>,
    /// The recorded deposits and withdrawals.
    pub records: Map<TransactionId, RequestView>,
    /// The dispute state of each transaction that was ever disputed.
    pub states: Map<TransactionId, TransactionState>,
}

/// The accounts after `available` of `client` is set to `value`: an account
/// that was missing is opened, with nothing held and unlocked.
pub open spec fn with_available(
    accounts: Map<CustomerId, AccountView>,
    client: CustomerId,
    value: int,
) -> Map<CustomerId, AccountView> {
    if accounts.contains_key(client) {
        accounts.insert(client, AccountView { available: value, ..accounts[client] })
    } else {
        accounts.insert(client, AccountView { available: value, held: 0, locked: false })
    }
}

/// The order of the customers after the available funds of `client` are
/// set: a customer without an account comes last.
pub open spec fn with_opened(
    accounts: Map<CustomerId, AccountView>,
    order: Seq<CustomerId>,
    client: CustomerId,
) -> Seq<CustomerId> {
    if accounts.contains_key(client) {
        order
    } else {
        order.push(client)
    }
}

/// An order without repetitions has none after a customer who was not in
/// it is put last, and holds that customer besides those it held.
pub proof fn lemma_new_customer_comes_last(order: Seq<CustomerId>, client: CustomerId)
    requires
        order.no_duplicates(),
        !order.contains(client),
    ensures
        order.push(client).no_duplicates(),
        forall|other: CustomerId|
            order.push(client).contains(other) <==> (other == client || order.contains(other)),
{
    let longer = order.push(client);
    assert forall|i: int, j: int|
        0 <= i < longer.len() && 0 <= j < longer.len() && i != j implies longer[i]
        != longer[j] by {
        if i < order.len() {
            assert(order.contains(longer[i]));
        }
        if j < order.len() {
            assert(order.contains(longer[j]));
        }
    }
    assert forall|other: CustomerId|
        longer.contains(other) <==> (other == client || order.contains(other)) by {
        if other == client {
            assert(longer[longer.len() - 1] == client);
        } else if order.contains(other) {
            let i = choose|i: int| 0 <= i < order.len() && order[i] == other;
            assert(longer[i] == other);
        } else if longer.contains(other) {
            let i = choose|i: int| 0 <= i < longer.len() && longer[i] == other;
            assert(order[i] == other);
        }
    }
}

/// The accounts after `held` of `client` is set to `value`; nothing changes
/// where the account is missing.
pub open spec fn with_held(
    accounts: Map<CustomerId, AccountView>,
    client: CustomerId,
    value: int,
) -> Map<CustomerId, AccountView> {
    if accounts.contains_key(client) {
        accounts.insert(client, AccountView { held: value, ..accounts[client] })
    } else {
        accounts
    }
}

/// The accounts after the lock of `client` is set to `value`; nothing
/// changes where the account is missing.
pub open spec fn with_locked(
    accounts: Map<CustomerId, AccountView>,
    client: CustomerId,
    value: bool,
) -> Map<CustomerId, AccountView> {
    if accounts.contains_key(client) {
        accounts.insert(client, AccountView { locked: value, ..accounts[client] })
    } else {
        accounts
    }
}

/// One write to a store.
pub enum Write {
    Available { client: CustomerId, value: int },
    Held { client: CustomerId, value: int },
    Locked { client: CustomerId, locked: bool },
    Record { request: RequestView },
    State { transaction_id: TransactionId, state: TransactionState },
}

impl Ledger {
    /// The ledger that holds nothing.
    pub open spec fn empty() -> Ledger {
        Ledger {
            accounts: Map::empty(),
            order: Seq::empty(),
            records: Map::empty(),
            states: Map::empty(),
        }
    }

    /// The available funds of `client`, zero without an account.
    pub open spec fn available(self, client: CustomerId) -> int {
        if self.accounts.contains_key(client) {
            self.accounts[client].available
        } else {
            0
        }
    }

    /// The held funds of `client`, zero without an account.
    pub open spec fn held(self, client: CustomerId) -> int {
        if self.accounts.contains_key(client) {
            self.accounts[client].held
        } else {
            0
        }
    }

    /// Whether `client` has an account, and it is locked.
    pub open spec fn locked(self, client: CustomerId) -> bool {
        self.accounts.contains_key(client) && self.accounts[client].locked
    }

    /// Whether funds of transaction `transaction_id` are held by an open
    /// dispute.
    pub open spec fn disputed(self, transaction_id: TransactionId) -> bool {
        self.states.contains_key(transaction_id) && self.states[transaction_id].held
    }

    /// Whether transaction `transaction_id` was charged back.
    pub open spec fn charged_back(self, transaction_id: TransactionId) -> bool {
        self.states.contains_key(transaction_id) && self.states[transaction_id].charged_back
    }

    /// The ledger after one write.
    pub open spec fn perform(self, write: Write) -> Ledger {
        match write {
            Write::Available { client, value } => Ledger {
                accounts: with_available(self.accounts, client, value),
                order: with_opened(self.accounts, self.order, client),
                ..self
            },
            Write::Held { client, value } => Ledger {
                accounts: with_held(self.accounts, client, value),
                ..self
            },
            Write::Locked { client, locked } => Ledger {
                accounts: with_locked(self.accounts, client, locked),
                ..self
            },
            Write::Record { request } => Ledger {
                records: self.records.insert(request.transaction_id, request),
                ..self
            },
            Write::State { transaction_id, state } => Ledger {
                states: self.states.insert(transaction_id, state),
                ..self
            },
        }
    }

    /// The ledger after the first `count` of `writes`, made in order.
    pub open spec fn perform_first(self, writes: Seq<Write>, count: nat) -> Ledger
        decreases count,
    {
        if count == 0 || count > writes.len() {
            self
        } else {
            self.perform_first(writes, (count - 1) as nat).perform(writes[count - 1])
        }
    }

    /// The ledger after all of `writes`, made in order.
    pub open spec fn perform_all(self, writes: Seq<Write>) -> Ledger {
        self.perform_first(writes, writes.len())
    }
}

/// The first writes of a sequence, one after the other.
pub proof fn lemma_first_writes(ledger: Ledger, writes: Seq<Write>)
    ensures
        ledger.perform_first(writes, 0) == ledger,
        writes.len() >= 1 ==> ledger.perform_first(writes, 1) == ledger.perform(writes[0]),
        writes.len() >= 2 ==> ledger.perform_first(writes, 2) == ledger.perform(writes[0]).perform(
            writes[1],
        ),
        writes.len() >= 3 ==> ledger.perform_first(writes, 3) == ledger.perform(writes[0]).perform(
            writes[1],
        ).perform(writes[2]),
{
    reveal_with_fuel(Ledger::perform_first, 4);
}

/// Whether a request has the shape of its kind: deposits and withdrawals
/// carry a positive amount, the other kinds carry none.
pub open spec fn structurally_valid(request: RequestView) -> bool {
    match request.transaction_type {
        TransactionType::Deposit | TransactionType::Withdrawal => request.amount matches Some(
            amount,
        ) && amount > 0,
        TransactionType::Dispute | TransactionType::Resolve | TransactionType::Chargeback =>
            request.amount is None,
    }
}

/// What the ledger makes of a request: the answer to the caller, and the
/// writes to make, in order. There are writes only where the answer is
/// `Ok(true)`.
pub struct Decision {
    pub result: Result<bool, LedgerError>,
    pub writes: Seq<Write>,
}

/// The request is applied by making `writes`.
pub open spec fn applied(writes: Seq<Write>) -> Decision {
    Decision { result: Ok(true), writes }
}

/// The request is skipped: nothing is written.
pub open spec fn skipped() -> Decision {
    Decision { result: Ok(false), writes: Seq::empty() }
}

/// The request is refused with `error`: nothing is written.
pub open spec fn refused(error: LedgerError) -> Decision {
    Decision { result: Err(error), writes: Seq::empty() }
}

/// A deposit adds its amount to the available funds of its client, opening
/// the account if need be, and is recorded. It is skipped where its
/// transaction id is already recorded.
pub open spec fn decide_deposit(ledger: Ledger, request: RequestView) -> Decision {
    if request.transaction_type != TransactionType::Deposit || !structurally_valid(request) {
        refused(LedgerError::InvalidRequest)
    } else if ledger.records.contains_key(request.transaction_id) {
        skipped()
    } else {
        let balance = ledger.available(request.client_id) + request.amount.unwrap();
        if !in_range(balance) {
            refused(LedgerError::AmountOutOfRange)
        } else {
            applied(
                seq![
                    Write::Available { client: request.client_id, value: balance },
                    Write::Record { request },
                ],
            )
        }
    }
}

/// A withdrawal takes its amount from the available funds of its client and
/// is recorded. It is skipped where its transaction id is already recorded,
/// the account is locked or missing, or the available funds are less than
/// the amount.
pub open spec fn decide_withdrawal(ledger: Ledger, request: RequestView) -> Decision {
    if request.transaction_type != TransactionType::Withdrawal || !structurally_valid(request) {
        refused(LedgerError::InvalidRequest)
    } else if ledger.records.contains_key(request.transaction_id) {
        skipped()
    } else if ledger.locked(request.client_id) {
        skipped()
    } else if !ledger.accounts.contains_key(request.client_id) {
        skipped()
    } else if ledger.available(request.client_id) < request.amount.unwrap() {
        skipped()
    } else {
        applied(
            seq![
                Write::Available {
                    client: request.client_id,
                    value: ledger.available(request.client_id) - request.amount.unwrap(),
                },
                Write::Record { request },
            ],
        )
    }
}

/// The recorded transaction that a dispute, resolve or chargeback of
/// `request`'s client may act on: the one with the request's transaction
/// id, if it belongs to that client.
pub open spec fn referred(ledger: Ledger, request: RequestView) -> Option<RequestView> {
    let id = request.transaction_id;
    if ledger.records.contains_key(id) && ledger.records[id].client_id == request.client_id {
        Some(ledger.records[id])
    } else {
        None
    }
}

/// A dispute moves the amount of the transaction it refers to from the
/// available to the held funds of its client, and marks the transaction
/// held. The available funds may become negative. It is skipped where the
/// transaction is unknown, belongs to another client, is already held or
/// was charged back.
pub open spec fn decide_dispute(ledger: Ledger, request: RequestView) -> Decision {
    if request.transaction_type != TransactionType::Dispute || !structurally_valid(request) {
        refused(LedgerError::InvalidRequest)
    } else if referred(ledger, request) is None {
        skipped()
    } else if referred(ledger, request).unwrap().amount is None {
        refused(LedgerError::RecordWithoutAmount)
    } else if ledger.disputed(request.transaction_id) || ledger.charged_back(
        request.transaction_id,
    ) {
        skipped()
    } else {
        let amount = referred(ledger, request).unwrap().amount.unwrap();
        let available = ledger.available(request.client_id) - amount;
        let held = ledger.held(request.client_id) + amount;
        if !in_range(available) || !in_range(held) {
            refused(LedgerError::AmountOutOfRange)
        } else {
            applied(
                seq![
                    Write::Available { client: request.client_id, value: available },
                    Write::Held { client: request.client_id, value: held },
                    Write::State {
                        transaction_id: request.transaction_id,
                        state: TransactionState { held: true, charged_back: false },
                    },
                ],
            )
        }
    }
}

/// What resolve and chargeback have in common: the request is skipped
/// where the transaction is unknown, belongs to another client, is not
/// held, was charged back, or the client has no account; it is refused
/// where the account holds less than the transaction's amount.
pub open spec fn decide_release(ledger: Ledger, request: RequestView) -> Option<Decision> {
    if referred(ledger, request) is None {
        Some(skipped())
    } else if referred(ledger, request).unwrap().amount is None {
        Some(refused(LedgerError::RecordWithoutAmount))
    } else if !ledger.disputed(request.transaction_id) || ledger.charged_back(
        request.transaction_id,
    ) {
        Some(skipped())
    } else if !ledger.accounts.contains_key(request.client_id) {
        Some(skipped())
    } else if ledger.held(request.client_id) < referred(ledger, request).unwrap().amount.unwrap() {
        Some(refused(LedgerError::HeldFundsMissing))
    } else {
        None
    }
}

/// A resolve ends a dispute in the client's favour: the amount of the
/// transaction moves back from the held to the available funds, and the
/// transaction is no longer held.
pub open spec fn decide_resolve(ledger: Ledger, request: RequestView) -> Decision {
    if request.transaction_type != TransactionType::Resolve || !structurally_valid(request) {
        refused(LedgerError::InvalidRequest)
    } else if decide_release(ledger, request) is Some {
        decide_release(ledger, request).unwrap()
    } else {
        let amount = referred(ledger, request).unwrap().amount.unwrap();
        let available = ledger.available(request.client_id) + amount;
        let held = ledger.held(request.client_id) - amount;
        if !in_range(available) || !in_range(held) {
            refused(LedgerError::AmountOutOfRange)
        } else {
            applied(
                seq![
                    Write::Available { client: request.client_id, value: available },
                    Write::Held { client: request.client_id, value: held },
                    Write::State {
                        transaction_id: request.transaction_id,
                        state: TransactionState { held: false, charged_back: false },
                    },
                ],
            )
        }
    }
}

/// A chargeback ends a dispute against the client: the amount of the
/// transaction leaves the held funds and the ledger, the account is locked,
/// and the transaction is charged back for good.
pub open spec fn decide_chargeback(ledger: Ledger, request: RequestView) -> Decision {
    if request.transaction_type != TransactionType::Chargeback || !structurally_valid(request) {
        refused(LedgerError::InvalidRequest)
    } else if decide_release(ledger, request) is Some {
        decide_release(ledger, request).unwrap()
    } else {
        let amount = referred(ledger, request).unwrap().amount.unwrap();
        let held = ledger.held(request.client_id) - amount;
        if !in_range(held) {
            refused(LedgerError::AmountOutOfRange)
        } else {
            applied(
                seq![
                    Write::Held { client: request.client_id, value: held },
                    Write::Locked { client: request.client_id, locked: true },
                    Write::State {
                        transaction_id: request.transaction_id,
                        state: TransactionState { held: false, charged_back: true },
                    },
                ],
            )
        }
    }
}

/// What the ledger makes of a request of any kind.
pub open spec fn decide(ledger: Ledger, request: RequestView) -> Decision {
    match request.transaction_type {
        TransactionType::Deposit => decide_deposit(ledger, request),
        TransactionType::Withdrawal => decide_withdrawal(ledger, request),
        TransactionType::Dispute => decide_dispute(ledger, request),
        TransactionType::Resolve => decide_resolve(ledger, request),
        TransactionType::Chargeback => decide_chargeback(ledger, request),
    }
}

/// The ledger after a request was handled on reliable stores.
pub open spec fn step(ledger: Ledger, request: RequestView) -> Ledger {
    ledger.perform_all(decide(ledger, request).writes)
}

/// How a handler that makes of requests what `decision` says leaves the
/// ledger, and what it answers.
///
/// On reliable stores the answer is the decision's, and all its writes are
/// made. A store that is not reliable may refuse any call: the answer is
/// then the store's error, and the writes before the refused call are made,
/// the others not. So after a store's error the last write is never made.
pub open spec fn carried_out(
    before: Ledger,
    decision: Decision,
    reliable: bool,
    result: Result<bool, LedgerError>,
    after: Ledger,
) -> bool {
    match result {
        Err(LedgerError::Store(_)) => !reliable && exists|count: nat|
            {
                &&& count == 0 || count < decision.writes.len()
                &&& after == #[trigger] before.perform_first(decision.writes, count)
            },
        _ => result == decision.result && after == before.perform_all(decision.writes),
    }
}

} // verus!
