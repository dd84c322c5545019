//! The processor: it checks the shape of requests and carries them out on
//! the two stores.

use crate::amount::Amount;
use crate::common_types::{CustomerId, TransactionId};
use crate::customer_account_provider::{
    lists, totals_in_range, CustomerAccountProvider, CustomerAccountReport,
};
use crate::ledger::{
    carried_out, decide, decide_chargeback, decide_deposit, decide_dispute, decide_resolve,
    decide_release, decide_withdrawal, referred, skipped, structurally_valid, Ledger,
    LedgerError,
};
use crate::transaction_history_provider::TransactionHistoryProvider;
use crate::transaction_request::{TransactionRequest, TransactionState, TransactionType};
use vstd::prelude::*;

verus! {

/// What a processor of transaction requests offers.
///
/// What a processor keeps is told by `ledger`, which every processor that
/// keeps anything defines for itself: as it stands here it tells of a
/// processor that keeps nothing and is not reliable.
pub trait TransactionsManager {
    /// What the processor's stores hold.
    open spec fn ledger(&self) -> Ledger {
        Ledger::empty()
    }

    /// Whether the processor's stores are reliable.
    open spec fn reliable(&self) -> bool {
        false
    }

    /// Whether the request has the shape of its kind.
    fn structure_validation(transaction_request: &TransactionRequest) -> (r: bool)
        ensures
            r == structurally_valid(transaction_request@),
    ;

    /// Carries out a request of any kind. The answer is `Ok(true)` where it
    /// was applied and `Ok(false)` where it was skipped; only an applied
    /// request changes the ledger.
    fn handle_transaction(&mut self, transaction_request: TransactionRequest) -> (r: Result<
        bool,
        LedgerError,
    >)
        ensures
            final(self).reliable() == old(self).reliable(),
            carried_out(
                old(self).ledger(),
                decide(old(self).ledger(), transaction_request@),
                old(self).reliable(),
                r,
                final(self).ledger(),
            ),
    ;

    /// The accounts, each once and with its total, for the report. Where a
    /// total is out of the range of an amount this is an error.
    fn report(&self) -> (r: Result<Vec<CustomerAccountReport>, String>)
        ensures
            self.reliable() ==> (r is Ok <==> totals_in_range(self.ledger().accounts)),
            r matches Ok(reports) ==> lists(
                reports@,
                self.ledger().accounts,
                self.ledger().order,
            ),
    ;
}

/// The processor over a history and a store of accounts.
pub struct DefaultTransactionsManager<H: TransactionHistoryProvider, A: CustomerAccountProvider> {
    transaction_history_provider: H,
    customer_account_provider: A,
}

/// What a dispute, resolve or chargeback finds under its transaction id.
struct Referred {
    amount: Option<Amount>,
    state: Option<TransactionState>,
}

impl<H: TransactionHistoryProvider, A: CustomerAccountProvider> DefaultTransactionsManager<H, A> {
    /// A processor over the two stores, as they are.
    pub fn new(transaction_history_provider: H, customer_account_provider: A) -> (r: Self)
        ensures
            r.ledger() == (Ledger {
                accounts: customer_account_provider.accounts(),
                order: customer_account_provider.order(),
                records: transaction_history_provider.records(),
                states: transaction_history_provider.states(),
            }),
            r.reliable() == (transaction_history_provider.reliable()
                && customer_account_provider.reliable()),
    {
        DefaultTransactionsManager { transaction_history_provider, customer_account_provider }
    }

    /// The two stores, as the processor leaves them.
    pub fn into_providers(self) -> (r: (H, A))
        ensures
            self.ledger() == (Ledger {
                accounts: r.1.accounts(),
                order: r.1.order(),
                records: r.0.records(),
                states: r.0.states(),
            }),
            self.reliable() == (r.0.reliable() && r.1.reliable()),
    {
        (self.transaction_history_provider, self.customer_account_provider)
    }

    fn is_duplicate_transaction_id(&mut self, transaction_id: TransactionId) -> (r: Result<
        bool,
        LedgerError,
    >)
        ensures
            final(self).reliable() == old(self).reliable(),
            final(self).ledger() == old(self).ledger(),
            match r {
                Ok(duplicate) => duplicate == old(self).ledger().records.contains_key(
                    transaction_id,
                ),
                Err(error) => error is Store && !old(self).reliable(),
            },
    {
        match self.transaction_history_provider.read_transaction(transaction_id) {
            Ok(found) => Ok(found.is_some()),
            Err(text) => Err(LedgerError::Store(text)),
        }
    }

    /// The available funds of `client`; none without an account.
    fn available(&mut self, client: CustomerId) -> (r: Result<Option<Amount>, LedgerError>)
        ensures
            final(self).reliable() == old(self).reliable(),
            final(self).ledger() == old(self).ledger(),
            match r {
                Ok(Some(amount)) => old(self).ledger().accounts.contains_key(client) && amount@
                    == old(self).ledger().available(client),
                Ok(None) => !old(self).ledger().accounts.contains_key(client),
                Err(error) => error is Store && !old(self).reliable(),
            },
    {
        match self.customer_account_provider.get_available(client) {
            Ok(found) => Ok(found),
            Err(text) => Err(LedgerError::Store(text)),
        }
    }

    /// The held funds of `client`; none without an account.
    fn held(&mut self, client: CustomerId) -> (r: Result<Option<Amount>, LedgerError>)
        ensures
            final(self).reliable() == old(self).reliable(),
            final(self).ledger() == old(self).ledger(),
            match r {
                Ok(Some(amount)) => old(self).ledger().accounts.contains_key(client) && amount@
                    == old(self).ledger().held(client),
                Ok(None) => !old(self).ledger().accounts.contains_key(client),
                Err(error) => error is Store && !old(self).reliable(),
            },
    {
        match self.customer_account_provider.get_held_amount(client) {
            Ok(found) => Ok(found),
            Err(text) => Err(LedgerError::Store(text)),
        }
    }

    /// The transaction that a dispute, resolve or chargeback refers to, if
    /// it is recorded for the request's client: its amount and its dispute
    /// state.
    fn referred_transaction(&mut self, transaction_request: &TransactionRequest) -> (r: Result<
        Option<Referred>,
        LedgerError,
    >)
        ensures
            final(self).reliable() == old(self).reliable(),
            final(self).ledger() == old(self).ledger(),
            match r {
                Ok(Some(found)) => {
                    let ledger = old(self).ledger();
                    let id = transaction_request.transaction_id;
                    &&& referred(ledger, transaction_request@) matches Some(record)
                    &&& match found.amount {
                        Some(amount) => record.amount == Some(amount@),
                        None => record.amount is None,
                    }
                    &&& match found.state {
                        Some(state) => ledger.states.contains_key(id) && ledger.states[id] == state,
                        None => !ledger.states.contains_key(id),
                    }
                },
                Ok(None) => referred(old(self).ledger(), transaction_request@) is None,
                Err(error) => error is Store && !old(self).reliable(),
            },
    {
        let amount = match self.transaction_history_provider.read_transaction(
            transaction_request.transaction_id,
        ) {
            Ok(Some(record)) => {
                if record.client_id != transaction_request.client_id {
                    return Ok(None);
                }
                record.amount
            },
            Ok(None) => {
                return Ok(None);
            },
            Err(text) => {
                return Err(LedgerError::Store(text));
            },
        };
        let state = match self.transaction_history_provider.read_transaction_state(
            transaction_request.transaction_id,
        ) {
            Ok(Some(state)) => Some(*state),
            Ok(None) => None,
            Err(text) => {
                return Err(LedgerError::Store(text));
            },
        };
        Ok(Some(Referred { amount, state }))
    }

    /// Carries out a deposit.
    pub fn deposit(&mut self, transaction_request: TransactionRequest) -> (r: Result<
        bool,
        LedgerError,
    >)
        ensures
            final(self).reliable() == old(self).reliable(),
            carried_out(
                old(self).ledger(),
                decide_deposit(old(self).ledger(), transaction_request@),
                old(self).reliable(),
                r,
                final(self).ledger(),
            ),
    {
        let ghost before = self.ledger();
        let ghost writes = decide_deposit(before, transaction_request@).writes;
        if !matches!(transaction_request.transaction_type, TransactionType::Deposit) {
            return Err(LedgerError::InvalidRequest);
        }
        let amount = match transaction_request.amount {
            Some(amount) => amount,
            None => {
                return Err(LedgerError::InvalidRequest);
            },
        };
        if !amount.is_positive() {
            return Err(LedgerError::InvalidRequest);
        }
        assert(before.perform_first(writes, 0) == before);
        if self.is_duplicate_transaction_id(transaction_request.transaction_id)? {
            return Ok(false);
        }
        let existing = match self.available(transaction_request.client_id)? {
            Some(existing) => existing,
            None => Amount::zero(),
        };
        let balance = match existing.checked_add(amount) {
            Some(balance) => balance,
            None => {
                return Err(LedgerError::AmountOutOfRange);
            },
        };
        match self.customer_account_provider.set_available(transaction_request.client_id, balance) {
            Ok(()) => {},
            Err(text) => {
                return Err(LedgerError::Store(text));
            },
        }
        assert(self.ledger() == before.perform_first(writes, 1));
        match self.transaction_history_provider.write_transaction(transaction_request) {
            Ok(()) => {},
            Err(text) => {
                return Err(LedgerError::Store(text));
            },
        }
        assert(self.ledger() == before.perform_first(writes, 2));
        Ok(true)
    }

    /// Carries out a withdrawal.
    pub fn withdraw(&mut self, transaction_request: TransactionRequest) -> (r: Result<
        bool,
        LedgerError,
    >)
        ensures
            final(self).reliable() == old(self).reliable(),
            carried_out(
                old(self).ledger(),
                decide_withdrawal(old(self).ledger(), transaction_request@),
                old(self).reliable(),
                r,
                final(self).ledger(),
            ),
    {
        let ghost before = self.ledger();
        let ghost writes = decide_withdrawal(before, transaction_request@).writes;
        if !matches!(transaction_request.transaction_type, TransactionType::Withdrawal) {
            return Err(LedgerError::InvalidRequest);
        }
        let amount = match transaction_request.amount {
            Some(amount) => amount,
            None => {
                return Err(LedgerError::InvalidRequest);
            },
        };
        if !amount.is_positive() {
            return Err(LedgerError::InvalidRequest);
        }
        assert(before.perform_first(writes, 0) == before);
        if self.is_duplicate_transaction_id(transaction_request.transaction_id)? {
            return Ok(false);
        }
        match self.customer_account_provider.get_locked_status(transaction_request.client_id) {
            Ok(Some(true)) => {
                return Ok(false);
            },
            Ok(_) => {},
            Err(text) => {
                return Err(LedgerError::Store(text));
            },
        }
        let existing = match self.available(transaction_request.client_id)? {
            Some(existing) => existing,
            None => {
                return Ok(false);
            },
        };
        if existing.less_than(&amount) {
            return Ok(false);
        }
        proof {
            use_type_invariant(&existing);
        }
        let balance = match existing.checked_sub(amount) {
            Some(balance) => balance,
            None => {
                return Err(LedgerError::AmountOutOfRange);
            },
        };
        match self.customer_account_provider.set_available(transaction_request.client_id, balance) {
            Ok(()) => {},
            Err(text) => {
                return Err(LedgerError::Store(text));
            },
        }
        assert(self.ledger() == before.perform_first(writes, 1));
        match self.transaction_history_provider.write_transaction(transaction_request) {
            Ok(()) => {},
            Err(text) => {
                return Err(LedgerError::Store(text));
            },
        }
        assert(self.ledger() == before.perform_first(writes, 2));
        Ok(true)
    }

    /// Carries out a dispute.
    pub fn dispute(&mut self, transaction_request: TransactionRequest) -> (r: Result<
        bool,
        LedgerError,
    >)
        ensures
            final(self).reliable() == old(self).reliable(),
            carried_out(
                old(self).ledger(),
                decide_dispute(old(self).ledger(), transaction_request@),
                old(self).reliable(),
                r,
                final(self).ledger(),
            ),
    {
        let ghost before = self.ledger();
        let ghost writes = decide_dispute(before, transaction_request@).writes;
        if !matches!(transaction_request.transaction_type, TransactionType::Dispute)
            || !Self::has_no_amount(&transaction_request) {
            return Err(LedgerError::InvalidRequest);
        }
        assert(before.perform_first(writes, 0) == before);
        let existing = match self.available(transaction_request.client_id)? {
            Some(existing) => existing,
            None => Amount::zero(),
        };
        let found = match self.referred_transaction(&transaction_request)? {
            Some(found) => found,
            None => {
                return Ok(false);
            },
        };
        let amount = match found.amount {
            Some(amount) => amount,
            None => {
                return Err(LedgerError::RecordWithoutAmount);
            },
        };
        match found.state {
            Some(state) => {
                if state.held || state.charged_back {
                    return Ok(false);
                }
            },
            None => {},
        }
        let existing_held = match self.held(transaction_request.client_id)? {
            Some(existing_held) => existing_held,
            None => Amount::zero(),
        };
        let available = match existing.checked_sub(amount) {
            Some(available) => available,
            None => {
                return Err(LedgerError::AmountOutOfRange);
            },
        };
        let held = match existing_held.checked_add(amount) {
            Some(held) => held,
            None => {
                return Err(LedgerError::AmountOutOfRange);
            },
        };
        match self.customer_account_provider.set_available(
            transaction_request.client_id,
            available,
        ) {
            Ok(()) => {},
            Err(text) => {
                return Err(LedgerError::Store(text));
            },
        }
        assert(self.ledger() == before.perform_first(writes, 1));
        match self.customer_account_provider.set_held_amount(transaction_request.client_id, held) {
            Ok(()) => {},
            Err(text) => {
                return Err(LedgerError::Store(text));
            },
        }
        assert(self.ledger() == before.perform_first(writes, 2));
        let state = TransactionState { held: true, charged_back: false };
        match self.transaction_history_provider.write_transaction_state(
            transaction_request.transaction_id,
            state,
        ) {
            Ok(()) => {},
            Err(text) => {
                return Err(LedgerError::Store(text));
            },
        }
        assert(self.ledger() == before.perform_first(writes, 3));
        Ok(true)
    }

    /// What resolve and chargeback begin with: the amount to release and the
    /// held funds of the client. There is none where the request is skipped.
    fn release(&mut self, transaction_request: &TransactionRequest) -> (r: Result<
        Option<(Amount, Amount)>,
        LedgerError,
    >)
        ensures
            final(self).reliable() == old(self).reliable(),
            final(self).ledger() == old(self).ledger(),
            match r {
                Ok(Some((amount, held))) => {
                    &&& decide_release(old(self).ledger(), transaction_request@) is None
                    &&& referred(old(self).ledger(), transaction_request@).unwrap().amount == Some(
                        amount@,
                    )
                    &&& held@ == old(self).ledger().held(transaction_request.client_id)
                },
                Ok(None) => decide_release(old(self).ledger(), transaction_request@) == Some(
                    skipped(),
                ),
                Err(LedgerError::Store(_)) => !old(self).reliable(),
                Err(error) => decide_release(old(self).ledger(), transaction_request@) matches Some(
                    decision,
                ) && decision.result == Err::<bool, LedgerError>(error),
            },
    {
        let found = match self.referred_transaction(transaction_request)? {
            Some(found) => found,
            None => {
                return Ok(None);
            },
        };
        let amount = match found.amount {
            Some(amount) => amount,
            None => {
                return Err(LedgerError::RecordWithoutAmount);
            },
        };
        match found.state {
            Some(state) => {
                if !state.held || state.charged_back {
                    return Ok(None);
                }
            },
            None => {
                return Ok(None);
            },
        }
        let held = match self.held(transaction_request.client_id)? {
            Some(held) => held,
            None => {
                return Ok(None);
            },
        };
        if held.less_than(&amount) {
            return Err(LedgerError::HeldFundsMissing);
        }
        Ok(Some((amount, held)))
    }

    /// Carries out a resolve.
    pub fn resolve(&mut self, transaction_request: TransactionRequest) -> (r: Result<
        bool,
        LedgerError,
    >)
        ensures
            final(self).reliable() == old(self).reliable(),
            carried_out(
                old(self).ledger(),
                decide_resolve(old(self).ledger(), transaction_request@),
                old(self).reliable(),
                r,
                final(self).ledger(),
            ),
    {
        let ghost before = self.ledger();
        let ghost writes = decide_resolve(before, transaction_request@).writes;
        if !matches!(transaction_request.transaction_type, TransactionType::Resolve)
            || !Self::has_no_amount(&transaction_request) {
            return Err(LedgerError::InvalidRequest);
        }
        assert(before.perform_first(writes, 0) == before);
        let existing = match self.available(transaction_request.client_id)? {
            Some(existing) => existing,
            None => Amount::zero(),
        };
        let (amount, existing_held) = match self.release(&transaction_request)? {
            Some(found) => found,
            None => {
                return Ok(false);
            },
        };
        let available = match existing.checked_add(amount) {
            Some(available) => available,
            None => {
                return Err(LedgerError::AmountOutOfRange);
            },
        };
        let held = match existing_held.checked_sub(amount) {
            Some(held) => held,
            None => {
                return Err(LedgerError::AmountOutOfRange);
            },
        };
        match self.customer_account_provider.set_available(
            transaction_request.client_id,
            available,
        ) {
            Ok(()) => {},
            Err(text) => {
                return Err(LedgerError::Store(text));
            },
        }
        assert(self.ledger() == before.perform_first(writes, 1));
        match self.customer_account_provider.set_held_amount(transaction_request.client_id, held) {
            Ok(()) => {},
            Err(text) => {
                return Err(LedgerError::Store(text));
            },
        }
        assert(self.ledger() == before.perform_first(writes, 2));
        let state = TransactionState { held: false, charged_back: false };
        match self.transaction_history_provider.write_transaction_state(
            transaction_request.transaction_id,
            state,
        ) {
            Ok(()) => {},
            Err(text) => {
                return Err(LedgerError::Store(text));
            },
        }
        assert(self.ledger() == before.perform_first(writes, 3));
        Ok(true)
    }

    /// Carries out a chargeback.
    pub fn chargeback(&mut self, transaction_request: TransactionRequest) -> (r: Result<
        bool,
        LedgerError,
    >)
        ensures
            final(self).reliable() == old(self).reliable(),
            carried_out(
                old(self).ledger(),
                decide_chargeback(old(self).ledger(), transaction_request@),
                old(self).reliable(),
                r,
                final(self).ledger(),
            ),
    {
        let ghost before = self.ledger();
        let ghost writes = decide_chargeback(before, transaction_request@).writes;
        if !matches!(transaction_request.transaction_type, TransactionType::Chargeback)
            || !Self::has_no_amount(&transaction_request) {
            return Err(LedgerError::InvalidRequest);
        }
        assert(before.perform_first(writes, 0) == before);
        let (amount, existing_held) = match self.release(&transaction_request)? {
            Some(found) => found,
            None => {
                return Ok(false);
            },
        };
        let held = match existing_held.checked_sub(amount) {
            Some(held) => held,
            None => {
                return Err(LedgerError::AmountOutOfRange);
            },
        };
        match self.customer_account_provider.set_held_amount(transaction_request.client_id, held) {
            Ok(()) => {},
            Err(text) => {
                return Err(LedgerError::Store(text));
            },
        }
        assert(self.ledger() == before.perform_first(writes, 1));
        match self.customer_account_provider.set_locked_status(
            transaction_request.client_id,
            true,
        ) {
            Ok(()) => {},
            Err(text) => {
                return Err(LedgerError::Store(text));
            },
        }
        assert(self.ledger() == before.perform_first(writes, 2));
        let state = TransactionState { held: false, charged_back: true };
        match self.transaction_history_provider.write_transaction_state(
            transaction_request.transaction_id,
            state,
        ) {
            Ok(()) => {},
            Err(text) => {
                return Err(LedgerError::Store(text));
            },
        }
        assert(self.ledger() == before.perform_first(writes, 3));
        Ok(true)
    }

    fn has_positive_amount(transaction_request: &TransactionRequest) -> (r: bool)
        ensures
            r == (transaction_request@.amount matches Some(amount) && amount > 0),
    {
        match transaction_request.amount {
            Some(amount) => amount.is_positive(),
            None => false,
        }
    }

    fn has_no_amount(transaction_request: &TransactionRequest) -> (r: bool)
        ensures
            r == (transaction_request@.amount is None),
    {
        transaction_request.amount.is_none()
    }
}

impl<H, A> TransactionsManager for DefaultTransactionsManager<H, A> where
    H: TransactionHistoryProvider,
    A: CustomerAccountProvider,
 {
    closed spec fn ledger(&self) -> Ledger {
        Ledger {
            accounts: self.customer_account_provider.accounts(),
            order: self.customer_account_provider.order(),
            records: self.transaction_history_provider.records(),
            states: self.transaction_history_provider.states(),
        }
    }

    closed spec fn reliable(&self) -> bool {
        self.transaction_history_provider.reliable() && self.customer_account_provider.reliable()
    }

    fn structure_validation(transaction_request: &TransactionRequest) -> (r: bool) {
        match transaction_request.transaction_type {
            TransactionType::Deposit => Self::has_positive_amount(transaction_request),
            TransactionType::Withdrawal => Self::has_positive_amount(transaction_request),
            TransactionType::Dispute => Self::has_no_amount(transaction_request),
            TransactionType::Resolve => Self::has_no_amount(transaction_request),
            TransactionType::Chargeback => Self::has_no_amount(transaction_request),
        }
    }

    fn handle_transaction(&mut self, transaction_request: TransactionRequest) -> (r: Result<
        bool,
        LedgerError,
    >) {
        match transaction_request.transaction_type {
            TransactionType::Deposit => self.deposit(transaction_request),
            TransactionType::Withdrawal => self.withdraw(transaction_request),
            TransactionType::Dispute => self.dispute(transaction_request),
            TransactionType::Resolve => self.resolve(transaction_request),
            TransactionType::Chargeback => self.chargeback(transaction_request),
        }
    }

    fn report(&self) -> (r: Result<Vec<CustomerAccountReport>, String>) {
        self.customer_account_provider.list_accounts()
    }
}

} // verus!
