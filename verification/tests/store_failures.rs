use payments_engine::amount::Amount;
use payments_engine::customer_account_provider::{
    CustomerAccountProvider, CustomerAccountReport, InMemoryCustomerAccountProvider,
};
use payments_engine::ledger::LedgerError;
use payments_engine::transaction_history_provider::{
    InMemoryTransactionHistoryProvider, TransactionHistoryProvider,
};
use payments_engine::transaction_request::{TransactionRequest, TransactionState, TransactionType};
use payments_engine::transactions_manager::{DefaultTransactionsManager, TransactionsManager};

/// A history in memory that refuses the call with the given number,
/// counted from one, and every call after it.
struct FailingHistory {
    inner: InMemoryTransactionHistoryProvider,
    calls: usize,
    fails_from: usize,
}

impl FailingHistory {
    fn new(fails_from: usize) -> Self {
        FailingHistory {
            inner: InMemoryTransactionHistoryProvider::new(),
            calls: 0,
            fails_from,
        }
    }

    fn refuses(&mut self) -> bool {
        self.calls += 1;
        self.calls >= self.fails_from
    }
}

impl TransactionHistoryProvider for FailingHistory {
    fn write_transaction(&mut self, transaction_request: TransactionRequest) -> Result<(), String> {
        if self.refuses() {
            return Err(String::from("history is away"));
        }
        self.inner.write_transaction(transaction_request)
    }

    fn read_transaction<'a>(
        &'a mut self,
        transaction_id: u32,
    ) -> Result<Option<&'a TransactionRequest>, String> {
        if self.refuses() {
            return Err(String::from("history is away"));
        }
        self.inner.read_transaction(transaction_id)
    }

    fn write_transaction_state(
        &mut self,
        transaction_id: u32,
        transaction_state: TransactionState,
    ) -> Result<(), String> {
        if self.refuses() {
            return Err(String::from("history is away"));
        }
        self.inner
            .write_transaction_state(transaction_id, transaction_state)
    }

    fn read_transaction_state<'a>(
        &'a mut self,
        transaction_id: u32,
    ) -> Result<Option<&'a TransactionState>, String> {
        if self.refuses() {
            return Err(String::from("history is away"));
        }
        self.inner.read_transaction_state(transaction_id)
    }
}

/// A store of accounts in memory that refuses the call with the given
/// number, counted from one, and every call after it.
struct FailingAccounts {
    inner: InMemoryCustomerAccountProvider,
    calls: usize,
    fails_from: usize,
}

impl FailingAccounts {
    fn new(fails_from: usize) -> Self {
        FailingAccounts {
            inner: InMemoryCustomerAccountProvider::new(),
            calls: 0,
            fails_from,
        }
    }

    fn refuses(&mut self) -> bool {
        self.calls += 1;
        self.calls >= self.fails_from
    }
}

impl CustomerAccountProvider for FailingAccounts {
    fn get_available(&mut self, customer_id: u16) -> Result<Option<Amount>, String> {
        if self.refuses() {
            return Err(String::from("accounts are away"));
        }
        self.inner.get_available(customer_id)
    }

    fn get_held_amount(&mut self, customer_id: u16) -> Result<Option<Amount>, String> {
        if self.refuses() {
            return Err(String::from("accounts are away"));
        }
        self.inner.get_held_amount(customer_id)
    }

    fn get_locked_status(&mut self, customer_id: u16) -> Result<Option<bool>, String> {
        if self.refuses() {
            return Err(String::from("accounts are away"));
        }
        self.inner.get_locked_status(customer_id)
    }

    fn set_available(&mut self, customer_id: u16, balance: Amount) -> Result<(), String> {
        if self.refuses() {
            return Err(String::from("accounts are away"));
        }
        self.inner.set_available(customer_id, balance)
    }

    fn set_held_amount(&mut self, customer_id: u16, balance: Amount) -> Result<(), String> {
        if self.refuses() {
            return Err(String::from("accounts are away"));
        }
        self.inner.set_held_amount(customer_id, balance)
    }

    fn set_locked_status(&mut self, customer_id: u16, locked: bool) -> Result<(), String> {
        if self.refuses() {
            return Err(String::from("accounts are away"));
        }
        self.inner.set_locked_status(customer_id, locked)
    }

    fn list_accounts(&self) -> Result<Vec<CustomerAccountReport>, String> {
        self.inner.list_accounts()
    }
}

fn deposit(client_id: u16, transaction_id: u32, amount: Amount) -> TransactionRequest {
    TransactionRequest {
        transaction_type: TransactionType::Deposit,
        client_id,
        transaction_id,
        amount: Some(amount),
    }
}

fn follow_up(kind: TransactionType, client_id: u16, transaction_id: u32) -> TransactionRequest {
    TransactionRequest {
        transaction_type: kind,
        client_id,
        transaction_id,
        amount: None,
    }
}

#[test]
fn refused_read_leaves_everything_as_it_was() {
    let mut manager = DefaultTransactionsManager::new(
        FailingHistory::new(1),
        InMemoryCustomerAccountProvider::new(),
    );
    assert_eq!(
        manager.handle_transaction(deposit(1, 1, Amount::new(10, 0))),
        Err(LedgerError::Store(String::from("history is away")))
    );
    assert_eq!(manager.report(), Ok(vec![]));
    let (history, _) = manager.into_providers();
    let mut history = history.inner;
    assert_eq!(history.read_transaction(1), Ok(None));
}

#[test]
fn refused_first_write_leaves_everything_as_it_was() {
    let mut manager = DefaultTransactionsManager::new(
        InMemoryTransactionHistoryProvider::new(),
        FailingAccounts::new(2),
    );
    assert_eq!(
        manager.handle_transaction(deposit(1, 1, Amount::new(10, 0))),
        Err(LedgerError::Store(String::from("accounts are away")))
    );
    assert_eq!(manager.report(), Ok(vec![]));
    let (mut history, _) = manager.into_providers();
    assert_eq!(history.read_transaction(1), Ok(None));
}

#[test]
fn refused_second_write_leaves_the_first_made() {
    let mut manager = DefaultTransactionsManager::new(
        FailingHistory::new(2),
        InMemoryCustomerAccountProvider::new(),
    );
    assert_eq!(
        manager.handle_transaction(deposit(1, 1, Amount::new(10, 0))),
        Err(LedgerError::Store(String::from("history is away")))
    );
    assert_eq!(
        manager.report(),
        Ok(vec![CustomerAccountReport {
            client: 1,
            available: Amount::new(10, 0),
            held: Amount::zero(),
            total: Amount::new(10, 0),
            locked: false,
        }])
    );
    let (history, _) = manager.into_providers();
    let mut history = history.inner;
    assert_eq!(history.read_transaction(1), Ok(None));
}

#[test]
fn refused_last_write_of_a_dispute_leaves_the_funds_moved() {
    let mut manager = DefaultTransactionsManager::new(
        FailingHistory::new(5),
        InMemoryCustomerAccountProvider::new(),
    );
    assert_eq!(
        manager.handle_transaction(deposit(1, 1, Amount::new(10, 0))),
        Ok(true)
    );
    assert_eq!(
        manager.handle_transaction(follow_up(TransactionType::Dispute, 1, 1)),
        Err(LedgerError::Store(String::from("history is away")))
    );
    assert_eq!(
        manager.report(),
        Ok(vec![CustomerAccountReport {
            client: 1,
            available: Amount::zero(),
            held: Amount::new(10, 0),
            total: Amount::new(10, 0),
            locked: false,
        }])
    );
    let (history, _) = manager.into_providers();
    let mut history = history.inner;
    assert_eq!(history.read_transaction_state(1), Ok(None));
}

#[test]
fn refused_second_write_of_a_chargeback_leaves_the_account_unlocked() {
    let mut manager = DefaultTransactionsManager::new(
        InMemoryTransactionHistoryProvider::new(),
        FailingAccounts::new(9),
    );
    assert_eq!(
        manager.handle_transaction(deposit(1, 1, Amount::new(10, 0))),
        Ok(true)
    );
    assert_eq!(
        manager.handle_transaction(follow_up(TransactionType::Dispute, 1, 1)),
        Ok(true)
    );
    assert_eq!(
        manager.handle_transaction(follow_up(TransactionType::Chargeback, 1, 1)),
        Err(LedgerError::Store(String::from("accounts are away")))
    );
    assert_eq!(
        manager.report(),
        Ok(vec![CustomerAccountReport {
            client: 1,
            available: Amount::zero(),
            held: Amount::zero(),
            total: Amount::zero(),
            locked: false,
        }])
    );
    let (mut history, _) = manager.into_providers();
    assert_eq!(
        history.read_transaction_state(1),
        Ok(Some(&TransactionState { held: true, charged_back: false }))
    );
}
