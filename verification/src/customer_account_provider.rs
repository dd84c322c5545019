//! The accounts of the customers: available funds, held funds and a lock.

use crate::amount::{in_range, Amount};
use crate::common_types::CustomerId;
use crate::ledger::{
    lemma_new_customer_comes_last, with_available, with_held, with_locked, with_opened,
    AccountView,
};
use std::collections::HashMap;
use vstd::prelude::*;

verus! {

broadcast use vstd::std_specs::hash::group_hash_axioms;

/// One line of the report: an account with its total.
#[derive(Debug, PartialEq, Eq, Clone, Copy)]
pub struct CustomerAccountReport {
    pub client: CustomerId,
    pub available: Amount,
    pub held: Amount,
    pub total: Amount,
    pub locked: bool,
}

/// Whether `report` shows the account of its client as `accounts` has it,
/// with the sum of the available and the held funds as its total.
pub open spec fn reports_account(
    report: CustomerAccountReport,
    accounts: Map<CustomerId, AccountView>,
) -> bool {
    &&& accounts.contains_key(report.client)
    &&& report.available@ == accounts[report.client].available
    &&& report.held@ == accounts[report.client].held
    &&& report.locked == accounts[report.client].locked
    &&& report.total@ == report.available@ + report.held@
}

/// Whether `reports` shows every account of `accounts` once, and nothing
/// else, in the order in which the accounts were opened.
pub open spec fn lists(
    reports: Seq<CustomerAccountReport>,
    accounts: Map<CustomerId, AccountView>,
    order: Seq<CustomerId>,
) -> bool {
    &&& reports.len() == order.len()
    &&& forall|i: int|
        0 <= i < reports.len() ==> (#[trigger] reports[i]).client == order[i] && reports_account(
            reports[i],
            accounts,
        )
    &&& forall|i: int, j: int|
        0 <= i < j < reports.len() ==> (#[trigger] reports[i]).client != (
        #[trigger] reports[j]).client
    &&& forall|client: CustomerId| #[trigger]
        accounts.contains_key(client) ==> exists|i: int|
            0 <= i < reports.len() && (#[trigger] reports[i]).client == client
}

/// Whether the total of every account is within the range of an amount.
pub open spec fn totals_in_range(accounts: Map<CustomerId, AccountView>) -> bool {
    forall|client: CustomerId| #[trigger]
        accounts.contains_key(client) ==> in_range(accounts[client].total())
}

/// A store of accounts, each under its customer's id.
///
/// A store may refuse a call, for a reason of its own, unless it is
/// reliable. A refused call changes nothing.
///
/// What a store holds is told by `accounts` and `order`, which every store
/// that holds anything defines for itself: as they stand here they tell of
/// a store that holds nothing and is not reliable.
pub trait CustomerAccountProvider {
    /// The accounts.
    open spec fn accounts(&self) -> Map<CustomerId, AccountView> {
        Map::empty()
    }

    /// The customers in the order in which their accounts were opened.
    open spec fn order(&self) -> Seq<CustomerId> {
        Seq::empty()
    }

    /// Whether this store answers with `Ok` every call that its accounts
    /// allow.
    open spec fn reliable(&self) -> bool {
        false
    }

    /// The available funds of `customer_id`; none without an account.
    fn get_available(&mut self, customer_id: CustomerId) -> (r: Result<Option<Amount>, String>)
        ensures
            final(self).reliable() == old(self).reliable(),
            old(self).reliable() ==> r is Ok,
            final(self).accounts() == old(self).accounts(),
            final(self).order() == old(self).order(),
            r matches Ok(found) ==> match found {
                Some(amount) => old(self).accounts().contains_key(customer_id) && amount@ == old(
                    self,
                ).accounts()[customer_id].available,
                None => !old(self).accounts().contains_key(customer_id),
            },
    ;

    /// The held funds of `customer_id`; none without an account.
    fn get_held_amount(&mut self, customer_id: CustomerId) -> (r: Result<Option<Amount>, String>)
        ensures
            final(self).reliable() == old(self).reliable(),
            old(self).reliable() ==> r is Ok,
            final(self).accounts() == old(self).accounts(),
            final(self).order() == old(self).order(),
            r matches Ok(found) ==> match found {
                Some(amount) => old(self).accounts().contains_key(customer_id) && amount@ == old(
                    self,
                ).accounts()[customer_id].held,
                None => !old(self).accounts().contains_key(customer_id),
            },
    ;

    /// Whether the account of `customer_id` is locked; none without an
    /// account.
    fn get_locked_status(&mut self, customer_id: CustomerId) -> (r: Result<Option<bool>, String>)
        ensures
            final(self).reliable() == old(self).reliable(),
            old(self).reliable() ==> r is Ok,
            final(self).accounts() == old(self).accounts(),
            final(self).order() == old(self).order(),
            r matches Ok(found) ==> match found {
                Some(locked) => old(self).accounts().contains_key(customer_id) && locked == old(
                    self,
                ).accounts()[customer_id].locked,
                None => !old(self).accounts().contains_key(customer_id),
            },
    ;

    /// Sets the available funds of `customer_id`, opening the account if it
    /// is missing.
    fn set_available(&mut self, customer_id: CustomerId, balance: Amount) -> (r: Result<
        (),
        String,
    >)
        ensures
            final(self).reliable() == old(self).reliable(),
            old(self).reliable() ==> r is Ok,
            r is Ok ==> final(self).accounts() == with_available(
                old(self).accounts(),
                customer_id,
                balance@,
            ) && final(self).order() == with_opened(
                old(self).accounts(),
                old(self).order(),
                customer_id,
            ),
            r is Err ==> final(self).accounts() == old(self).accounts() && final(self).order()
                == old(self).order(),
    ;

    /// Sets the held funds of `customer_id`. Without an account this is an
    /// error.
    fn set_held_amount(&mut self, customer_id: CustomerId, balance: Amount) -> (r: Result<
        (),
        String,
    >)
        ensures
            final(self).reliable() == old(self).reliable(),
            old(self).reliable() ==> (r is Ok <==> old(self).accounts().contains_key(customer_id)),
            final(self).order() == old(self).order(),
            r is Ok ==> old(self).accounts().contains_key(customer_id) && final(self).accounts()
                == with_held(old(self).accounts(), customer_id, balance@),
            r is Err ==> final(self).accounts() == old(self).accounts(),
    ;

    /// Locks or unlocks the account of `customer_id`. Without an account
    /// this is an error.
    fn set_locked_status(&mut self, customer_id: CustomerId, locked: bool) -> (r: Result<
        (),
        String,
    >)
        ensures
            final(self).reliable() == old(self).reliable(),
            old(self).reliable() ==> (r is Ok <==> old(self).accounts().contains_key(customer_id)),
            final(self).order() == old(self).order(),
            r is Ok ==> old(self).accounts().contains_key(customer_id) && final(self).accounts()
                == with_locked(old(self).accounts(), customer_id, locked),
            r is Err ==> final(self).accounts() == old(self).accounts(),
    ;

    /// Every account once, each with its total, in the order in which the
    /// accounts were opened. Where a total is out of the range of an amount
    /// this is an error.
    fn list_accounts(&self) -> (r: Result<Vec<CustomerAccountReport>, String>)
        ensures
            self.reliable() ==> (r is Ok <==> totals_in_range(self.accounts())),
            r matches Ok(reports) ==> lists(reports@, self.accounts(), self.order()),
    ;
}

/// An account as the store in memory keeps it.
#[derive(Clone, Copy)]
struct CustomerAccount {
    available: Amount,
    held: Amount,
    locked: bool,
}

impl View for CustomerAccount {
    type V = AccountView;

    closed spec fn view(&self) -> AccountView {
        AccountView { available: self.available@, held: self.held@, locked: self.locked }
    }
}

impl CustomerAccount {
    fn new(available: Amount, held: Amount, locked: bool) -> (r: Self)
        ensures
            r@ == (AccountView { available: available@, held: held@, locked }),
    {
        CustomerAccount { available, held, locked }
    }
}

/// The accounts by customer, and the customers in the order in which their
/// accounts were opened.
struct AccountTable {
    storage: HashMap<CustomerId, CustomerAccount>,
    order: Vec<CustomerId>,
}

impl AccountTable {
    /// Every customer with an account stands in the order once, and nobody
    /// else.
    spec fn consistent(self) -> bool {
        &&& self.order@.no_duplicates()
        &&& forall|client: CustomerId|
            self.storage@.contains_key(client) <==> self.order@.contains(client)
    }

    spec fn accounts(self) -> Map<CustomerId, AccountView> {
        self.storage@.map_values(|account: CustomerAccount| account@)
    }

    fn new() -> (r: Self)
        ensures
            r.consistent(),
            r.storage@ == Map::<CustomerId, CustomerAccount>::empty(),
            r.order@ == Seq::<CustomerId>::empty(),
    {
        AccountTable { storage: HashMap::new(), order: Vec::new() }
    }

    /// Puts `account` under `client`, at the end of the order if the client
    /// is new.
    fn put(&mut self, client: CustomerId, account: CustomerAccount)
        requires
            old(self).consistent(),
        ensures
            final(self).consistent(),
            final(self).storage@ == old(self).storage@.insert(client, account),
            final(self).order@ == if old(self).storage@.contains_key(client) {
                old(self).order@
            } else {
                old(self).order@.push(client)
            },
    {
        let is_new = !self.storage.contains_key(&client);
        self.storage.insert(client, account);
        if is_new {
            self.order.push(client);
            proof {
                lemma_new_customer_comes_last(old(self).order@, client);
            }
        }
        assert forall|other: CustomerId|
            self.storage@.contains_key(other) <==> self.order@.contains(other) by {
            assert(old(self).storage@.contains_key(other) <==> old(self).order@.contains(other));
        }
    }
}

/// A store of accounts kept in memory. It is reliable.
pub struct InMemoryCustomerAccountProvider {
    table: AccountTable,
}

impl InMemoryCustomerAccountProvider {
    #[verifier::type_invariant]
    spec fn well_formed(self) -> bool {
        self.table.consistent()
    }

    /// A store without accounts.
    pub fn new() -> (r: Self)
        ensures
            r.accounts() == Map::<CustomerId, AccountView>::empty(),
            r.order() == Seq::<CustomerId>::empty(),
            r.reliable(),
    {
        let r = InMemoryCustomerAccountProvider { table: AccountTable::new() };
        assert(r.accounts() =~= Map::<CustomerId, AccountView>::empty());
        r
    }

    /// Puts `account` under `client`.
    fn put(&mut self, client: CustomerId, account: CustomerAccount)
        ensures
            final(self).table.storage@ == old(self).table.storage@.insert(client, account),
            final(self).table.order@ == if old(self).table.storage@.contains_key(client) {
                old(self).table.order@
            } else {
                old(self).table.order@.push(client)
            },
    {
        proof {
            use_type_invariant(&*self);
        }
        let mut table = AccountTable::new();
        std::mem::swap(&mut table, &mut self.table);
        table.put(client, account);
        self.table = table;
    }
}

impl CustomerAccountProvider for InMemoryCustomerAccountProvider {
    closed spec fn accounts(&self) -> Map<CustomerId, AccountView> {
        self.table.accounts()
    }

    closed spec fn order(&self) -> Seq<CustomerId> {
        self.table.order@
    }

    closed spec fn reliable(&self) -> bool {
        true
    }

    fn get_available(&mut self, customer_id: CustomerId) -> (r: Result<Option<Amount>, String>)
        ensures
            r is Ok,
    {
        match self.table.storage.get(&customer_id) {
            Some(account) => Ok(Some(account.available)),
            None => Ok(None),
        }
    }

    fn get_held_amount(&mut self, customer_id: CustomerId) -> (r: Result<Option<Amount>, String>)
        ensures
            r is Ok,
    {
        match self.table.storage.get(&customer_id) {
            Some(account) => Ok(Some(account.held)),
            None => Ok(None),
        }
    }

    fn get_locked_status(&mut self, customer_id: CustomerId) -> (r: Result<Option<bool>, String>)
        ensures
            r is Ok,
    {
        match self.table.storage.get(&customer_id) {
            Some(account) => Ok(Some(account.locked)),
            None => Ok(None),
        }
    }

    fn set_available(&mut self, customer_id: CustomerId, balance: Amount) -> (r: Result<
        (),
        String,
    >)
        ensures
            r is Ok,
    {
        let account = match self.table.storage.get(&customer_id) {
            Some(account) => CustomerAccount::new(balance, account.held, account.locked),
            None => CustomerAccount::new(balance, Amount::zero(), false),
        };
        self.put(customer_id, account);
        assert(self.accounts() =~= with_available(old(self).accounts(), customer_id, balance@));
        Ok(())
    }

    fn set_held_amount(&mut self, customer_id: CustomerId, balance: Amount) -> (r: Result<
        (),
        String,
    >)
        ensures
            r is Ok <==> old(self).accounts().contains_key(customer_id),
    {
        let account = match self.table.storage.get(&customer_id) {
            Some(account) => CustomerAccount::new(account.available, balance, account.locked),
            None => {
                return Err("putting an amount on hold on a missing account".to_owned());
            },
        };
        self.put(customer_id, account);
        assert(self.accounts() =~= with_held(old(self).accounts(), customer_id, balance@));
        Ok(())
    }

    fn set_locked_status(&mut self, customer_id: CustomerId, locked: bool) -> (r: Result<
        (),
        String,
    >)
        ensures
            r is Ok <==> old(self).accounts().contains_key(customer_id),
    {
        let account = match self.table.storage.get(&customer_id) {
            Some(account) => CustomerAccount::new(account.available, account.held, locked),
            None => {
                return Err("locking a missing account".to_owned());
            },
        };
        self.put(customer_id, account);
        assert(self.accounts() =~= with_locked(old(self).accounts(), customer_id, locked));
        Ok(())
    }

    fn list_accounts(&self) -> (r: Result<Vec<CustomerAccountReport>, String>)
        ensures
            r is Ok <==> totals_in_range(self.accounts()),
    {
        proof {
            use_type_invariant(self);
        }
        let mut reports: Vec<CustomerAccountReport> = Vec::new();
        let mut i: usize = 0;
        while i < self.table.order.len()
            invariant
                self.table.consistent(),
                0 <= i <= self.table.order@.len(),
                reports@.len() == i,
                forall|j: int|
                    0 <= j < i ==> reports_account(#[trigger] reports@[j], self.accounts())
                        && reports@[j].client == self.table.order@[j] && in_range(
                        reports@[j].total@,
                    ),
            decreases self.table.order@.len() - i,
        {
            let client = self.table.order[i];
            assert(self.table.order@.contains(client));
            if let Some(account) = self.table.storage.get(&client) {
                let total = match account.available.checked_add(account.held) {
                    Some(total) => total,
                    None => {
                        assert(self.accounts().contains_key(client));
                        assert(!in_range(self.accounts()[client].total()));
                        return Err("the total of an account is out of range".to_owned());
                    },
                };
                reports.push(
                    CustomerAccountReport {
                        client,
                        available: account.available,
                        held: account.held,
                        total,
                        locked: account.locked,
                    },
                );
            }
            i += 1;
        }
        proof {
            assert forall|client: CustomerId| #[trigger]
                self.accounts().contains_key(client) implies exists|k: int|
                0 <= k < reports@.len() && (#[trigger] reports@[k]).client == client by {
                assert(self.table.order@.contains(client));
                let k = choose|k: int|
                    0 <= k < self.table.order@.len() && self.table.order@[k] == client;
                assert(reports@[k].client == client);
            }
            assert forall|client: CustomerId| #[trigger]
                self.accounts().contains_key(client) implies in_range(
                self.accounts()[client].total(),
            ) by {
                assert(self.table.order@.contains(client));
                let k = choose|k: int|
                    0 <= k < self.table.order@.len() && self.table.order@[k] == client;
                assert(reports_account(reports@[k], self.accounts()));
            }
        }
        Ok(reports)
    }
}

} // verus!
