use payments_engine::amount::Amount;
use payments_engine::customer_account_provider::{
    CustomerAccountProvider, CustomerAccountReport, InMemoryCustomerAccountProvider,
};

/// A store with one account for `customer_id`, with the given balances.
fn provider_with_account(
    customer_id: u16,
    available: Amount,
    held: Amount,
    locked: bool,
) -> InMemoryCustomerAccountProvider {
    let mut provider = InMemoryCustomerAccountProvider::new();
    provider.set_available(customer_id, available).unwrap();
    provider.set_held_amount(customer_id, held).unwrap();
    provider.set_locked_status(customer_id, locked).unwrap();
    provider
}

#[test]
fn get_available_works_as_expected_with_existing_account() {
    let customer_id = 1;
    let available = Amount::new(10, 0);
    let mut customer_account_provider =
        provider_with_account(customer_id, available, Amount::zero(), false);
    assert_eq!(
        customer_account_provider.get_available(customer_id),
        Ok(Some(available))
    );
}

#[test]
fn get_available_works_as_expected_with_missing_account() {
    let customer_id = 1;
    let mut customer_account_provider = InMemoryCustomerAccountProvider::new();
    assert_eq!(
        customer_account_provider.get_available(customer_id),
        Ok(None)
    );
}

#[test]
fn get_held_amount_works_as_expected_with_existing_account() {
    let customer_id = 1;
    let held = Amount::new(10, 0);
    let mut customer_account_provider =
        provider_with_account(customer_id, Amount::zero(), held, false);
    assert_eq!(
        customer_account_provider.get_held_amount(customer_id),
        Ok(Some(held))
    );
}

#[test]
fn get_held_amount_works_as_expected_with_missing_account() {
    let customer_id = 1;
    let mut customer_account_provider = InMemoryCustomerAccountProvider::new();
    assert_eq!(
        customer_account_provider.get_held_amount(customer_id),
        Ok(None)
    );
}

#[test]
fn get_locked_status_works_as_expected_with_existing_account() {
    let customer_id = 1;
    let locked = false;
    let mut customer_account_provider =
        provider_with_account(customer_id, Amount::zero(), Amount::zero(), locked);
    assert_eq!(
        customer_account_provider.get_locked_status(customer_id),
        Ok(Some(locked))
    );
}

#[test]
fn get_locked_status_works_as_expected_with_missing_account() {
    let customer_id = 1;
    let mut customer_account_provider = InMemoryCustomerAccountProvider::new();
    assert_eq!(
        customer_account_provider.get_locked_status(customer_id),
        Ok(None)
    );
}

#[test]
fn set_available_works_as_expected() {
    let customer_id = 1;
    let balance = Amount::new(10, 0);
    let mut customer_account_provider = InMemoryCustomerAccountProvider::new();
    assert!(customer_account_provider
        .set_available(customer_id, balance)
        .is_ok());
    assert_eq!(
        customer_account_provider.get_available(customer_id),
        Ok(Some(balance))
    );
}

#[test]
fn set_available_opens_an_unlocked_account_that_holds_nothing() {
    let mut customer_account_provider = InMemoryCustomerAccountProvider::new();
    customer_account_provider
        .set_available(7, Amount::new(125, 2))
        .unwrap();
    assert_eq!(
        customer_account_provider.get_held_amount(7),
        Ok(Some(Amount::zero()))
    );
    assert_eq!(customer_account_provider.get_locked_status(7), Ok(Some(false)));
}

#[test]
fn set_available_keeps_what_is_held_and_the_lock() {
    let mut customer_account_provider =
        provider_with_account(3, Amount::new(1, 0), Amount::new(2, 0), true);
    customer_account_provider
        .set_available(3, Amount::new(-5, 1))
        .unwrap();
    assert_eq!(
        customer_account_provider.get_available(3),
        Ok(Some(Amount::new(-5, 1)))
    );
    assert_eq!(
        customer_account_provider.get_held_amount(3),
        Ok(Some(Amount::new(2, 0)))
    );
    assert_eq!(customer_account_provider.get_locked_status(3), Ok(Some(true)));
}

#[test]
fn set_held_amount_works_as_expected() {
    let customer_id = 1;
    let balance = Amount::new(10, 0);
    let mut customer_account_provider = InMemoryCustomerAccountProvider::new();
    customer_account_provider
        .set_available(customer_id, Amount::new(10, 0))
        .expect("Couldn't create the account");
    assert!(customer_account_provider
        .set_held_amount(customer_id, balance)
        .is_ok());
    assert_eq!(
        customer_account_provider.get_held_amount(customer_id),
        Ok(Some(balance))
    );
}

#[test]
fn set_held_amount_fails_when_no_account_found() {
    let customer_id = 1;
    let balance = Amount::new(10, 0);
    let mut customer_account_provider = InMemoryCustomerAccountProvider::new();
    assert!(customer_account_provider
        .set_held_amount(customer_id, balance)
        .is_err());
    assert_eq!(
        customer_account_provider.get_held_amount(customer_id),
        Ok(None)
    );
    assert_eq!(customer_account_provider.list_accounts(), Ok(vec![]));
}

#[test]
fn set_locked_status_works_as_expected() {
    let customer_id = 1;
    let locked = true;
    let mut customer_account_provider = InMemoryCustomerAccountProvider::new();
    customer_account_provider
        .set_available(customer_id, Amount::new(10, 0))
        .expect("Couldn't create the account");
    assert!(customer_account_provider
        .set_locked_status(customer_id, locked)
        .is_ok());
    assert_eq!(
        customer_account_provider.get_locked_status(customer_id),
        Ok(Some(locked))
    );
}

#[test]
fn set_locked_status_fails_when_no_account_found() {
    let customer_id = 1;
    let mut customer_account_provider = InMemoryCustomerAccountProvider::new();
    assert!(customer_account_provider
        .set_locked_status(customer_id, true)
        .is_err());
    assert_eq!(
        customer_account_provider.get_locked_status(customer_id),
        Ok(None)
    );
    assert_eq!(customer_account_provider.list_accounts(), Ok(vec![]));
}

#[test]
fn list_accounts_works_as_expected() {
    let mut customer_account_provider = InMemoryCustomerAccountProvider::new();
    customer_account_provider
        .set_available(1, Amount::new(10, 0))
        .unwrap();
    customer_account_provider
        .set_available(2, Amount::new(11, 0))
        .unwrap();
    customer_account_provider
        .set_held_amount(2, Amount::new(12, 0))
        .unwrap();
    let accounts = customer_account_provider.list_accounts();
    let expected_accounts = vec![
        CustomerAccountReport {
            client: 1,
            available: Amount::new(10, 0),
            held: Amount::new(0, 0),
            total: Amount::new(10, 0),
            locked: false,
        },
        CustomerAccountReport {
            client: 2,
            available: Amount::new(11, 0),
            held: Amount::new(12, 0),
            total: Amount::new(23, 0),
            locked: false,
        },
    ];
    assert!(accounts.is_ok());
    let accounts = accounts.unwrap();
    assert!(expected_accounts.len() == accounts.len());
    assert!(expected_accounts
        .iter()
        .all(|account| accounts.contains(account)));
}

#[test]
fn list_accounts_keeps_the_order_in_which_accounts_were_opened() {
    let mut customer_account_provider = InMemoryCustomerAccountProvider::new();
    for client in [40u16, 7, 65535, 0, 12] {
        customer_account_provider
            .set_available(client, Amount::new(client as i64, 0))
            .unwrap();
    }
    customer_account_provider
        .set_available(7, Amount::new(70, 0))
        .unwrap();
    customer_account_provider
        .set_held_amount(40, Amount::new(1, 0))
        .unwrap();
    let accounts = customer_account_provider.list_accounts().unwrap();
    let clients: Vec<u16> = accounts.iter().map(|account| account.client).collect();
    assert_eq!(clients, vec![40, 7, 65535, 0, 12]);
    assert_eq!(accounts[1].available, Amount::new(70, 0));
    assert_eq!(accounts[0].total, Amount::new(41, 0));
}

#[test]
fn list_accounts_totals_are_available_plus_held() {
    let mut customer_account_provider = InMemoryCustomerAccountProvider::new();
    customer_account_provider
        .set_available(1, Amount::new(-12345, 4))
        .unwrap();
    customer_account_provider
        .set_held_amount(1, Amount::new(25, 1))
        .unwrap();
    let accounts = customer_account_provider.list_accounts().unwrap();
    assert_eq!(accounts.len(), 1);
    assert_eq!(accounts[0].total, Amount::new(12655, 4));
    assert_eq!(
        accounts[0].available.checked_add(accounts[0].held),
        Some(accounts[0].total)
    );
    assert!(accounts[0].total.scale() <= 4);
}

#[test]
fn list_accounts_fails_where_a_total_is_out_of_range() {
    let limit = Amount::from_parts(10_000_000_000_000_000_000_000_000_000, 4).unwrap();
    let mut customer_account_provider = InMemoryCustomerAccountProvider::new();
    customer_account_provider.set_available(1, limit).unwrap();
    assert_eq!(
        customer_account_provider
            .list_accounts()
            .map(|accounts| accounts.len()),
        Ok(1)
    );
    customer_account_provider
        .set_held_amount(1, Amount::new(1, 4))
        .unwrap();
    assert!(customer_account_provider.list_accounts().is_err());
}
