use vstd::prelude::*;

verus! {

/// Identity of a customer.
pub type CustomerId = u16;

/// Identity of a submitted transaction.
pub type TransactionId = u32;

} // verus!
