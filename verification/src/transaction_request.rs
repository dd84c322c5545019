//! Transaction requests and the dispute state of a recorded transaction.

use crate::amount::Amount;
use crate::common_types::{CustomerId, TransactionId};
use vstd::prelude::*;

verus! {

/// The five kinds of request that the ledger understands.
#[derive(Debug, PartialEq, Eq, Clone, Copy, Structural)]
pub enum TransactionType {
    Deposit,
    Withdrawal,
    Dispute,
    Resolve,
    Chargeback,
}

/// A request as it reaches the ledger, and as the history keeps it.
#[derive(Debug, PartialEq, Eq, Clone, Copy)]
pub struct TransactionRequest {
    pub transaction_type: TransactionType,
    pub client_id: CustomerId,
    pub transaction_id: TransactionId,
    pub amount: Option<Amount>,
}

/// A request with its amount in ten-thousandths.
pub struct RequestView {
    pub transaction_type: TransactionType,
    pub client_id: CustomerId,
    pub transaction_id: TransactionId,
    pub amount: Option<int>,
}

impl View for TransactionRequest {
    type V = RequestView;

    open spec fn view(&self) -> RequestView {
        RequestView {
            transaction_type: self.transaction_type,
            client_id: self.client_id,
            transaction_id: self.transaction_id,
            amount: match self.amount {
                Some(amount) => Some(amount@),
                None => None,
            },
        }
    }
}

/// Where a recorded transaction stands in the dispute lifecycle.
#[derive(Debug, PartialEq, Eq, Clone, Copy, Structural)]
pub struct TransactionState {
    /// The transaction's funds are held by an open dispute.
    pub held: bool,
    /// The transaction was charged back; this is never undone.
    pub charged_back: bool,
}

impl Default for TransactionState {
    fn default() -> (r: TransactionState)
        ensures
            r == (TransactionState { held: false, charged_back: false }),
    {
        TransactionState { held: false, charged_back: false }
    }
}

} // verus!
