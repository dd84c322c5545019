//! The history of recorded transactions and their dispute states.

use crate::common_types::TransactionId;
use crate::transaction_request::{RequestView, TransactionRequest, TransactionState};
use std::collections::HashMap;
use vstd::prelude::*;

verus! {

broadcast use vstd::std_specs::hash::group_hash_axioms;

/// A store of recorded requests, each under its transaction id, with a side
/// table of dispute states.
///
/// A store may refuse a call, for a reason of its own, unless it is
/// reliable. A refused call changes nothing.
///
/// What a store holds is told by `records` and `states`, which every store
/// that holds anything defines for itself: as they stand here they tell of
/// a store that holds nothing and is not reliable.
pub trait TransactionHistoryProvider {
    /// The recorded requests.
    open spec fn records(&self) -> Map<TransactionId, RequestView> {
        Map::empty()
    }

    /// The dispute states.
    open spec fn states(&self) -> Map<TransactionId, TransactionState> {
        Map::empty()
    }

    /// Whether this store answers every call with `Ok`.
    open spec fn reliable(&self) -> bool {
        false
    }

    /// Records a request under its transaction id, in place of what was
    /// recorded there.
    fn write_transaction(&mut self, transaction_request: TransactionRequest) -> (r: Result<
        (),
        String,
    >)
        ensures
            final(self).reliable() == old(self).reliable(),
            old(self).reliable() ==> r is Ok,
            final(self).states() == old(self).states(),
            r is Ok ==> final(self).records() == old(self).records().insert(
                transaction_request.transaction_id,
                transaction_request@,
            ),
            r is Err ==> final(self).records() == old(self).records(),
    ;

    /// The request recorded under `transaction_id`, if there is one.
    fn read_transaction<'a>(&'a mut self, transaction_id: TransactionId) -> (r: Result<
        Option<&'a TransactionRequest>,
        String,
    >)
        ensures
            final(self).reliable() == old(self).reliable(),
            old(self).reliable() ==> r is Ok,
            final(self).records() == old(self).records(),
            final(self).states() == old(self).states(),
            r matches Ok(found) ==> match found {
                Some(request) => old(self).records().contains_key(transaction_id) && old(
                    self,
                ).records()[transaction_id] == request@,
                None => !old(self).records().contains_key(transaction_id),
            },
    ;

    /// Sets the dispute state of `transaction_id`.
    fn write_transaction_state(
        &mut self,
        transaction_id: TransactionId,
        transaction_state: TransactionState,
    ) -> (r: Result<(), String>)
        ensures
            final(self).reliable() == old(self).reliable(),
            old(self).reliable() ==> r is Ok,
            final(self).records() == old(self).records(),
            r is Ok ==> final(self).states() == old(self).states().insert(
                transaction_id,
                transaction_state,
            ),
            r is Err ==> final(self).states() == old(self).states(),
    ;

    /// The dispute state of `transaction_id`; none if it was never disputed.
    fn read_transaction_state<'a>(&'a mut self, transaction_id: TransactionId) -> (r: Result<
        Option<&'a TransactionState>,
        String,
    >)
        ensures
            final(self).reliable() == old(self).reliable(),
            old(self).reliable() ==> r is Ok,
            final(self).records() == old(self).records(),
            final(self).states() == old(self).states(),
            r matches Ok(found) ==> match found {
                Some(state) => old(self).states().contains_key(transaction_id) && old(
                    self,
                ).states()[transaction_id] == *state,
                None => !old(self).states().contains_key(transaction_id),
            },
    ;
}

/// A history kept in memory. It is reliable.
pub struct InMemoryTransactionHistoryProvider {
    history: HashMap<TransactionId, TransactionRequest>,
    state: HashMap<TransactionId, TransactionState>,
}

impl InMemoryTransactionHistoryProvider {
    /// An empty history.
    pub fn new() -> (r: Self)
        ensures
            r.records() == Map::<TransactionId, RequestView>::empty(),
            r.states() == Map::<TransactionId, TransactionState>::empty(),
            r.reliable(),
    {
        let r = InMemoryTransactionHistoryProvider {
            history: HashMap::new(),
            state: HashMap::new(),
        };
        assert(r.records() =~= Map::<TransactionId, RequestView>::empty());
        r
    }
}

impl TransactionHistoryProvider for InMemoryTransactionHistoryProvider {
    closed spec fn records(&self) -> Map<TransactionId, RequestView> {
        self.history@.map_values(|request: TransactionRequest| request@)
    }

    closed spec fn states(&self) -> Map<TransactionId, TransactionState> {
        self.state@
    }

    closed spec fn reliable(&self) -> bool {
        true
    }

    fn write_transaction(&mut self, transaction_request: TransactionRequest) -> (r: Result<
        (),
        String,
    >)
        ensures
            r is Ok,
    {
        self.history.insert(transaction_request.transaction_id, transaction_request);
        assert(self.records() =~= old(self).records().insert(
            transaction_request.transaction_id,
            transaction_request@,
        ));
        Ok(())
    }

    fn read_transaction<'a>(&'a mut self, transaction_id: TransactionId) -> (r: Result<
        Option<&'a TransactionRequest>,
        String,
    >)
        ensures
            r is Ok,
    {
        Ok(self.history.get(&transaction_id))
    }

    fn write_transaction_state(
        &mut self,
        transaction_id: TransactionId,
        transaction_state: TransactionState,
    ) -> (r: Result<(), String>)
        ensures
            r is Ok,
    {
        self.state.insert(transaction_id, transaction_state);
        Ok(())
    }

    fn read_transaction_state<'a>(&'a mut self, transaction_id: TransactionId) -> (r: Result<
        Option<&'a TransactionState>,
        String,
    >)
        ensures
            r is Ok,
    {
        Ok(self.state.get(&transaction_id))
    }
}

} // verus!
