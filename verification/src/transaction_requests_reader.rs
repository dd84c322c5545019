//! What stands between a source of records and the ledger: amounts are cut
//! to the ledger's scale before a request is made of them.

use crate::amount::{in_range, is_decimal, truncated_units, Amount};
use crate::common_types::{CustomerId, TransactionId};
use crate::decimal::LEDGER_SCALE;
use crate::transaction_request::{RequestView, TransactionRequest, TransactionType};
use vstd::prelude::*;

verus! {

/// The reader of a file of records. It holds where the file is, and how
/// many fractional digits an amount keeps.
pub struct DefaultTransactionRequestsReader {
    path: String,
    enforced_scale: u32,
}

/// What a record is made into, with its amount in ten-thousandths: the
/// amount `mantissa / 10^scale`, where there is one, is cut to `digits`
/// fractional digits.
pub open spec fn normalized(
    transaction_type: TransactionType,
    client_id: CustomerId,
    transaction_id: TransactionId,
    amount: Option<(i128, u32)>,
    digits: u32,
) -> RequestView {
    RequestView {
        transaction_type,
        client_id,
        transaction_id,
        amount: match amount {
            Some((mantissa, scale)) => Some(truncated_units(mantissa, scale, digits)),
            None => None,
        },
    }
}

/// Whether a record's amount, where there is one, can be cut to `digits`
/// fractional digits and held by the ledger.
pub open spec fn normalizable(amount: Option<(i128, u32)>, digits: u32) -> bool {
    match amount {
        Some((mantissa, scale)) => digits <= LEDGER_SCALE && is_decimal(mantissa, scale)
            && in_range(truncated_units(mantissa, scale, digits)),
        None => true,
    }
}

impl DefaultTransactionRequestsReader {
    /// Where the records are read from.
    pub closed spec fn spec_path(&self) -> Seq<char> {
        self.path@
    }

    /// How many fractional digits an amount keeps.
    pub closed spec fn spec_enforced_scale(&self) -> u32 {
        self.enforced_scale
    }

    /// A reader of the file at `path`, which keeps four fractional digits.
    pub fn new(path: &str) -> (r: DefaultTransactionRequestsReader)
        ensures
            r.spec_path() == path@,
            r.spec_enforced_scale() == LEDGER_SCALE,
    {
        DefaultTransactionRequestsReader { path: path.to_owned(), enforced_scale: 4 }
    }

    /// Where the records are read from.
    pub fn path(&self) -> (r: &str)
        ensures
            r@ == self.spec_path(),
    {
        self.path.as_str()
    }

    /// How many fractional digits an amount keeps.
    pub fn enforced_scale(&self) -> (r: u32)
        ensures
            r == self.spec_enforced_scale(),
    {
        self.enforced_scale
    }

    /// The amount `mantissa / 10^scale` as it reaches the ledger: what goes
    /// beyond the enforced scale is cut off, not rounded. There is none
    /// where the parts are no decimal of 96 bits, or the ledger cannot hold
    /// the amount.
    pub fn enforce_scale(&self, mantissa: i128, scale: u32) -> (r: Option<Amount>)
        ensures
            r is Some <==> normalizable(Some((mantissa, scale)), self.spec_enforced_scale()),
            r matches Some(amount) ==> amount@ == truncated_units(
                mantissa,
                scale,
                self.spec_enforced_scale(),
            ) && amount.spec_scale() <= self.spec_enforced_scale(),
    {
        Amount::truncated(mantissa, scale, self.enforced_scale)
    }

    /// The request that a record stands for, with its amount cut to the
    /// enforced scale. There is none where the amount cannot be held.
    pub fn request(
        &self,
        transaction_type: TransactionType,
        client_id: CustomerId,
        transaction_id: TransactionId,
        amount: Option<(i128, u32)>,
    ) -> (r: Option<TransactionRequest>)
        ensures
            r is Some <==> normalizable(amount, self.spec_enforced_scale()),
            r matches Some(request) ==> request@ == normalized(
                transaction_type,
                client_id,
                transaction_id,
                amount,
                self.spec_enforced_scale(),
            ),
    {
        let amount = match amount {
            Some((mantissa, scale)) => match self.enforce_scale(mantissa, scale) {
                Some(amount) => Some(amount),
                None => {
                    return None;
                },
            },
            None => None,
        };
        Some(TransactionRequest { transaction_type, client_id, transaction_id, amount })
    }
}

/// A source of deposits for trials under load, one for every transaction
/// id but zero: the deposit at `index`, counted from zero, gives ten to
/// client one under transaction id `index + 1`.
pub struct DummyReader;

impl DummyReader {
    /// How many requests there are.
    pub fn len(&self) -> (r: u32)
        ensures
            r == u32::MAX,
    {
        u32::MAX
    }

    /// The request at `index`, if there is one.
    pub fn get(&self, index: u32) -> (r: Option<TransactionRequest>)
        ensures
            r is Some <==> index < u32::MAX,
            r matches Some(request) ==> request@ == (RequestView {
                transaction_type: TransactionType::Deposit,
                client_id: 1,
                transaction_id: (index + 1) as u32,
                amount: Some(100000),
            }),
    {
        if index == u32::MAX {
            None
        } else {
            Some(
                TransactionRequest {
                    transaction_type: TransactionType::Deposit,
                    client_id: 1,
                    transaction_id: index + 1,
                    amount: Some(Amount::new(10, 0)),
                },
            )
        }
    }
}

} // verus!
