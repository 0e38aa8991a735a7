//! The storage fee of a call: what the caller owes for the bytes the call
//! added, and what is handed back.
//!
//! The ledger does not measure storage itself. The host reads its meter
//! before it stages a call's writes and again after, and passes both readings
//! in together with the price of a byte.

use vstd::prelude::*;
use crate::error::ContractError;

verus! {

/// What a settled call costs.
#[derive(Clone, Copy, Debug, PartialEq, Eq)]
pub struct Settlement {
    /// The bytes that the call added.
    pub bytes_added: u64,
    /// The fee for those bytes.
    pub required: u128,
    /// The part of the payment that exceeds the fee and goes back to the
    /// caller.
    pub refund: u128,
}

/// The fee for the bytes between two readings: `(after - before) * price`.
pub open spec fn required_cost(before: u64, after: u64, price_per_byte: u128) -> int {
    (after - before) * price_per_byte
}

/// How a payment is settled against two storage readings.
///
/// The call is refused when the second reading lies below the first, when
/// the fee does not fit in 128 bits, and when the payment is below the fee.
/// Otherwise the fee is kept and the rest is the refund.
pub open spec fn settlement_of(
    payment: u128,
    before: u64,
    after: u64,
    price_per_byte: u128,
) -> Result<Settlement, ContractError> {
    let required = required_cost(before, after, price_per_byte);
    if after < before {
        Err(ContractError::MeterRegressed)
    } else if required > u128::MAX {
        Err(ContractError::StorageCostOverflow)
    } else if payment < required {
        Err(ContractError::InsufficientPayment { required: required as u128, provided: payment })
    } else {
        Ok(
            Settlement {
                bytes_added: (after - before) as u64,
                required: required as u128,
                refund: (payment - required) as u128,
            },
        )
    }
}

/// Settles a payment against the storage readings taken before and after a
/// call's writes.
pub fn settle(payment: u128, before: u64, after: u64, price_per_byte: u128) -> (result: Result<
    Settlement,
    ContractError,
>)
    ensures
        result == settlement_of(payment, before, after, price_per_byte),
{
    if after < before {
        return Err(ContractError::MeterRegressed);
    }
    let bytes_added: u64 = after - before;
    match (bytes_added as u128).checked_mul(price_per_byte) {
        None => Err(ContractError::StorageCostOverflow),
        Some(required) => {
            if payment < required {
                Err(ContractError::InsufficientPayment { required, provided: payment })
            } else {
                Ok(Settlement { bytes_added, required, refund: payment - required })
            }
        },
    }
}

/// A payment is accepted exactly when it covers the fee, and then the fee and
/// the refund together are the payment: nothing is kept beyond the fee, and
/// nothing is refunded from a refused call.
pub proof fn lemma_settlement_is_exact(
    payment: u128,
    before: u64,
    after: u64,
    price_per_byte: u128,
)
    requires
        before <= after,
    ensures
        settlement_of(payment, before, after, price_per_byte) is Ok <==> required_cost(
            before,
            after,
            price_per_byte,
        ) <= payment,
        settlement_of(payment, before, after, price_per_byte) matches Ok(s) ==> {
            &&& s.required == required_cost(before, after, price_per_byte)
            &&& s.refund == payment - s.required
            &&& s.bytes_added == after - before
        },
{
}

} // verus!
