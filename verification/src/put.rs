//! Accepting records that were paid for.

use crate::payment::PaymentError;
use crate::store::{LocalStore, Record};
use vstd::prelude::*;

verus! {

/// Stores a record that arrived with a payment, if the payment was
/// verified. A payment that was not verified leaves the store as it was,
/// and the reason is handed back to whoever wanted the record stored.
pub fn store_paid_record(
    store: &mut LocalStore,
    record: Record,
    payment: Result<(), PaymentError>,
) -> (accepted: Result<(), PaymentError>)
    ensures
        accepted == payment,
        final(store)@ == if payment is Ok {
            old(store)@.insert(record.key@, record@)
        } else {
            old(store)@
        },
{
    if payment.is_ok() {
        store.insert(record);
    }
    payment
}

} // verus!
