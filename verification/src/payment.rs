//! The payment gate: does a transaction on the payment chain pay for the
//! quote it is said to pay for?
//!
//! The transaction's receipt is fetched by the caller. What is checked
//! here are the receipt's raw logs: a payment is a log of the data
//! payments contract that carries the `DataPayment` event, with the quote
//! hash and the reward address as indexed topics and the amount as data.

use crate::bytes::{lex_lt, slice_eq, U256};
use crate::evm::{Address, QuoteHash, TxHash};
use crate::hashing::{keccak256, keccak256_digest};
use vstd::prelude::*;

verus! {

/// A log entry of a transaction receipt, as the chain gives it.
#[derive(Clone, Debug, PartialEq, Eq)]
pub struct Log {
    /// The contract that emitted the entry.
    pub address: Address,
    /// The event's signature hash, then its indexed fields.
    pub topics: Vec<[u8; 32]>,
    /// The event's other fields.
    pub data: Vec<u8>,
}

/// What the payment gate reads of a transaction receipt.
#[derive(Clone, Debug, PartialEq, Eq)]
pub struct Receipt {
    pub logs: Vec<Log>,
    /// Time of the block that holds the transaction, in seconds.
    pub block_timestamp: u64,
}

/// Why a payment was not accepted.
#[derive(Clone, Copy, Debug, PartialEq, Eq)]
pub enum PaymentError {
    /// The receipt could not be fetched; trying again may help.
    RpcUnavailable,
    /// The transaction holds no payment for the quote.
    PaymentNotFound,
    /// The payment went to another address.
    WrongRecipient,
    /// Less was paid than the quote asked for.
    AmountMismatch,
    /// The payment was made after the quote had expired.
    QuoteExpired,
}

/// A decoded `DataPayment` event.
#[derive(Clone, Copy, Debug, PartialEq, Eq)]
pub struct DataPayment {
    pub quote_hash: QuoteHash,
    pub reward_address: Address,
    pub amount: U256,
}

/// What a payment is, mathematically.
pub struct DataPaymentView {
    pub quote_hash: Seq<u8>,
    pub reward_address: Seq<u8>,
    pub amount: Seq<u8>,
}

impl View for DataPayment {
    type V = DataPaymentView;

    open spec fn view(&self) -> DataPaymentView {
        DataPaymentView {
            quote_hash: self.quote_hash@,
            reward_address: self.reward_address@,
            amount: self.amount@,
        }
    }
}

/// The text `DataPayment(bytes32,address,uint256)`, whose digest marks
/// the event in a log.
pub open spec fn data_payment_signature() -> Seq<u8> {
    seq![
        68u8, 97, 116, 97, 80, 97, 121, 109, 101, 110, 116, 40, 98, 121, 116, 101, 115, 51, 50, 44,
        97, 100, 100, 114, 101, 115, 115, 44, 117, 105, 110, 116, 50, 53, 54, 41,
    ]
}

/// The first topic of every `DataPayment` log.
pub open spec fn data_payment_topic_spec() -> Seq<u8> {
    keccak256_digest(data_payment_signature())
}

/// Computes the first topic of every `DataPayment` log.
pub fn data_payment_topic() -> (topic: [u8; 32])
    ensures
        topic@ == data_payment_topic_spec(),
{
    let signature: [u8; 36] = [
        68, 97, 116, 97, 80, 97, 121, 109, 101, 110, 116, 40, 98, 121, 116, 101, 115, 51, 50, 44,
        97, 100, 100, 114, 101, 115, 115, 44, 117, 105, 110, 116, 50, 53, 54, 41,
    ];
    assert(signature@ =~= data_payment_signature());
    keccak256(signature.as_slice())
}

/// The payment a log entry stands for, if it is a `DataPayment` event of
/// the given contract: three topics, the first of them the event's, an
/// address topic padded with twelve zero bytes, and 32 bytes of data.
pub open spec fn decode_spec(log: Log, contract: Seq<u8>, topic: Seq<u8>) -> Option<DataPaymentView> {
    if log.address@ == contract && log.topics@.len() == 3 && log.topics@[0]@ == topic
        && log.data@.len() == 32 && (forall|i: int| 0 <= i < 12 ==> log.topics@[2]@[i] == 0) {
        Some(
            DataPaymentView {
                quote_hash: log.topics@[1]@,
                reward_address: log.topics@[2]@.subrange(12, 32),
                amount: log.data@,
            },
        )
    } else {
        None
    }
}

/// The first payment for the quote among the logs.
pub open spec fn first_payment(
    logs: Seq<Log>,
    contract: Seq<u8>,
    topic: Seq<u8>,
    quote_hash: Seq<u8>,
) -> Option<DataPaymentView>
    decreases logs.len(),
{
    if logs.len() == 0 {
        None
    } else {
        let decoded = decode_spec(logs[0], contract, topic);
        if decoded is Some && decoded->0.quote_hash == quote_hash {
            decoded
        } else {
            first_payment(logs.drop_first(), contract, topic, quote_hash)
        }
    }
}

/// How the verification of a fetched receipt ends. The checks are made
/// in this order: is there a payment for the quote, did it go to the
/// expected address, was enough paid, and was the quote still valid when
/// the block was made.
pub open spec fn payment_outcome(
    receipt: Receipt,
    contract: Seq<u8>,
    topic: Seq<u8>,
    quote_hash: Seq<u8>,
    reward_address: Seq<u8>,
    amount: Seq<u8>,
    quote_expiration_secs: u64,
) -> Result<(), PaymentError> {
    match first_payment(receipt.logs@, contract, topic, quote_hash) {
        None => Err(PaymentError::PaymentNotFound),
        Some(payment) => if payment.reward_address != reward_address {
            Err(PaymentError::WrongRecipient)
        } else if lex_lt(payment.amount, amount) {
            Err(PaymentError::AmountMismatch)
        } else if receipt.block_timestamp > quote_expiration_secs {
            Err(PaymentError::QuoteExpired)
        } else {
            Ok(())
        },
    }
}

/// How a verification ends, the fetching of the receipt included: `None`
/// stands for a receipt that could not be fetched.
pub open spec fn verification_outcome(
    fetched: Option<Receipt>,
    contract: Seq<u8>,
    topic: Seq<u8>,
    quote_hash: Seq<u8>,
    reward_address: Seq<u8>,
    amount: Seq<u8>,
    quote_expiration_secs: u64,
) -> Result<(), PaymentError> {
    match fetched {
        None => Err(PaymentError::RpcUnavailable),
        Some(receipt) => payment_outcome(
            receipt,
            contract,
            topic,
            quote_hash,
            reward_address,
            amount,
            quote_expiration_secs,
        ),
    }
}

/// Decodes a log entry as a `DataPayment` event of `contract`, where
/// `topic` is the event's signature hash.
pub fn decode_data_payment(log: &Log, contract: &Address, topic: &[u8; 32]) -> (payment: Option<
    DataPayment,
>)
    ensures
        match payment {
            Some(p) => decode_spec(*log, contract@, topic@) == Some(p@),
            None => decode_spec(*log, contract@, topic@) is None,
        },
{
    if !log.address.same_as(contract) || log.topics.len() != 3 || log.data.len() != 32 {
        return None;
    }
    if !slice_eq(log.topics[0].as_slice(), topic.as_slice()) {
        return None;
    }
    let indexed: &[u8; 32] = &log.topics[2];
    let mut i: usize = 0;
    while i < 12
        invariant
            i <= 12,
            log.topics@.len() == 3,
            indexed@ == log.topics@[2]@,
            forall|j: int| 0 <= j < i ==> indexed@[j] == 0,
        decreases 12 - i,
    {
        if indexed[i] != 0 {
            assert(log.topics@[2]@[i as int] != 0);
            return None;
        }
        i = i + 1;
    }
    let mut reward: [u8; 20] = [0u8; 20];
    let mut k: usize = 0;
    while k < 20
        invariant
            k <= 20,
            forall|j: int| 0 <= j < k ==> reward@[j] == indexed@[j + 12],
        decreases 20 - k,
    {
        reward[k] = indexed[k + 12];
        k = k + 1;
    }
    let mut amount: [u8; 32] = [0u8; 32];
    let mut m: usize = 0;
    while m < 32
        invariant
            m <= 32,
            log.data@.len() == 32,
            forall|j: int| 0 <= j < m ==> amount@[j] == log.data@[j],
        decreases 32 - m,
    {
        amount[m] = log.data[m];
        m = m + 1;
    }
    let payment = DataPayment {
        quote_hash: log.topics[1],
        reward_address: Address { bytes: reward },
        amount: U256 { bytes: amount },
    };
    proof {
        assert(payment@.reward_address =~= indexed@.subrange(12, 32));
        assert(payment@.amount =~= log.data@);
    }
    Some(payment)
}

/// Checks a fetched receipt for a payment of at least `amount` to
/// `reward_address` for the quote `quote_hash`, made by `contract` no
/// later than the quote's expiration. `topic` is the signature hash of
/// the `DataPayment` event.
pub fn check_receipt(
    receipt: &Receipt,
    contract: &Address,
    topic: &[u8; 32],
    quote_hash: &QuoteHash,
    reward_address: &Address,
    amount: &U256,
    quote_expiration_secs: u64,
) -> (outcome: Result<(), PaymentError>)
    ensures
        outcome == payment_outcome(
            *receipt,
            contract@,
            topic@,
            quote_hash@,
            reward_address@,
            amount@,
            quote_expiration_secs,
        ),
{
    let ghost logs = receipt.logs@;
    let mut found: Option<DataPayment> = None;
    let mut i: usize = 0;
    assert(logs.skip(0) =~= logs);
    while i < receipt.logs.len()
        invariant_except_break
            found is None,
            first_payment(logs, contract@, topic@, quote_hash@) == first_payment(
                logs.skip(i as int),
                contract@,
                topic@,
                quote_hash@,
            ),
        invariant
            i <= logs.len(),
            logs == receipt.logs@,
        ensures
            match found {
                Some(p) => first_payment(logs, contract@, topic@, quote_hash@) == Some(p@),
                None => first_payment(logs, contract@, topic@, quote_hash@) is None,
            },
        decreases logs.len() - i,
    {
        proof {
            assert(logs.skip(i as int).drop_first() =~= logs.skip(i as int + 1));
            assert(logs.skip(i as int)[0] == logs[i as int]);
        }
        match decode_data_payment(&receipt.logs[i], contract, topic) {
            Some(payment) => {
                if slice_eq(payment.quote_hash.as_slice(), quote_hash.as_slice()) {
                    found = Some(payment);
                    break;
                }
            },
            None => {},
        }
        i = i + 1;
    }
    match found {
        None => Err(PaymentError::PaymentNotFound),
        Some(payment) => {
            if !payment.reward_address.same_as(reward_address) {
                Err(PaymentError::WrongRecipient)
            } else if payment.amount.lt(amount) {
                Err(PaymentError::AmountMismatch)
            } else if receipt.block_timestamp > quote_expiration_secs {
                Err(PaymentError::QuoteExpired)
            } else {
                Ok(())
            }
        },
    }
}

/// Verification reads the chain and changes nothing: as long as the
/// chain shows the same receipt for a transaction, verifying it again
/// ends the same way.
pub proof fn lemma_verification_idempotent(
    fetched: Option<Receipt>,
    contract: Seq<u8>,
    topic: Seq<u8>,
    quote_hash: Seq<u8>,
    reward_address: Seq<u8>,
    amount: Seq<u8>,
    quote_expiration_secs: u64,
    first: Result<(), PaymentError>,
    second: Result<(), PaymentError>,
)
    requires
        first == verification_outcome(
            fetched,
            contract,
            topic,
            quote_hash,
            reward_address,
            amount,
            quote_expiration_secs,
        ),
        second == verification_outcome(
            fetched,
            contract,
            topic,
            quote_hash,
            reward_address,
            amount,
            quote_expiration_secs,
        ),
    ensures
        first == second,
{
}

/// A payment was accepted only if the quote had not expired when the
/// block was made, enough was paid, and it went to the expected address.
pub proof fn lemma_accepted_payment(
    receipt: Receipt,
    contract: Seq<u8>,
    topic: Seq<u8>,
    quote_hash: Seq<u8>,
    reward_address: Seq<u8>,
    amount: Seq<u8>,
    quote_expiration_secs: u64,
)
    requires
        payment_outcome(
            receipt,
            contract,
            topic,
            quote_hash,
            reward_address,
            amount,
            quote_expiration_secs,
        ) is Ok,
    ensures
        receipt.block_timestamp <= quote_expiration_secs,
        first_payment(receipt.logs@, contract, topic, quote_hash) matches Some(payment)
            && payment.reward_address == reward_address && !lex_lt(payment.amount, amount),
{
}

/// The transactions whose payment was verified before. Only successes
/// are remembered: a failure may turn into a success when asked again.
pub struct PaymentCache {
    verified: Vec<TxHash>,
}

impl View for PaymentCache {
    type V = Set<Seq<u8>>;

    closed spec fn view(&self) -> Set<Seq<u8>> {
        Set::new(|tx: Seq<u8>| exists|i: int| 0 <= i < self.verified@.len() && self.verified@[i]@ == tx)
    }
}

impl PaymentCache {
    /// A cache that remembers nothing yet.
    pub fn new() -> (cache: PaymentCache)
        ensures
            cache@ == Set::<Seq<u8>>::empty(),
    {
        let cache = PaymentCache { verified: Vec::new() };
        assert(cache@ =~= Set::<Seq<u8>>::empty());
        cache
    }

    /// Whether the transaction's payment was verified before.
    pub fn is_verified(&self, tx_hash: &TxHash) -> (known: bool)
        ensures
            known == self@.contains(tx_hash@),
    {
        let mut i: usize = 0;
        while i < self.verified.len()
            invariant
                i <= self.verified@.len(),
                forall|j: int| 0 <= j < i ==> self.verified@[j]@ != tx_hash@,
            decreases self.verified@.len() - i,
        {
            if slice_eq(self.verified[i].as_slice(), tx_hash.as_slice()) {
                return true;
            }
            i = i + 1;
        }
        false
    }

    /// Takes note of how a verification ended: a success is remembered, a
    /// failure is not.
    pub fn record(&mut self, tx_hash: TxHash, outcome: &Result<(), PaymentError>)
        ensures
            final(self)@ == if *outcome is Ok {
                old(self)@.insert(tx_hash@)
            } else {
                old(self)@
            },
    {
        match outcome {
            Ok(()) => {
                let ghost before = self.verified@;
                self.verified.push(tx_hash);
                proof {
                    let after = self.verified@;
                    assert forall|tx: Seq<u8>| final(self)@.contains(tx) == old(self)@.insert(
                        tx_hash@,
                    ).contains(tx) by {
                        if exists|i: int| 0 <= i < after.len() && after[i]@ == tx {
                            let i = choose|i: int| 0 <= i < after.len() && after[i]@ == tx;
                            if i < before.len() {
                                assert(before[i]@ == tx);
                            }
                        }
                        if exists|i: int| 0 <= i < before.len() && before[i]@ == tx {
                            let i = choose|i: int| 0 <= i < before.len() && before[i]@ == tx;
                            assert(after[i]@ == tx);
                        }
                        if tx == tx_hash@ {
                            assert(after[before.len() as int]@ == tx);
                        }
                    }
                    assert(final(self)@ =~= old(self)@.insert(tx_hash@));
                }
            },
            Err(_) => {},
        }
    }
}

} // verus!
