//! The payment chain a node is configured for.

use crate::bytes::U256;
use crate::evm::{address_from_str, Address, QuoteHash};
use crate::payment::{
    check_receipt, data_payment_topic, data_payment_topic_spec, verification_outcome, PaymentError,
    Receipt,
};
use vstd::prelude::*;

verus! {

/// What a piece of text parses to as a URL, in the URL's normal form, if
/// it does.
pub uninterp spec fn url_from_str(text: Seq<char>) -> Option<Seq<char>>;

/// Calls `url::Url::parse` and, on success, takes the URL's
/// serialization. Trusted: whether the text parses, and to which normal
/// form, depends on the text alone, which the contract names without
/// saying more.
#[verifier::external_body]
pub(crate) fn parse_url(text: &str) -> (url: Option<String>)
    ensures
        match url {
            Some(u) => url_from_str(text@) == Some(u@),
            None => url_from_str(text@) is None,
        },
{
    match url::Url::parse(text) {
        Ok(url) => Some(String::from(url)),
        Err(_) => None,
    }
}

/// A payment chain other than the public one.
#[derive(Clone, Debug, PartialEq, Eq)]
pub struct CustomNetwork {
    pub rpc_url_http: String,
    pub payment_token_address: Address,
    pub data_payments_address: Address,
}

/// The payment chain a node verifies payments on.
#[derive(Clone, Debug, PartialEq, Eq)]
pub enum Network {
    ArbitrumOne,
    Custom(CustomNetwork),
}

/// The payment token on Arbitrum One,
/// `0x4bc1aCE0E66170375462cB4E6Af42Ad4D5EC689C`.
pub open spec fn arbitrum_one_payment_token() -> Seq<u8> {
    seq![
        0x4bu8, 0xc1, 0xac, 0xe0, 0xe6, 0x61, 0x70, 0x37, 0x54, 0x62, 0xcb, 0x4e, 0x6a, 0xf4, 0x2a,
        0xd4, 0xd5, 0xec, 0x68, 0x9c,
    ]
}

/// The data payments contract on Arbitrum One,
/// `0x887930F30EDEb1B255Cd2273C3F4400919df2EFe`.
pub open spec fn arbitrum_one_data_payments() -> Seq<u8> {
    seq![
        0x88u8, 0x79, 0x30, 0xf3, 0x0e, 0xde, 0xb1, 0xb2, 0x55, 0xcd, 0x22, 0x73, 0xc3, 0xf4, 0x40,
        0x09, 0x19, 0xdf, 0x2e, 0xfe,
    ]
}

impl CustomNetwork {
    fn new(rpc_url: &str, payment_token_addr: &str, data_payments_addr: &str) -> (network: Self)
        requires
            url_from_str(rpc_url@) is Some,
            address_from_str(payment_token_addr@) is Some,
            address_from_str(data_payments_addr@) is Some,
        ensures
            network.rpc_url_http@ == url_from_str(rpc_url@)->0,
            network.payment_token_address@ == address_from_str(payment_token_addr@)->0,
            network.data_payments_address@ == address_from_str(data_payments_addr@)->0,
    {
        Self {
            rpc_url_http: parse_url(rpc_url).unwrap(),
            payment_token_address: Address::from_hex(payment_token_addr).unwrap(),
            data_payments_address: Address::from_hex(data_payments_addr).unwrap(),
        }
    }
}

impl Network {
    /// The address of the contract that records data payments.
    pub open spec fn data_payments_contract(self) -> Seq<u8> {
        match self {
            Network::ArbitrumOne => arbitrum_one_data_payments(),
            Network::Custom(custom) => custom.data_payments_address@,
        }
    }

    /// The address of the token payments are made in.
    pub open spec fn payment_token_contract(self) -> Seq<u8> {
        match self {
            Network::ArbitrumOne => arbitrum_one_payment_token(),
            Network::Custom(custom) => custom.payment_token_address@,
        }
    }

    /// A custom chain, from the text of its RPC URL and of its two
    /// contract addresses, all of which have to be well formed.
    pub fn new_custom(rpc_url: &str, payment_token_addr: &str, chunk_payments_addr: &str) -> (network:
        Self)
        requires
            url_from_str(rpc_url@) is Some,
            address_from_str(payment_token_addr@) is Some,
            address_from_str(chunk_payments_addr@) is Some,
        ensures
            network matches Network::Custom(custom) && custom.rpc_url_http@ == url_from_str(
                rpc_url@,
            )->0 && custom.payment_token_address@ == address_from_str(payment_token_addr@)->0
                && custom.data_payments_address@ == address_from_str(chunk_payments_addr@)->0,
    {
        Self::Custom(CustomNetwork::new(rpc_url, payment_token_addr, chunk_payments_addr))
    }

    /// A custom chain, if the URL and both addresses are well formed;
    /// `None` if one of them is not.
    pub fn try_new_custom(rpc_url: &str, payment_token_addr: &str, chunk_payments_addr: &str) -> (network:
        Option<Self>)
        ensures
            network is Some == (url_from_str(rpc_url@) is Some && address_from_str(
                payment_token_addr@,
            ) is Some && address_from_str(chunk_payments_addr@) is Some),
            network matches Some(n) ==> n matches Network::Custom(custom) && custom.rpc_url_http@
                == url_from_str(rpc_url@)->0 && custom.payment_token_address@ == address_from_str(
                payment_token_addr@,
            )->0 && custom.data_payments_address@ == address_from_str(chunk_payments_addr@)->0,
    {
        if parse_url(rpc_url).is_some() && Address::from_hex(payment_token_addr).is_some()
            && Address::from_hex(chunk_payments_addr).is_some() {
            Some(Self::new_custom(rpc_url, payment_token_addr, chunk_payments_addr))
        } else {
            None
        }
    }

    /// The chain's short name.
    pub fn identifier(&self) -> (name: &str)
        ensures
            name@ == match *self {
                Network::ArbitrumOne => "arbitrum-one"@,
                Network::Custom(_) => "custom"@,
            },
    {
        match self {
            Network::ArbitrumOne => "arbitrum-one",
            Network::Custom(_) => "custom",
        }
    }

    /// Where the chain's RPC endpoint is.
    pub fn rpc_url(&self) -> (url: &str)
        ensures
            url@ == match *self {
                Network::ArbitrumOne => "https://arb1.arbitrum.io/rpc"@,
                Network::Custom(custom) => custom.rpc_url_http@,
            },
    {
        match self {
            Network::ArbitrumOne => "https://arb1.arbitrum.io/rpc",
            Network::Custom(custom) => custom.rpc_url_http.as_str(),
        }
    }

    /// The address of the token payments are made in.
    pub fn payment_token_address(&self) -> (address: Address)
        ensures
            address@ == self.payment_token_contract(),
    {
        match self {
            Network::ArbitrumOne => {
                let address = Address {
                    bytes: [
                        0x4b, 0xc1, 0xac, 0xe0, 0xe6, 0x61, 0x70, 0x37, 0x54, 0x62, 0xcb, 0x4e, 0x6a,
                        0xf4, 0x2a, 0xd4, 0xd5, 0xec, 0x68, 0x9c,
                    ],
                };
                assert(address@ =~= arbitrum_one_payment_token());
                address
            },
            Network::Custom(custom) => custom.payment_token_address,
        }
    }

    /// The address of the contract that records data payments.
    pub fn data_payments_address(&self) -> (address: Address)
        ensures
            address@ == self.data_payments_contract(),
    {
        match self {
            Network::ArbitrumOne => {
                let address = Address {
                    bytes: [
                        0x88, 0x79, 0x30, 0xf3, 0x0e, 0xde, 0xb1, 0xb2, 0x55, 0xcd, 0x22, 0x73, 0xc3,
                        0xf4, 0x40, 0x09, 0x19, 0xdf, 0x2e, 0xfe,
                    ],
                };
                assert(address@ =~= arbitrum_one_data_payments());
                address
            },
            Network::Custom(custom) => custom.data_payments_address,
        }
    }

    /// Verifies that a transaction pays at least `amount` to
    /// `reward_addr` for the quote `quote_hash`, and did so before the
    /// quote expired. `fetched` is the transaction's receipt as the
    /// chain's RPC endpoint gave it, `None` if it could not be reached.
    pub fn verify_data_payment(
        &self,
        fetched: &Option<Receipt>,
        quote_hash: QuoteHash,
        reward_addr: Address,
        amount: U256,
        quote_expiration_timestamp_in_secs: u64,
    ) -> (outcome: Result<(), PaymentError>)
        ensures
            outcome == verification_outcome(
                *fetched,
                self.data_payments_contract(),
                data_payment_topic_spec(),
                quote_hash@,
                reward_addr@,
                amount@,
                quote_expiration_timestamp_in_secs,
            ),
    {
        match fetched {
            None => Err(PaymentError::RpcUnavailable),
            Some(receipt) => {
                let contract = self.data_payments_address();
                let topic = data_payment_topic();
                check_receipt(
                    receipt,
                    &contract,
                    &topic,
                    &quote_hash,
                    &reward_addr,
                    &amount,
                    quote_expiration_timestamp_in_secs,
                )
            },
        }
    }
}

impl Default for Network {
    fn default() -> (network: Self)
        ensures
            network == Network::ArbitrumOne,
    {
        Self::ArbitrumOne
    }
}

} // verus!
