use vstd::prelude::*;
use crate::primitives::{zeros, Address, Bytes, H256, U256};
use crate::rpc::types::typed_transaction_request::{
    EIP1559BasedTransactionRequest, EIP2930BasedTransactionRequest, LegacyTransactionRequest,
    TransactionAction, TypedTransactionRequest,
};

verus! {

/// A transaction as a client asks for it: whatever it leaves out is `None`.
#[derive(Debug, PartialEq, Eq)]
pub struct TransactionRequest {
    pub from: Option<Address>,
    /// How many transactions the sender has sent, this one included. It
    /// keeps the transactions of a sender in order, and a transaction from
    /// being sent twice.
    pub senderAccountNonce: Option<U256>,
    pub to: Option<Address>,
    /// In wei.
    pub value: Option<U256>,
    /// Additional data sent using the transaction.
    pub data: Option<Bytes>,
    pub gasLimit: Option<U256>,
    pub transactionType: Option<U256>,
    pub gasPrice: Option<U256>,
    pub accessList: Option<Vec<AccessListItem>>,
    pub maxPriorityFeePerGas: Option<U256>,
    pub maxFeePerGas: Option<U256>,
}

/// An address and the storage keys under it that a transaction plans to
/// access.
#[derive(Debug, PartialEq, Eq)]
pub struct AccessListItem {
    pub address: Address,
    pub storageKeys: Vec<H256>,
}

/// What a request does: it calls the address it names, or creates a
/// contract where it names none.
pub open spec fn action_of(to: Option<Address>) -> TransactionAction {
    match to {
        Some(to) => TransactionAction::CallsAddress(to),
        None => TransactionAction::CreatesContract,
    }
}

/// The bytes of a number that a request names, or of zero where it names
/// none.
pub open spec fn number_or_zero(number: Option<U256>) -> Seq<u8> {
    match number {
        Some(number) => number.0@,
        None => zeros(32),
    }
}

/// The bytes that a request names, or none.
pub open spec fn bytes_or_none(bytes: Option<Bytes>) -> Seq<u8> {
    match bytes {
        Some(bytes) => bytes.0@,
        None => Seq::empty(),
    }
}

/// Whether `list` is the access list that a request names, or an empty one
/// where it names none.
pub open spec fn is_list_or_empty(list: Vec<AccessListItem>, named: Option<Vec<AccessListItem>>) -> bool {
    match named {
        Some(named) => list == named,
        None => list@.len() == 0,
    }
}

/// The kind of transaction that a request asks for, if it asks for one.
pub enum RequestedKind {
    Legacy,
    EIP2930Based,
    EIP1559Based,
}

impl TransactionRequest {
    /// The kind of transaction that the request asks for. With a gas price
    /// and neither an access list nor a fee cap it is a legacy transaction;
    /// with an access list and no fee cap it is EIP-2930 based; with a fee
    /// cap and no gas price it is EIP-1559 based; anything else is none.
    pub open spec fn requested_kind(self) -> Option<RequestedKind> {
        match (self.gasPrice, self.accessList, self.maxFeePerGas) {
            (Some(_), None, None) => Some(RequestedKind::Legacy),
            (_, Some(_), None) => Some(RequestedKind::EIP2930Based),
            (None, _, Some(_)) => Some(RequestedKind::EIP1559Based),
            _ => None,
        }
    }

    /// Whether `typed` is the typed request that this request stands for:
    /// it is of the kind asked for, it holds what the request names, and
    /// zero or nothing for what the request leaves out.
    pub open spec fn is_typed_as(self, typed: TypedTransactionRequest) -> bool {
        match typed {
            TypedTransactionRequest::Legacy(legacy) => {
                &&& self.requested_kind() matches Some(RequestedKind::Legacy)
                &&& legacy.action == action_of(self.to)
                &&& legacy.senderAccountNonce.0@ == number_or_zero(self.senderAccountNonce)
                &&& legacy.value.0@ == number_or_zero(self.value)
                &&& legacy.data.0@ == bytes_or_none(self.data)
                &&& legacy.gasLimit.0@ == number_or_zero(self.gasLimit)
                &&& Some(legacy.gasPrice) == self.gasPrice
                &&& legacy.chainId is None
            },
            TypedTransactionRequest::EIP2930Based(based) => {
                &&& self.requested_kind() matches Some(RequestedKind::EIP2930Based)
                &&& based.action == action_of(self.to)
                &&& based.senderAccountNonce.0@ == number_or_zero(self.senderAccountNonce)
                &&& based.value.0@ == number_or_zero(self.value)
                &&& based.data.0@ == bytes_or_none(self.data)
                &&& based.gasLimit.0@ == number_or_zero(self.gasLimit)
                &&& based.gasPrice.0@ == number_or_zero(self.gasPrice)
                &&& Some(based.accessList) == self.accessList
                &&& based.chainId == 0
            },
            TypedTransactionRequest::EIP1559Based(based) => {
                &&& self.requested_kind() matches Some(RequestedKind::EIP1559Based)
                &&& based.action == action_of(self.to)
                &&& based.senderAccountNonce.0@ == number_or_zero(self.senderAccountNonce)
                &&& based.value.0@ == number_or_zero(self.value)
                &&& based.data.0@ == bytes_or_none(self.data)
                &&& based.gasLimit.0@ == number_or_zero(self.gasLimit)
                &&& is_list_or_empty(based.accessList, self.accessList)
                &&& based.maxPriorityFeePerGas.0@ == number_or_zero(self.maxPriorityFeePerGas)
                &&& Some(based.maxFeePerGas) == self.maxFeePerGas
                &&& based.chainId == 0
            },
        }
    }

    /// Converts TransactionRequest to TypedTransactionRequest.
    pub fn intoTypedTransactionRequest(self) -> (typed: Option<TypedTransactionRequest>)
        ensures
            typed is Some == self.requested_kind() is Some,
            typed matches Some(request) ==> self.is_typed_as(request),
    {
        let action = match self.to {
            Some(to) => TransactionAction::CallsAddress(to),
            None => TransactionAction::CreatesContract,
        };
        let senderAccountNonce = match self.senderAccountNonce {
            Some(nonce) => nonce,
            None => U256::zero(),
        };
        let value = match self.value {
            Some(value) => value,
            None => U256::zero(),
        };
        let data = match self.data {
            Some(data) => data,
            None => Bytes::empty(),
        };
        let gasLimit = match self.gasLimit {
            Some(gasLimit) => gasLimit,
            None => U256::zero(),
        };

        match (self.gasPrice, self.accessList, self.maxFeePerGas) {
            // Legacy transaction.
            (Some(gasPrice), None, None) => {
                Some(
                    TypedTransactionRequest::Legacy(
                        LegacyTransactionRequest {
                            action,
                            senderAccountNonce,
                            value,
                            data,
                            gasLimit,
                            gasPrice,
                            chainId: None,
                        },
                    ),
                )
            },
            // EIP-2930 based transaction.
            (gasPrice, Some(accessList), None) => {
                Some(
                    TypedTransactionRequest::EIP2930Based(
                        EIP2930BasedTransactionRequest {
                            action,
                            senderAccountNonce,
                            value,
                            data,
                            gasLimit,
                            gasPrice: match gasPrice {
                                Some(gasPrice) => gasPrice,
                                None => U256::zero(),
                            },
                            accessList,
                            chainId: 0,
                        },
                    ),
                )
            },
            // EIP-1559 based transaction.
            (None, accessList, Some(maxFeePerGas)) => {
                Some(
                    TypedTransactionRequest::EIP1559Based(
                        EIP1559BasedTransactionRequest {
                            action,
                            senderAccountNonce,
                            value,
                            data,
                            gasLimit,
                            accessList: match accessList {
                                Some(accessList) => accessList,
                                None => Vec::new(),
                            },
                            maxPriorityFeePerGas: match self.maxPriorityFeePerGas {
                                Some(fee) => fee,
                                None => U256::zero(),
                            },
                            maxFeePerGas,
                            chainId: 0,
                        },
                    ),
                )
            },
            _ => None,
        }
    }
}

} // verus!
