use vstd::prelude::*;
use crate::primitives::{Address, Bytes, U256};
use crate::rpc::types::transaction_request::AccessListItem;

verus! {

/// A transaction request of one of the three kinds that there are.
#[derive(Debug, PartialEq, Eq)]
pub enum TypedTransactionRequest {
    Legacy(LegacyTransactionRequest),
    EIP2930Based(EIP2930BasedTransactionRequest),
    EIP1559Based(EIP1559BasedTransactionRequest),
}

/// A transaction in the format that was there before typed transactions.
#[derive(Debug, PartialEq, Eq)]
pub struct LegacyTransactionRequest {
    pub action: TransactionAction,
    pub senderAccountNonce: U256,
    pub value: U256,
    pub data: Bytes,
    pub gasLimit: U256,
    pub gasPrice: U256,
    pub chainId: Option<u64>,
}

/// A transaction that names the addresses and storage keys it plans to
/// access.
#[derive(Debug, PartialEq, Eq)]
pub struct EIP2930BasedTransactionRequest {
    pub action: TransactionAction,
    pub senderAccountNonce: U256,
    pub value: U256,
    pub data: Bytes,
    pub gasLimit: U256,
    pub gasPrice: U256,
    pub accessList: Vec<AccessListItem>,
    /// The chain id protects a transaction that was included into one chain
    /// from being included into another.
    pub chainId: u64,
}

/// A transaction that names, instead of a gas price, the most it pays per
/// gas in all and the most it pays above the base fee.
#[derive(Debug, PartialEq, Eq)]
pub struct EIP1559BasedTransactionRequest {
    pub action: TransactionAction,
    pub senderAccountNonce: U256,
    pub value: U256,
    pub data: Bytes,
    pub gasLimit: U256,
    pub accessList: Vec<AccessListItem>,
    pub maxPriorityFeePerGas: U256,
    pub maxFeePerGas: U256,
    pub chainId: u64,
}

/// What a transaction does: it calls an address, or it creates a contract.
#[derive(Clone, Copy, Debug, PartialEq, Eq)]
pub enum TransactionAction {
    CallsAddress(Address),
    CreatesContract,
}

} // verus!
