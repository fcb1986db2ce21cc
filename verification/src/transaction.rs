//! Transactions: the wire record that the transport carries and the decoded
//! record that the store holds.

use crate::hex::{decode_hex, hex_to_dec};
use vstd::prelude::*;

verus! {

/// A transaction as it travels on the transport: numbers are hexadecimal
/// texts.
#[derive(Debug, PartialEq, Eq)]
pub struct TransactionData {
    pub hash: String,
    pub block_hash: String,
    pub from: String,
    pub to: String,
    pub value: String,
    pub block_number: String,
}

/// A decoded transaction. `hash` identifies it.
#[derive(Debug, PartialEq, Eq)]
pub struct Transaction {
    pub hash: String,
    pub block_hash: String,
    pub from: String,
    pub to: String,
    pub value: u64,
    pub block_number: u64,
}

/// A wire transaction as plain mathematics.
pub struct TransactionDataView {
    pub hash: Seq<char>,
    pub block_hash: Seq<char>,
    pub from: Seq<char>,
    pub to: Seq<char>,
    pub value: Seq<char>,
    pub block_number: Seq<char>,
}

/// A decoded transaction as plain mathematics.
pub struct TransactionView {
    pub hash: Seq<char>,
    pub block_hash: Seq<char>,
    pub from: Seq<char>,
    pub to: Seq<char>,
    pub value: u64,
    pub block_number: u64,
}

impl View for TransactionData {
    type V = TransactionDataView;

    open spec fn view(&self) -> TransactionDataView {
        TransactionDataView {
            hash: self.hash@,
            block_hash: self.block_hash@,
            from: self.from@,
            to: self.to@,
            value: self.value@,
            block_number: self.block_number@,
        }
    }
}

impl View for Transaction {
    type V = TransactionView;

    open spec fn view(&self) -> TransactionView {
        TransactionView {
            hash: self.hash@,
            block_hash: self.block_hash@,
            from: self.from@,
            to: self.to@,
            value: self.value,
            block_number: self.block_number,
        }
    }
}

/// The transaction that a wire transaction decodes to: the texts as they
/// are, the numbers decoded from hexadecimal.
pub open spec fn decoded_transaction(data: TransactionDataView) -> TransactionView {
    TransactionView {
        hash: data.hash,
        block_hash: data.block_hash,
        from: data.from,
        to: data.to,
        value: decode_hex(data.value),
        block_number: decode_hex(data.block_number),
    }
}

impl Clone for Transaction {
    fn clone(&self) -> (copy: Self)
        ensures
            copy@ == self@,
    {
        Transaction {
            hash: self.hash.clone(),
            block_hash: self.block_hash.clone(),
            from: self.from.clone(),
            to: self.to.clone(),
            value: self.value,
            block_number: self.block_number,
        }
    }
}

impl Clone for TransactionData {
    fn clone(&self) -> (copy: Self)
        ensures
            copy@ == self@,
    {
        TransactionData {
            hash: self.hash.clone(),
            block_hash: self.block_hash.clone(),
            from: self.from.clone(),
            to: self.to.clone(),
            value: self.value.clone(),
            block_number: self.block_number.clone(),
        }
    }
}

impl Transaction {
    /// Decodes a wire transaction. Decoding never fails: a number that does
    /// not parse becomes zero.
    pub fn decode(data: TransactionData) -> (transaction: Transaction)
        ensures
            transaction@ == decoded_transaction(data@),
    {
        Transaction {
            hash: data.hash,
            block_hash: data.block_hash,
            from: data.from,
            to: data.to,
            value: hex_to_dec(data.value),
            block_number: hex_to_dec(data.block_number),
        }
    }
}

} // verus!
