//! Blocks: the wire record that the transport carries and the decoded
//! record that the store holds.

use crate::hex::{decode_hex, hex_to_dec};
use vstd::prelude::*;

verus! {

/// A block as it travels on the transport: numbers are hexadecimal texts.
#[derive(Debug, PartialEq, Eq)]
pub struct BlockData {
    pub hash: String,
    pub number: String,
    pub timestamp: String,
    /// The hashes of the block's transactions, in block order.
    pub transactions: Vec<String>,
}

/// A decoded block. `hash` identifies it.
#[derive(Debug, PartialEq, Eq)]
pub struct Block {
    pub hash: String,
    pub number: u64,
    /// Seconds since the Unix epoch.
    pub timestamp: u64,
    /// The hashes of the block's transactions, in block order.
    pub transactions: Vec<String>,
}

/// The texts of `list` as sequences of characters.
pub open spec fn texts(list: Seq<String>) -> Seq<Seq<char>> {
    list.map_values(|text: String| text@)
}

/// A wire block as plain mathematics.
pub struct BlockDataView {
    pub hash: Seq<char>,
    pub number: Seq<char>,
    pub timestamp: Seq<char>,
    pub transactions: Seq<Seq<char>>,
}

/// A decoded block as plain mathematics.
pub struct BlockView {
    pub hash: Seq<char>,
    pub number: u64,
    pub timestamp: u64,
    pub transactions: Seq<Seq<char>>,
}

impl View for BlockData {
    type V = BlockDataView;

    open spec fn view(&self) -> BlockDataView {
        BlockDataView {
            hash: self.hash@,
            number: self.number@,
            timestamp: self.timestamp@,
            transactions: texts(self.transactions@),
        }
    }
}

impl View for Block {
    type V = BlockView;

    open spec fn view(&self) -> BlockView {
        BlockView {
            hash: self.hash@,
            number: self.number,
            timestamp: self.timestamp,
            transactions: texts(self.transactions@),
        }
    }
}

/// The block that a wire block decodes to: the hash and the transaction
/// hashes as they are, the numbers decoded from hexadecimal.
pub open spec fn decoded_block(data: BlockDataView) -> BlockView {
    BlockView {
        hash: data.hash,
        number: decode_hex(data.number),
        timestamp: decode_hex(data.timestamp),
        transactions: data.transactions,
    }
}

/// A copy of `list`.
pub fn clone_texts(list: &Vec<String>) -> (copy: Vec<String>)
    ensures
        texts(copy@) == texts(list@),
{
    let mut copy: Vec<String> = Vec::new();
    let mut i: usize = 0;
    while i < list.len()
        invariant
            i <= list.len(),
            copy@.len() == i,
            forall|j: int| 0 <= j < i ==> copy@[j]@ == list@[j]@,
        decreases list.len() - i,
    {
        copy.push(list[i].clone());
        i = i + 1;
    }
    copy
}

impl Clone for Block {
    fn clone(&self) -> (copy: Self)
        ensures
            copy@ == self@,
    {
        Block {
            hash: self.hash.clone(),
            number: self.number,
            timestamp: self.timestamp,
            transactions: clone_texts(&self.transactions),
        }
    }
}

impl Clone for BlockData {
    fn clone(&self) -> (copy: Self)
        ensures
            copy@ == self@,
    {
        BlockData {
            hash: self.hash.clone(),
            number: self.number.clone(),
            timestamp: self.timestamp.clone(),
            transactions: clone_texts(&self.transactions),
        }
    }
}

impl Block {
    /// Decodes a wire block. Decoding never fails: a number that does not
    /// parse becomes zero.
    pub fn decode(data: BlockData) -> (block: Block)
        ensures
            block@ == decoded_block(data@),
    {
        Block {
            hash: data.hash,
            number: hex_to_dec(data.number),
            timestamp: hex_to_dec(data.timestamp),
            transactions: data.transactions,
        }
    }
}

} // verus!
