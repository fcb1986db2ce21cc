//! What the provider hands back: the records that the crawl reads, and
//! what a call came to.

use crate::hash::Hash256;
use vstd::prelude::*;

verus! {

/// A block as the provider returned it, reduced to what the crawl reads:
/// its hash, which a pending block lacks, and the hashes of its
/// transactions in block order.
#[derive(Debug, PartialEq, Eq)]
pub struct FetchedBlock {
    pub hash: Option<Hash256>,
    pub transactions: Vec<Hash256>,
}

/// A transaction as the provider returned it: its hash, and the record
/// itself, which the crawl carries along without reading it.
#[derive(Debug, PartialEq, Eq)]
pub struct FetchedTransaction<T> {
    pub hash: Hash256,
    pub record: T,
}

/// What one call to the provider came to.
#[derive(Debug, PartialEq, Eq)]
pub enum Fetched<R> {
    /// The provider returned the record.
    Found(R),
    /// The provider knows no such record.
    NotFound,
    /// The call failed.
    Failed,
}

impl<R> Fetched<R> {
    /// The record, if there is one: a record that was not found and a call
    /// that failed both count as absent.
    pub open spec fn spec_found(self) -> Option<R> {
        match self {
            Fetched::Found(record) => Some(record),
            Fetched::NotFound => None,
            Fetched::Failed => None,
        }
    }

    /// The record, if there is one: a record that was not found and a call
    /// that failed both count as absent.
    pub fn found(self) -> (record: Option<R>)
        ensures
            record == self.spec_found(),
    {
        match self {
            Fetched::Found(record) => Some(record),
            Fetched::NotFound => None,
            Fetched::Failed => None,
        }
    }
}

} // verus!
