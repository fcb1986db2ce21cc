//! The acceptance predicate of the crawl: optional substring filters over
//! the text of a record's hash.

use crate::hash::{full_form, Hash256};
use crate::provider::{FetchedBlock, FetchedTransaction};
use crate::text::{contains, is_substring};
use vstd::prelude::*;

verus! {

/// The substring filters of a crawl. An absent filter accepts everything.
#[derive(Debug, PartialEq, Eq)]
pub struct FilterOption {
    pub tx_hash_filter: Option<String>,
    pub block_hash_filter: Option<String>,
}

/// An absent filter accepts every text; a present one accepts exactly the
/// texts that contain it.
pub open spec fn accepts(text: Seq<char>, filter: Option<String>) -> bool {
    match filter {
        None => true,
        Some(part) => is_substring(part@, text),
    }
}

/// Whether a block passes `filter`, judged on the full text of its hash. A
/// block without a hash passes only where no filter is set.
pub open spec fn block_accepted(hash: Option<Hash256>, filter: Option<String>) -> bool {
    match hash {
        Some(h) => accepts(full_form(h.bytes@), filter),
        None => filter is None,
    }
}

/// Whether a transaction passes `filter`, judged on the full text of its
/// hash.
pub open spec fn transaction_accepted(hash: Hash256, filter: Option<String>) -> bool {
    accepts(full_form(hash.bytes@), filter)
}

/// One predicate judges blocks and transactions: a block and a transaction
/// with the same hash pass the same filters.
pub proof fn lemma_one_predicate(hash: Hash256, filter: Option<String>)
    ensures
        block_accepted(Some(hash), filter) == transaction_accepted(hash, filter),
        filter matches Some(part) ==> transaction_accepted(hash, filter) == is_substring(
            part@,
            full_form(hash.bytes@),
        ),
        transaction_accepted(hash, None),
        block_accepted(Some(hash), None),
{
}

/// Whether `transaction` passes `filter`.
pub fn filter_transaction<T>(transaction: &FetchedTransaction<T>, filter: &Option<String>) -> (ok:
    bool)
    ensures
        ok == transaction_accepted(transaction.hash, *filter),
        filter is None ==> ok,
        filter matches Some(part) ==> ok == is_substring(
            part@,
            full_form(transaction.hash.bytes@),
        ),
{
    match filter {
        Some(value) => {
            let text = transaction.hash.full_text();
            contains(text.as_str(), value.as_str())
        },
        None => true,
    }
}

/// Whether `block` passes `filter`.
pub fn filter_block(block: &FetchedBlock, filter: &Option<String>) -> (ok: bool)
    ensures
        ok == block_accepted(block.hash, *filter),
        filter is None ==> ok,
        filter matches Some(part) ==> (block.hash matches Some(hash) ==> ok == is_substring(
            part@,
            full_form(hash.bytes@),
        )),
        filter is Some && block.hash is None ==> !ok,
{
    match filter {
        Some(value) => match &block.hash {
            Some(hash) => {
                let text = hash.full_text();
                contains(text.as_str(), value.as_str())
            },
            None => false,
        },
        None => true,
    }
}

} // verus!
