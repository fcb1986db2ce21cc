//! The read side: queries over the store. None of them changes the store.

use crate::block::{Block, BlockView};
use crate::storage::{distinct_keys, holds_key, lists, Keyed, Storage};
use crate::text::{
    lemma_lex_less_asymmetric, lemma_lex_less_irreflexive, lemma_lex_less_total,
    lemma_lex_less_transitive, lex_less, str_less,
};
use crate::transaction::{Transaction, TransactionView};
use vstd::prelude::*;

verus! {

/// `result` holds exactly the records of `table` that are `wanted`, each
/// once, in no particular order.
pub open spec fn selects<R: Keyed>(
    result: Seq<R>,
    table: Map<Seq<char>, R::V>,
    wanted: spec_fn(R::V) -> bool,
) -> bool {
    &&& distinct_keys(result)
    &&& forall|i: int|
        0 <= i < result.len() ==> {
            &&& table.contains_key(R::key_of((#[trigger] result[i])@))
            &&& table[R::key_of(result[i]@)] == result[i]@
            &&& wanted(result[i]@)
        }
    &&& forall|key: Seq<char>|
        #[trigger] table.contains_key(key) && wanted(table[key]) ==> holds_key(result, key)
}

/// Whether a transaction lies in the block with `block_hash`, where one is
/// given, and in the block numbered `block_number`, where one is given.
pub open spec fn in_block(
    transaction: TransactionView,
    block_hash: Option<String>,
    block_number: Option<u64>,
) -> bool {
    &&& block_hash matches Some(hash) ==> transaction.block_hash == hash@
    &&& block_number matches Some(number) ==> transaction.block_number == number
}

/// Whether `a` is listed before `b` among the latest blocks: the later
/// timestamp first, and of two blocks with one timestamp the one whose hash
/// comes first in lexicographic order.
pub open spec fn newer(a: BlockView, b: BlockView) -> bool {
    a.timestamp > b.timestamp || (a.timestamp == b.timestamp && lex_less(a.hash, b.hash))
}

/// `result` holds the first `limit` blocks of `table` in latest-first
/// order, or all of them where the table holds fewer.
pub open spec fn is_latest(result: Seq<Block>, table: Map<Seq<char>, BlockView>, limit: nat) -> bool {
    &&& result.len() <= limit
    &&& forall|i: int|
        0 <= i < result.len() ==> table.contains_key((#[trigger] result[i])@.hash)
            && table[result[i]@.hash] == result[i]@
    &&& forall|i: int, j: int|
        0 <= i < j < result.len() ==> newer((#[trigger] result[i])@, (#[trigger] result[j])@)
    &&& forall|key: Seq<char>| #[trigger]
        table.contains_key(key) ==> holds_key(result, key) || (result.len() == limit
            && forall|i: int|
            0 <= i < result.len() ==> newer((#[trigger] result[i])@, table[key]))
}

/// Latest-first order is transitive.
pub proof fn lemma_newer_transitive(a: BlockView, b: BlockView, c: BlockView)
    requires
        newer(a, b),
        newer(b, c),
    ensures
        newer(a, c),
{
    if a.timestamp == b.timestamp && b.timestamp == c.timestamp {
        lemma_lex_less_transitive(a.hash, b.hash, c.hash);
    }
}

/// Of two blocks with different hashes one is listed before the other.
pub proof fn lemma_newer_total(a: BlockView, b: BlockView)
    requires
        a.hash != b.hash,
    ensures
        newer(a, b) || newer(b, a),
{
    lemma_lex_less_total(a.hash, b.hash);
}

/// No block is listed before itself.
pub proof fn lemma_newer_irreflexive(a: BlockView)
    ensures
        !newer(a, a),
{
    lemma_lex_less_irreflexive(a.hash);
}

/// Two blocks are never each listed before the other.
pub proof fn lemma_newer_asymmetric(a: BlockView, b: BlockView)
    requires
        newer(a, b),
    ensures
        !newer(b, a),
{
    if a.timestamp == b.timestamp {
        lemma_lex_less_asymmetric(a.hash, b.hash);
    }
}

/// The latest blocks come at most `limit` at a time and with timestamps
/// that never rise.
pub proof fn lemma_latest_by_timestamp(
    result: Seq<Block>,
    table: Map<Seq<char>, BlockView>,
    limit: nat,
)
    requires
        is_latest(result, table, limit),
    ensures
        result.len() <= limit,
        forall|i: int, j: int|
            0 <= i <= j < result.len() ==> (#[trigger] result[i]).timestamp >= (
            #[trigger] result[j]).timestamp,
{
}

/// Where the store holds no more than `limit` blocks, the latest blocks
/// are all of them.
pub proof fn lemma_latest_holds_all(
    result: Seq<Block>,
    table: Map<Seq<char>, BlockView>,
    limit: nat,
    key: Seq<char>,
)
    requires
        is_latest(result, table, limit),
        result.len() < limit,
        table.contains_key(key),
    ensures
        holds_key(result, key),
{
}

/// The entry of `b` that stands where `a` has the block `a[at]`: it is the
/// same block or a block listed before it, given that the two answers
/// agree before `at`.
proof fn lemma_latest_step(
    a: Seq<Block>,
    b: Seq<Block>,
    table: Map<Seq<char>, BlockView>,
    limit: nat,
    at: int,
)
    requires
        is_latest(a, table, limit),
        is_latest(b, table, limit),
        0 <= at < a.len(),
        forall|i: int| 0 <= i < at ==> i < b.len() && (#[trigger] a[i])@ == b[i]@,
    ensures
        at < b.len(),
        b[at]@ == a[at]@ || newer(b[at]@, a[at]@),
{
    let key = a[at]@.hash;
    if holds_key(b, key) {
        let p = choose|p: int| 0 <= p < b.len() && Block::key_of((#[trigger] b[p])@) == key;
        if p < at {
            assert(a[p]@ == b[p]@);
            lemma_newer_irreflexive(a[at]@);
        }
    }
}

/// Two answers to one request for the latest blocks agree on their first
/// `upto` blocks.
proof fn lemma_latest_agree(
    a: Seq<Block>,
    b: Seq<Block>,
    table: Map<Seq<char>, BlockView>,
    limit: nat,
    upto: int,
)
    requires
        is_latest(a, table, limit),
        is_latest(b, table, limit),
        0 <= upto <= a.len(),
    ensures
        upto <= b.len(),
        forall|i: int| 0 <= i < upto ==> (#[trigger] a[i])@ == b[i]@,
    decreases upto,
{
    if upto > 0 {
        let at = upto - 1;
        lemma_latest_agree(a, b, table, limit, at);
        lemma_latest_step(a, b, table, limit, at);
        lemma_latest_step(b, a, table, limit, at);
        if newer(b[at]@, a[at]@) {
            lemma_newer_asymmetric(b[at]@, a[at]@);
        }
    }
}

/// The latest blocks are determined by what the store holds and by
/// `limit`: two answers hold the same blocks in the same order, whatever
/// the order in which the store came to hold them.
pub proof fn lemma_latest_unique(
    a: Seq<Block>,
    b: Seq<Block>,
    table: Map<Seq<char>, BlockView>,
    limit: nat,
)
    requires
        is_latest(a, table, limit),
        is_latest(b, table, limit),
    ensures
        a.len() == b.len(),
        forall|i: int| 0 <= i < a.len() ==> (#[trigger] a[i])@ == b[i]@,
{
    lemma_latest_agree(a, b, table, limit, a.len() as int);
    lemma_latest_agree(b, a, table, limit, b.len() as int);
}

/// Where nothing of the store is wanted, nothing is selected.
pub proof fn lemma_selects_nothing<R: Keyed>(
    result: Seq<R>,
    table: Map<Seq<char>, R::V>,
    wanted: spec_fn(R::V) -> bool,
)
    requires
        selects(result, table, wanted),
        forall|key: Seq<char>| #[trigger] table.contains_key(key) ==> !wanted(table[key]),
    ensures
        result.len() == 0,
{
    if result.len() > 0 {
        assert(table.contains_key(R::key_of(result[0]@)));
    }
}

/// With no condition every stored transaction is selected.
pub proof fn lemma_no_condition_selects_all(
    result: Seq<Transaction>,
    table: Map<Seq<char>, TransactionView>,
)
    requires
        selects(result, table, |transaction: TransactionView| in_block(transaction, None, None)),
    ensures
        lists(result, table),
{
}

/// With both conditions the selected transactions are those that either
/// condition alone selects as well.
pub proof fn lemma_both_conditions_intersect(
    table: Map<Seq<char>, TransactionView>,
    by_hash: Seq<Transaction>,
    by_number: Seq<Transaction>,
    both: Seq<Transaction>,
    hash: String,
    number: u64,
)
    requires
        selects(
            by_hash,
            table,
            |transaction: TransactionView| in_block(transaction, Some(hash), None),
        ),
        selects(
            by_number,
            table,
            |transaction: TransactionView| in_block(transaction, None, Some(number)),
        ),
        selects(
            both,
            table,
            |transaction: TransactionView| in_block(transaction, Some(hash), Some(number)),
        ),
    ensures
        forall|key: Seq<char>| #[trigger]
            holds_key(both, key) <==> holds_key(by_hash, key) && holds_key(by_number, key),
{
}

/// Whether `a` is listed before `b` among the latest blocks.
fn is_newer(a: &Block, b: &Block) -> (before: bool)
    ensures
        before == newer(a@, b@),
{
    a.timestamp > b.timestamp || (a.timestamp == b.timestamp && str_less(
        a.hash.as_str(),
        b.hash.as_str(),
    ))
}

/// Whether the entry at `a` is listed before the entry at `b`.
spec fn ahead(entries: Seq<Block>, a: usize, b: usize) -> bool {
    newer(entries[a as int]@, entries[b as int]@)
}

/// `picked` names entries below `bound`, in latest-first order.
spec fn ranked(picked: Seq<usize>, entries: Seq<Block>, bound: int) -> bool {
    &&& forall|i: int| 0 <= i < picked.len() ==> (#[trigger] picked[i]) < bound
    &&& forall|i: int, j: int|
        0 <= i < j < picked.len() ==> ahead(entries, #[trigger] picked[i], #[trigger] picked[j])
}

/// The entry at `e` is among `picked`, or `picked` is full and all of it
/// is listed before that entry.
spec fn covered(picked: Seq<usize>, entries: Seq<Block>, e: usize, limit: int) -> bool {
    picked.contains(e) || (picked.len() == limit && forall|i: int|
        0 <= i < picked.len() ==> ahead(entries, #[trigger] picked[i], e))
}

/// Every entry below `bound` is covered.
spec fn covers(picked: Seq<usize>, entries: Seq<Block>, bound: int, limit: int) -> bool {
    forall|e: usize| e < bound ==> #[trigger] covered(picked, entries, e, limit)
}

/// Putting the entry at `next` into its place among the picked, after
/// dropping the last of them where they were full.
proof fn lemma_pick(
    before: Seq<usize>,
    after: Seq<usize>,
    entries: Seq<Block>,
    next: usize,
    at: int,
    limit: int,
)
    requires
        next < entries.len(),
        ranked(before, entries, next as int),
        covers(before, entries, next as int, limit),
        0 <= at <= before.len() <= limit,
        at < limit,
        forall|i: int| 0 <= i < at ==> ahead(entries, #[trigger] before[i], next),
        forall|i: int| at <= i < before.len() ==> ahead(entries, next, #[trigger] before[i]),
        after == (if before.len() == limit {
            before.drop_last()
        } else {
            before
        }).insert(at, next),
    ensures
        after.len() <= limit,
        ranked(after, entries, next + 1),
        covers(after, entries, next + 1, limit),
{
    let kept = if before.len() == limit {
        before.drop_last()
    } else {
        before
    };
    kept.insert_ensures(at, next);
    assert forall|e: usize| e < next + 1 implies #[trigger] covered(after, entries, e, limit) by {
        if e != next {
            assert(covered(before, entries, e, limit));
            let p = if before.contains(e) {
                choose|p: int| 0 <= p < before.len() && before[p] == e
            } else {
                -1
            };
            if 0 <= p < at {
                assert(after[p] == e);
            } else if at <= p < kept.len() {
                assert(after[p + 1] == e);
            } else {
                // The entry was not picked, or was dropped from the end: all
                // that stays is listed before it.
                let last = before[limit - 1];
                assert forall|i: int| 0 <= i < after.len() implies ahead(
                    entries,
                    #[trigger] after[i],
                    e,
                ) by {
                    if i == at && p < 0 {
                        lemma_newer_transitive(
                            entries[next as int]@,
                            entries[last as int]@,
                            entries[e as int]@,
                        );
                    }
                }
            }
        }
    }
}

/// Leaving the entry at `next` out, all of the picked being listed
/// before it.
proof fn lemma_pass(before: Seq<usize>, entries: Seq<Block>, next: usize, limit: int)
    requires
        next < entries.len(),
        ranked(before, entries, next as int),
        covers(before, entries, next as int, limit),
        before.len() == limit,
        forall|i: int| 0 <= i < before.len() ==> ahead(entries, #[trigger] before[i], next),
    ensures
        ranked(before, entries, next + 1),
        covers(before, entries, next + 1, limit),
{
}

/// One of the marked entries has the model `model`.
spec fn marked_model<R: Keyed>(entries: Seq<R>, marks: Seq<bool>, model: R::V) -> bool {
    exists|e: int| 0 <= e < entries.len() && marks[e] && (#[trigger] entries[e])@ == model
}

/// The entries of `entries` that `marks` marks, each once.
spec fn marked<R: Keyed>(result: Seq<R>, entries: Seq<R>, marks: Seq<bool>) -> bool {
    &&& distinct_keys(result)
    &&& forall|i: int|
        0 <= i < result.len() ==> marked_model(entries, marks, (#[trigger] result[i])@)
    &&& forall|e: int|
        0 <= e < entries.len() && #[trigger] marks[e] ==> holds_key(result, R::key_of(entries[e]@))
}

/// Copies of the entries that `marks` marks.
fn copy_marked<R: Keyed>(entries: &Vec<R>, marks: &Vec<bool>) -> (result: Vec<R>)
    requires
        marks@.len() == entries@.len(),
        distinct_keys(entries@),
    ensures
        marked(result@, entries@, marks@),
{
    let mut result: Vec<R> = Vec::new();
    let ghost mut origin: Seq<int> = Seq::empty();
    let mut at: usize = 0;
    while at < entries.len()
        invariant
            at <= entries.len(),
            marks@.len() == entries@.len(),
            distinct_keys(entries@),
            origin.len() == result@.len(),
            forall|i: int| 0 <= i < origin.len() ==> 0 <= #[trigger] origin[i] < at,
            forall|i: int| 0 <= i < origin.len() ==> marks@[#[trigger] origin[i]],
            forall|i: int|
                0 <= i < result@.len() ==> (#[trigger] result@[i])@ == entries@[origin[i]]@,
            forall|i: int, j: int|
                0 <= i < j < origin.len() ==> #[trigger] origin[i] < #[trigger] origin[j],
            forall|e: int|
                0 <= e < at && #[trigger] marks@[e] ==> holds_key(
                    result@,
                    R::key_of(entries@[e]@),
                ),
        decreases entries.len() - at,
    {
        if marks[at] {
            let ghost before = result@;
            result.push(entries[at].duplicate());
            proof {
                origin = origin.push(at as int);
                assert forall|e: int| 0 <= e < at + 1 && #[trigger] marks@[e] implies holds_key(
                    result@,
                    R::key_of(entries@[e]@),
                ) by {
                    if e < at {
                        let i = choose|i: int|
                            0 <= i < before.len() && R::key_of((#[trigger] before[i])@)
                                == R::key_of(entries@[e]@);
                        assert(result@[i] == before[i]);
                    } else {
                        assert(result@[before.len() as int]@ == entries@[e]@);
                    }
                }
            }
        }
        at = at + 1;
    }
    result
}

/// What is marked in a listing of `table` by `wanted` is what `wanted`
/// selects from `table`.
proof fn lemma_marked_selects<R: Keyed>(
    result: Seq<R>,
    entries: Seq<R>,
    marks: Seq<bool>,
    table: Map<Seq<char>, R::V>,
    wanted: spec_fn(R::V) -> bool,
)
    requires
        lists(entries, table),
        marks.len() == entries.len(),
        forall|e: int| 0 <= e < entries.len() ==> marks[e] == wanted((#[trigger] entries[e])@),
        marked(result, entries, marks),
    ensures
        selects(result, table, wanted),
{
}

/// The entry point of the queries.
pub struct QueryRoot;

impl QueryRoot {
    /// The block with `hash`, if the store holds one.
    pub fn block(&self, storage: &Storage, hash: String) -> (found: Option<Block>)
        ensures
            match found {
                Some(block) => storage@.blocks.contains_key(hash@) && storage@.blocks[hash@]
                    == block@,
                None => !storage@.blocks.contains_key(hash@),
            },
    {
        storage.get_block(hash.as_str())
    }

    /// Every stored block numbered `number`, forks included, in no
    /// particular order.
    pub fn blocks_by_number(&self, storage: &Storage, number: u64) -> (result: Vec<Block>)
        ensures
            selects(result@, storage@.blocks, |block: BlockView| block.number == number),
    {
        let entries = storage.blocks.entries();
        let mut marks: Vec<bool> = Vec::new();
        let mut at: usize = 0;
        while at < entries.len()
            invariant
                at <= entries.len(),
                marks@.len() == at,
                forall|e: int|
                    0 <= e < at ==> marks@[e] == ((#[trigger] entries@[e])@.number == number),
            decreases entries.len() - at,
        {
            marks.push(entries[at].number == number);
            at = at + 1;
        }
        let result = copy_marked(entries, &marks);
        proof {
            lemma_marked_selects(
                result@,
                entries@,
                marks@,
                storage@.blocks,
                |block: BlockView| block.number == number,
            );
        }
        result
    }

    /// The `limit` latest blocks, latest first; of two blocks with one
    /// timestamp the one whose hash comes first in lexicographic order
    /// stands first.
    pub fn latest_blocks(&self, storage: &Storage, limit: usize) -> (result: Vec<Block>)
        ensures
            is_latest(result@, storage@.blocks, limit as nat),
            result@.len() <= limit,
            forall|i: int, j: int|
                0 <= i <= j < result@.len() ==> (#[trigger] result@[i]).timestamp >= (
                #[trigger] result@[j]).timestamp,
    {
        let entries = storage.blocks.entries();
        let ghost table = storage@.blocks;
        let mut picked: Vec<usize> = Vec::new();
        let mut next: usize = 0;
        while next < entries.len()
            invariant
                next <= entries.len(),
                lists(entries@, table),
                picked@.len() <= limit,
                ranked(picked@, entries@, next as int),
                covers(picked@, entries@, next as int, limit as int),
            decreases entries.len() - next,
        {
            let ghost before = picked@;
            let mut at: usize = picked.len();
            loop
                invariant
                    at <= picked@.len(),
                    next < entries.len(),
                    picked@ == before,
                    ranked(picked@, entries@, next as int),
                    forall|i: int|
                        at <= i < picked@.len() ==> ahead(entries@, next, #[trigger] picked@[i]),
                ensures
                    at > 0 ==> !ahead(entries@, next, picked@[at - 1]),
                decreases at,
            {
                if at == 0 {
                    break ;
                }
                if !is_newer(&entries[next], &entries[picked[at - 1]]) {
                    break ;
                }
                at = at - 1;
            }
            proof {
                assert forall|i: int| 0 <= i < at implies ahead(
                    entries@,
                    #[trigger] before[i],
                    next,
                ) by {
                    let last = before[at - 1];
                    assert(Block::key_of(entries@[last as int]@) != Block::key_of(
                        entries@[next as int]@,
                    ));
                    lemma_newer_total(entries@[last as int]@, entries@[next as int]@);
                    if i < at - 1 {
                        lemma_newer_transitive(
                            entries@[before[i] as int]@,
                            entries@[last as int]@,
                            entries@[next as int]@,
                        );
                    }
                }
            }
            if at < limit {
                if picked.len() == limit {
                    picked.pop();
                }
                picked.insert(at, next);
                proof {
                    lemma_pick(before, picked@, entries@, next, at as int, limit as int);
                }
            } else {
                proof {
                    lemma_pass(before, entries@, next, limit as int);
                }
            }
            next = next + 1;
        }
        let mut result: Vec<Block> = Vec::new();
        let mut i: usize = 0;
        while i < picked.len()
            invariant
                i <= picked@.len(),
                result@.len() == i,
                ranked(picked@, entries@, entries@.len() as int),
                forall|k: int|
                    0 <= k < i ==> (#[trigger] result@[k])@ == entries@[picked@[k] as int]@,
            decreases picked@.len() - i,
        {
            result.push(entries[picked[i]].clone());
            i = i + 1;
        }
        proof {
            assert forall|key: Seq<char>| #[trigger] table.contains_key(key) implies holds_key(
                result@,
                key,
            ) || (result@.len() == limit && forall|i: int|
                0 <= i < result@.len() ==> newer((#[trigger] result@[i])@, table[key])) by {
                let e = choose|e: int|
                    0 <= e < entries@.len() && Block::key_of((#[trigger] entries@[e])@) == key;
                assert(covered(picked@, entries@, e as usize, limit as int));
                if picked@.contains(e as usize) {
                    let p = choose|p: int| 0 <= p < picked@.len() && picked@[p] == e as usize;
                    assert(result@[p]@ == entries@[e]@);
                }
            }
            lemma_latest_by_timestamp(result@, table, limit as nat);
        }
        result
    }

    /// The transaction with `hash`, if the store holds one.
    pub fn transaction(&self, storage: &Storage, hash: String) -> (found: Option<Transaction>)
        ensures
            match found {
                Some(transaction) => storage@.transactions.contains_key(hash@)
                    && storage@.transactions[hash@] == transaction@,
                None => !storage@.transactions.contains_key(hash@),
            },
    {
        storage.get_transaction(hash.as_str())
    }

    /// The stored transactions that meet every condition that is given:
    /// the hash of their block, the number of their block. With no
    /// condition these are all stored transactions. In no particular
    /// order.
    pub fn transactions_for_block(
        &self,
        storage: &Storage,
        block_hash: Option<String>,
        block_number: Option<u64>,
    ) -> (result: Vec<Transaction>)
        ensures
            selects(
                result@,
                storage@.transactions,
                |transaction: TransactionView| in_block(transaction, block_hash, block_number),
            ),
    {
        let entries = storage.transactions.entries();
        let mut marks: Vec<bool> = Vec::new();
        let mut at: usize = 0;
        while at < entries.len()
            invariant
                at <= entries.len(),
                marks@.len() == at,
                forall|e: int|
                    0 <= e < at ==> marks@[e] == in_block(
                        (#[trigger] entries@[e])@,
                        block_hash,
                        block_number,
                    ),
            decreases entries.len() - at,
        {
            let entry = &entries[at];
            let hash_fits = match &block_hash {
                Some(hash) => entry.block_hash == *hash,
                None => true,
            };
            let number_fits = match block_number {
                Some(number) => entry.block_number == number,
                None => true,
            };
            marks.push(hash_fits && number_fits);
            at = at + 1;
        }
        let result = copy_marked(entries, &marks);
        proof {
            lemma_marked_selects(
                result@,
                entries@,
                marks@,
                storage@.transactions,
                |transaction: TransactionView| in_block(transaction, block_hash, block_number),
            );
        }
        result
    }
}

} // verus!
