//! The store of decoded blocks and transactions, keyed by hash. A record
//! that is added under a hash already held replaces the earlier one; no
//! record is ever removed. A hash is found through a hash map; the records
//! are listed in the order in which their hashes first came, so that what a
//! query returns does not depend on how the map happens to be laid out.

use crate::block::{Block, BlockView};
use crate::transaction::{Transaction, TransactionView};
use vstd::hash_map::StringHashMap;
use vstd::prelude::*;

verus! {

/// A record that a text identifies.
pub trait Keyed: View + Sized {
    /// The key of a record, read off its model.
    spec fn key_of(model: Self::V) -> Seq<char>;

    /// The record's key.
    fn key(&self) -> (key: &String)
        ensures
            key@ == Self::key_of(self@),
    ;

    /// A copy of the record.
    fn duplicate(&self) -> (copy: Self)
        ensures
            copy@ == self@,
    ;
}

impl Keyed for Block {
    open spec fn key_of(model: BlockView) -> Seq<char> {
        model.hash
    }

    fn key(&self) -> (key: &String) {
        &self.hash
    }

    fn duplicate(&self) -> (copy: Self) {
        self.clone()
    }
}

impl Keyed for Transaction {
    open spec fn key_of(model: TransactionView) -> Seq<char> {
        model.hash
    }

    fn key(&self) -> (key: &String) {
        &self.hash
    }

    fn duplicate(&self) -> (copy: Self) {
        self.clone()
    }
}

/// No two of `entries` share a key.
pub open spec fn distinct_keys<R: Keyed>(entries: Seq<R>) -> bool {
    forall|i: int, j: int|
        0 <= i < j < entries.len() ==> R::key_of((#[trigger] entries[i])@) != R::key_of(
            (#[trigger] entries[j])@,
        )
}

/// One of `entries` has the key `key`.
pub open spec fn holds_key<R: Keyed>(entries: Seq<R>, key: Seq<char>) -> bool {
    exists|i: int| 0 <= i < entries.len() && R::key_of((#[trigger] entries[i])@) == key
}

/// `entries` lists `table`: every entry is the record that the table holds
/// under its key, no two entries share a key, and every key of the table
/// has its entry.
pub open spec fn lists<R: Keyed>(entries: Seq<R>, table: Map<Seq<char>, R::V>) -> bool {
    &&& distinct_keys(entries)
    &&& forall|i: int|
        0 <= i < entries.len() ==> table.contains_key(R::key_of((#[trigger] entries[i])@))
            && table[R::key_of(entries[i]@)] == entries[i]@
    &&& forall|key: Seq<char>| #[trigger] table.contains_key(key) ==> holds_key(entries, key)
}

/// The mapping from key to record that `entries` stand for.
spec fn table_of<R: Keyed>(entries: Seq<R>) -> Map<Seq<char>, R::V> {
    Map::new(
        |key: Seq<char>| holds_key(entries, key),
        |key: Seq<char>|
            entries[choose|i: int|
                0 <= i < entries.len() && R::key_of((#[trigger] entries[i])@) == key]@,
    )
}

/// Entries with distinct keys list the mapping they stand for.
proof fn lemma_table_lists<R: Keyed>(entries: Seq<R>)
    requires
        distinct_keys(entries),
    ensures
        lists(entries, table_of(entries)),
{
}

/// Adding a record under a new key.
proof fn lemma_table_push<R: Keyed>(entries: Seq<R>, record: R)
    requires
        distinct_keys(entries),
        !holds_key(entries, R::key_of(record@)),
    ensures
        distinct_keys(entries.push(record)),
        table_of(entries.push(record)) == table_of(entries).insert(R::key_of(record@), record@),
{
    let after = entries.push(record);
    let key = R::key_of(record@);
    lemma_table_lists(entries);
    lemma_table_lists(after);
    let left = table_of(after);
    let right = table_of(entries).insert(key, record@);
    assert forall|k: Seq<char>| left.contains_key(k) == right.contains_key(k) by {
        if right.contains_key(k) {
            if k == key {
                assert(after[entries.len() as int] == record);
            } else {
                let i = choose|i: int|
                    0 <= i < entries.len() && R::key_of((#[trigger] entries[i])@) == k;
                assert(after[i] == entries[i]);
            }
        }
    }
    assert(left =~= right);
}

/// Replacing the record held under a key.
proof fn lemma_table_update<R: Keyed>(entries: Seq<R>, at: int, record: R)
    requires
        distinct_keys(entries),
        0 <= at < entries.len(),
        R::key_of(entries[at]@) == R::key_of(record@),
    ensures
        distinct_keys(entries.update(at, record)),
        table_of(entries.update(at, record)) == table_of(entries).insert(
            R::key_of(record@),
            record@,
        ),
{
    let after = entries.update(at, record);
    let key = R::key_of(record@);
    lemma_table_lists(entries);
    lemma_table_lists(after);
    let left = table_of(after);
    let right = table_of(entries).insert(key, record@);
    assert forall|k: Seq<char>| left.contains_key(k) == right.contains_key(k) by {
        if right.contains_key(k) {
            if k == key {
                assert(after[at] == record);
            } else {
                let i = choose|i: int|
                    0 <= i < entries.len() && R::key_of((#[trigger] entries[i])@) == k;
                assert(after[i] == entries[i]);
            }
        }
    }
    assert(left =~= right);
}

/// Putting two records under one key, one after the other, leaves what
/// putting the second alone leaves: the key holds the second record, and
/// the second put adds no key.
pub proof fn lemma_upsert_twice<V>(table: Map<Seq<char>, V>, key: Seq<char>, first: V, second: V)
    ensures
        table.insert(key, first).insert(key, second) == table.insert(key, second),
        table.insert(key, first).insert(key, second)[key] == second,
        table.insert(key, first).insert(key, second).dom() == table.insert(key, first).dom(),
{
}

/// Putting a record under a key takes nothing away and touches no other
/// key: what was held stays held, and under every other key stands what
/// stood there.
pub proof fn lemma_upsert_keeps_others<V>(
    table: Map<Seq<char>, V>,
    key: Seq<char>,
    record: V,
    other: Seq<char>,
)
    requires
        other != key,
    ensures
        table.insert(key, record).contains_key(other) == table.contains_key(other),
        table.contains_key(other) ==> table.insert(key, record)[other] == table[other],
        table.insert(key, record).contains_key(key),
{
}

/// A listing of a table has exactly one entry for each key of the table,
/// and that entry is the record held under the key.
pub proof fn lemma_one_entry_per_key<R: Keyed>(
    entries: Seq<R>,
    table: Map<Seq<char>, R::V>,
    key: Seq<char>,
) -> (at: int)
    requires
        lists(entries, table),
        table.contains_key(key),
    ensures
        0 <= at < entries.len(),
        entries[at]@ == table[key],
        forall|i: int|
            0 <= i < entries.len() && R::key_of((#[trigger] entries[i])@) == key ==> i == at,
{
    let at = choose|i: int| 0 <= i < entries.len() && R::key_of((#[trigger] entries[i])@) == key;
    at
}

/// The records of a table with the index that finds them: `entries` in
/// the order in which their keys first came, and for every key the
/// position of its entry.
struct Rows<R: Keyed> {
    entries: Vec<R>,
    index: StringHashMap<usize>,
}

impl<R: Keyed> Rows<R> {
    /// The index knows every entry under its key, and nothing else.
    spec fn wf(&self) -> bool {
        &&& forall|i: int|
            0 <= i < self.entries@.len() ==> self.index@.contains_key(
                R::key_of((#[trigger] self.entries@[i])@),
            ) && self.index@[R::key_of(self.entries@[i]@)] == i
        &&& forall|key: Seq<char>| #[trigger]
            self.index@.contains_key(key) ==> self.index@[key] < self.entries@.len() && R::key_of(
                self.entries@[self.index@[key] as int]@,
            ) == key
    }

    /// Indexed entries have distinct keys.
    proof fn lemma_distinct(&self)
        requires
            self.wf(),
        ensures
            distinct_keys(self.entries@),
    {
    }

    /// Rows that hold nothing.
    fn new() -> (rows: Self)
        ensures
            rows.wf(),
            rows.entries@.len() == 0,
    {
        Rows { entries: Vec::new(), index: StringHashMap::new() }
    }

    /// Where the record with `key` stands, if there is one.
    fn position(&self, key: &str) -> (found: Option<usize>)
        requires
            self.wf(),
        ensures
            match found {
                Some(at) => at < self.entries@.len() && R::key_of(self.entries@[at as int]@)
                    == key@,
                None => !holds_key(self.entries@, key@),
            },
    {
        match self.index.get(key) {
            Some(at) => Some(*at),
            None => None,
        }
    }

    /// Puts `record` in the place of the entry with its key, or behind the
    /// entries where no entry has its key.
    fn upsert(&mut self, record: R)
        requires
            old(self).wf(),
        ensures
            final(self).wf(),
            table_of(final(self).entries@) == table_of(old(self).entries@).insert(
                R::key_of(record@),
                record@,
            ),
    {
        proof {
            self.lemma_distinct();
        }
        match self.position(record.key().as_str()) {
            Some(at) => {
                proof {
                    lemma_table_update(self.entries@, at as int, record);
                }
                self.entries.set(at, record);
            },
            None => {
                proof {
                    lemma_table_push(self.entries@, record);
                }
                let key = record.key().clone();
                let at = self.entries.len();
                self.entries.push(record);
                self.index.insert(key, at);
            },
        }
    }
}

/// Records keyed by text. A key is looked up in constant time on average;
/// the records are listed in the order in which their keys first came.
pub struct Table<R: Keyed> {
    rows: Rows<R>,
}

impl<R: Keyed> View for Table<R> {
    type V = Map<Seq<char>, R::V>;

    closed spec fn view(&self) -> Map<Seq<char>, R::V> {
        table_of(self.rows.entries@)
    }
}

impl<R: Keyed> Table<R> {
    #[verifier::type_invariant]
    spec fn indexed(&self) -> bool {
        self.rows.wf()
    }

    /// A table that holds nothing.
    pub fn new() -> (table: Self)
        ensures
            table@ == Map::<Seq<char>, R::V>::empty(),
    {
        let table = Table { rows: Rows::new() };
        table
    }

    /// Puts `record` under its key, in place of the record held there, if
    /// there is one.
    pub fn upsert(&mut self, record: R)
        ensures
            final(self)@ == old(self)@.insert(R::key_of(record@), record@),
    {
        proof {
            use_type_invariant(&*self);
        }
        let mut rows = Rows::new();
        core::mem::swap(&mut self.rows, &mut rows);
        rows.upsert(record);
        core::mem::swap(&mut self.rows, &mut rows);
    }

    /// A copy of the record held under `key`, if there is one.
    pub fn get(&self, key: &str) -> (found: Option<R>)
        ensures
            match found {
                Some(record) => self@.contains_key(key@) && self@[key@] == record@,
                None => !self@.contains_key(key@),
            },
    {
        proof {
            use_type_invariant(self);
            self.rows.lemma_distinct();
            lemma_table_lists(self.rows.entries@);
        }
        match self.rows.position(key) {
            Some(at) => Some(self.rows.entries[at].duplicate()),
            None => None,
        }
    }

    /// Every record held, each once.
    pub fn entries(&self) -> (entries: &Vec<R>)
        ensures
            lists(entries@, self@),
    {
        proof {
            use_type_invariant(self);
            self.rows.lemma_distinct();
            lemma_table_lists(self.rows.entries@);
        }
        &self.rows.entries
    }
}

/// The store: blocks by hash and transactions by hash.
pub struct Storage {
    pub blocks: Table<Block>,
    pub transactions: Table<Transaction>,
}

/// The store as plain mathematics.
pub struct StorageView {
    pub blocks: Map<Seq<char>, BlockView>,
    pub transactions: Map<Seq<char>, TransactionView>,
}

impl View for Storage {
    type V = StorageView;

    open spec fn view(&self) -> StorageView {
        StorageView { blocks: self.blocks@, transactions: self.transactions@ }
    }
}

impl Storage {
    /// A store that holds nothing.
    pub fn new() -> (storage: Self)
        ensures
            storage@.blocks == Map::<Seq<char>, BlockView>::empty(),
            storage@.transactions == Map::<Seq<char>, TransactionView>::empty(),
    {
        Storage { blocks: Table::new(), transactions: Table::new() }
    }

    /// Puts `block` under its hash, in place of the block held there, if
    /// there is one.
    pub fn add_block(&mut self, block: Block)
        ensures
            final(self)@.blocks == old(self)@.blocks.insert(block@.hash, block@),
            final(self)@.transactions == old(self)@.transactions,
    {
        self.blocks.upsert(block);
    }

    /// Puts `transaction` under its hash, in place of the transaction held
    /// there, if there is one.
    pub fn add_transaction(&mut self, transaction: Transaction)
        ensures
            final(self)@.transactions == old(self)@.transactions.insert(
                transaction@.hash,
                transaction@,
            ),
            final(self)@.blocks == old(self)@.blocks,
    {
        self.transactions.upsert(transaction);
    }

    /// A copy of the block with `hash`, if the store holds one.
    pub fn get_block(&self, hash: &str) -> (found: Option<Block>)
        ensures
            match found {
                Some(block) => self@.blocks.contains_key(hash@) && self@.blocks[hash@] == block@,
                None => !self@.blocks.contains_key(hash@),
            },
    {
        self.blocks.get(hash)
    }

    /// A copy of the transaction with `hash`, if the store holds one.
    pub fn get_transaction(&self, hash: &str) -> (found: Option<Transaction>)
        ensures
            match found {
                Some(transaction) => self@.transactions.contains_key(hash@)
                    && self@.transactions[hash@] == transaction@,
                None => !self@.transactions.contains_key(hash@),
            },
    {
        self.transactions.get(hash)
    }
}

} // verus!
