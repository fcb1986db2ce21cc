//! The ingestion path: the consumer's settings, which record a topic
//! carries, and what the records read from the transport do to the store.

use crate::block::{decoded_block, Block, BlockData};
use crate::storage::{Storage, StorageView};
use crate::transaction::{decoded_transaction, Transaction, TransactionData};
use vstd::prelude::*;

verus! {

/// Where a consumer group without a committed offset starts to read.
#[derive(Clone, Copy, Debug, PartialEq, Eq, Structural)]
pub enum FetchOffset {
    /// At the oldest message that the broker still holds.
    Earliest,
    /// Behind the newest message.
    Latest,
}

/// Who keeps the offsets that a consumer group commits.
#[derive(Clone, Copy, Debug, PartialEq, Eq, Structural)]
pub enum GroupOffsetStorage {
    Zookeeper,
    /// The broker itself.
    Kafka,
}

/// The consumer's settings: the brokers to connect to, the topics to read,
/// and the group under which offsets are committed.
#[derive(Debug)]
pub struct KafkaConsumer {
    /// The brokers, each as `host:port`.
    pub hosts: Vec<String>,
    pub topics: Vec<String>,
    pub group: String,
    pub fallback_offset: FetchOffset,
    pub offset_storage: GroupOffsetStorage,
}

impl KafkaConsumer {
    /// The settings for reading `topics` from `hosts`: as the group
    /// `group`, from the oldest message on where the group has committed
    /// nothing, with the offsets kept by the broker.
    pub fn new(hosts: Vec<String>, topics: Vec<String>) -> (consumer: Self)
        ensures
            consumer.hosts == hosts,
            consumer.topics == topics,
            consumer.group@ == "group"@,
            consumer.fallback_offset == FetchOffset::Earliest,
            consumer.offset_storage == GroupOffsetStorage::Kafka,
    {
        KafkaConsumer {
            hosts,
            topics,
            group: "group".to_owned(),
            fallback_offset: FetchOffset::Earliest,
            offset_storage: GroupOffsetStorage::Kafka,
        }
    }
}

/// The kinds of wire record.
#[derive(Clone, Copy, Debug, PartialEq, Eq, Structural)]
pub enum RecordKind {
    Block,
    Transaction,
}

/// A wire record read from the transport.
#[derive(Debug, PartialEq, Eq)]
pub enum WireRecord {
    Block(BlockData),
    Transaction(TransactionData),
}

/// The kind of record that a topic carries: blocks on `block`,
/// transactions on `tx`, and nothing that the store takes on any other.
pub open spec fn kind_of_topic(topic: Seq<char>) -> Option<RecordKind> {
    if topic == "block"@ {
        Some(RecordKind::Block)
    } else if topic == "tx"@ {
        Some(RecordKind::Transaction)
    } else {
        None
    }
}

/// The kind of record to parse from a message on `topic`, or `None` where
/// the message is to be passed over.
pub fn record_kind(topic: &str) -> (kind: Option<RecordKind>)
    ensures
        kind == kind_of_topic(topic@),
{
    let name = topic.to_owned();
    if name == "block".to_owned() {
        Some(RecordKind::Block)
    } else if name == "tx".to_owned() {
        Some(RecordKind::Transaction)
    } else {
        None
    }
}

impl StorageView {
    /// The store after a wire block was ingested: the decoded block lies
    /// under its hash.
    pub open spec fn with_block(self, data: BlockData) -> StorageView {
        StorageView {
            blocks: self.blocks.insert(data@.hash, decoded_block(data@)),
            transactions: self.transactions,
        }
    }

    /// The store after a wire transaction was ingested: the decoded
    /// transaction lies under its hash.
    pub open spec fn with_transaction(self, data: TransactionData) -> StorageView {
        StorageView {
            blocks: self.blocks,
            transactions: self.transactions.insert(data@.hash, decoded_transaction(data@)),
        }
    }

    /// The store after `record` was ingested.
    pub open spec fn ingested(self, record: WireRecord) -> StorageView {
        match record {
            WireRecord::Block(data) => self.with_block(data),
            WireRecord::Transaction(data) => self.with_transaction(data),
        }
    }

    /// The store after the records of `batch` were ingested, first to last.
    pub open spec fn ingested_all(self, batch: Seq<WireRecord>) -> StorageView
        decreases batch.len(),
    {
        if batch.len() == 0 {
            self
        } else {
            self.ingested_all(batch.drop_last()).ingested(batch.last())
        }
    }

    /// The store that holds nothing.
    pub open spec fn empty() -> StorageView {
        StorageView { blocks: Map::empty(), transactions: Map::empty() }
    }

    /// This store with all of `later` put over it: where both hold a hash,
    /// the record of `later` stands.
    pub open spec fn overlaid(self, later: StorageView) -> StorageView {
        StorageView {
            blocks: self.blocks.union_prefer_right(later.blocks),
            transactions: self.transactions.union_prefer_right(later.transactions),
        }
    }
}

/// Ingesting a batch puts what the batch alone comes to over the store:
/// for every hash in the batch the last record with it, and the store as
/// it was elsewhere.
pub proof fn lemma_batch_overlays(store: StorageView, batch: Seq<WireRecord>)
    ensures
        store.ingested_all(batch) == store.overlaid(StorageView::empty().ingested_all(batch)),
    decreases batch.len(),
{
    let alone = StorageView::empty().ingested_all(batch);
    if batch.len() == 0 {
        assert(store.blocks.union_prefer_right(alone.blocks) =~= store.blocks);
        assert(store.transactions.union_prefer_right(alone.transactions) =~= store.transactions);
    } else {
        lemma_batch_overlays(store, batch.drop_last());
        let before = StorageView::empty().ingested_all(batch.drop_last());
        match batch.last() {
            WireRecord::Block(data) => {
                assert(store.blocks.union_prefer_right(before.blocks).insert(
                    data@.hash,
                    decoded_block(data@),
                ) =~= store.blocks.union_prefer_right(alone.blocks));
            },
            WireRecord::Transaction(data) => {
                assert(store.transactions.union_prefer_right(before.transactions).insert(
                    data@.hash,
                    decoded_transaction(data@),
                ) =~= store.transactions.union_prefer_right(alone.transactions));
            },
        }
    }
}

/// A batch that is delivered again changes nothing: ingesting it a second
/// time leaves the store as the first time left it.
pub proof fn lemma_redelivery_changes_nothing(store: StorageView, batch: Seq<WireRecord>)
    ensures
        store.ingested_all(batch).ingested_all(batch) == store.ingested_all(batch),
{
    let once = store.ingested_all(batch);
    let alone = StorageView::empty().ingested_all(batch);
    lemma_batch_overlays(store, batch);
    lemma_batch_overlays(once, batch);
    assert(store.blocks.union_prefer_right(alone.blocks).union_prefer_right(alone.blocks)
        =~= store.blocks.union_prefer_right(alone.blocks));
    assert(store.transactions.union_prefer_right(alone.transactions).union_prefer_right(
        alone.transactions,
    ) =~= store.transactions.union_prefer_right(alone.transactions));
}

/// A record that is ingested is held under its hash afterwards, decoded.
pub proof fn lemma_ingested_is_held(store: StorageView, record: WireRecord)
    ensures
        match record {
            WireRecord::Block(data) => store.ingested(record).blocks.contains_key(data@.hash)
                && store.ingested(record).blocks[data@.hash] == decoded_block(data@),
            WireRecord::Transaction(data) => store.ingested(record).transactions.contains_key(
                data@.hash,
            ) && store.ingested(record).transactions[data@.hash] == decoded_transaction(data@),
        },
{
}

impl Storage {
    /// Decodes `record` and puts it into the store under its hash, in place
    /// of what was held there. No record is refused.
    pub fn ingest(&mut self, record: WireRecord)
        ensures
            final(self)@ == old(self)@.ingested(record),
    {
        match record {
            WireRecord::Block(data) => {
                self.add_block(Block::decode(data));
            },
            WireRecord::Transaction(data) => {
                self.add_transaction(Transaction::decode(data));
            },
        }
    }

    /// Ingests the records of `batch`, first to last.
    pub fn ingest_all(&mut self, batch: Vec<WireRecord>)
        ensures
            final(self)@ == old(self)@.ingested_all(batch@),
    {
        let ghost whole = batch@;
        let records = batch.into_iter();
        for record in it: records
            invariant
                it.seq() == whole,
                self@ == old(self)@.ingested_all(whole.take(it.index())),
        {
            assert(whole.take(it.index() + 1).drop_last() =~= whole.take(it.index()));
            self.ingest(record);
        }
        assert(whole.take(whole.len() as int) =~= whole);
    }
}

} // verus!
