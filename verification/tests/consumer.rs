use chain_crawler::block::{Block, BlockData};
use chain_crawler::consumer::{
    record_kind, FetchOffset, GroupOffsetStorage, KafkaConsumer, RecordKind, WireRecord,
};
use chain_crawler::query::QueryRoot;
use chain_crawler::storage::Storage;
use chain_crawler::transaction::{Transaction, TransactionData};

fn wire_block() -> BlockData {
    BlockData {
        hash: "h1".to_string(),
        number: "0x1".to_string(),
        timestamp: "0x3e8".to_string(),
        transactions: vec!["t1".to_string()],
    }
}

fn wire_transaction() -> TransactionData {
    TransactionData {
        hash: "t1".to_string(),
        block_hash: "h1".to_string(),
        from: "0xaa".to_string(),
        to: "0xbb".to_string(),
        value: "0x2a".to_string(),
        block_number: "0x1".to_string(),
    }
}

#[test]
fn topics_name_their_records() {
    assert_eq!(record_kind("block"), Some(RecordKind::Block));
    assert_eq!(record_kind("tx"), Some(RecordKind::Transaction));
    assert_eq!(record_kind("blocks"), None);
    assert_eq!(record_kind("Block"), None);
    assert_eq!(record_kind("TX"), None);
    assert_eq!(record_kind(""), None);
}

#[test]
fn decodes_a_wire_block() {
    assert_eq!(
        Block::decode(wire_block()),
        Block {
            hash: "h1".to_string(),
            number: 1,
            timestamp: 1000,
            transactions: vec!["t1".to_string()],
        }
    );
}

#[test]
fn decodes_a_wire_transaction() {
    assert_eq!(
        Transaction::decode(wire_transaction()),
        Transaction {
            hash: "t1".to_string(),
            block_hash: "h1".to_string(),
            from: "0xaa".to_string(),
            to: "0xbb".to_string(),
            value: 42,
            block_number: 1,
        }
    );
}

#[test]
fn unparsable_numbers_decode_to_zero() {
    let mut data = wire_block();
    data.number = "latest".to_string();
    data.timestamp = "0x10000000000000000".to_string();
    let block = Block::decode(data);
    assert_eq!(block.number, 0);
    assert_eq!(block.timestamp, 0);
    assert_eq!(block.hash, "h1");

    let mut data = wire_transaction();
    data.value = "0xde0b6b3a7640000000".to_string();
    data.block_number = String::new();
    let transaction = Transaction::decode(data);
    assert_eq!(transaction.value, 0);
    assert_eq!(transaction.block_number, 0);
}

#[test]
fn ingested_block_is_retrievable() {
    let mut storage = Storage::new();
    storage.ingest(WireRecord::Block(wire_block()));
    let found = QueryRoot.block(&storage, "h1".to_string()).unwrap();
    assert_eq!(found.hash, "h1");
    assert_eq!(found.number, 1);
    assert_eq!(found.timestamp, 1000);
    assert_eq!(found.transactions, vec!["t1".to_string()]);
    assert_eq!(storage.get_block("h1"), Some(found));
    assert_eq!(storage.get_transaction("h1"), None);
}

#[test]
fn ingested_transaction_is_retrievable() {
    let mut storage = Storage::new();
    storage.ingest(WireRecord::Transaction(wire_transaction()));
    let found = QueryRoot.transaction(&storage, "t1".to_string()).unwrap();
    assert_eq!(found.value, 42);
    assert_eq!(found.block_number, 1);
    assert_eq!(QueryRoot.transactions_for_block(&storage, Some("h1".to_string()), Some(1)), vec![
        found
    ]);
    assert_eq!(storage.get_block("t1"), None);
}

#[test]
fn ingesting_again_overwrites() {
    let mut storage = Storage::new();
    storage.ingest(WireRecord::Block(wire_block()));
    let mut later = wire_block();
    later.timestamp = "0x3e9".to_string();
    later.transactions = vec![];
    storage.ingest(WireRecord::Block(later));
    storage.ingest(WireRecord::Block(wire_block()));
    storage.ingest(WireRecord::Block(wire_block()));
    assert_eq!(storage.blocks.entries().len(), 1);
    assert_eq!(storage.get_block("h1").unwrap().timestamp, 1000);
}

#[test]
fn wire_records_can_be_copied() {
    let block = wire_block();
    assert_eq!(block.clone(), block);
    let transaction = wire_transaction();
    assert_eq!(transaction.clone(), transaction);
}

#[test]
fn batch_is_ingested_in_order() {
    let mut first = wire_block();
    first.timestamp = "0x1".to_string();
    let mut last = wire_block();
    last.timestamp = "0x2".to_string();
    let mut other = wire_block();
    other.hash = "h2".to_string();
    let mut storage = Storage::new();
    storage.ingest_all(vec![
        WireRecord::Block(first),
        WireRecord::Transaction(wire_transaction()),
        WireRecord::Block(other),
        WireRecord::Block(last),
    ]);
    assert_eq!(storage.get_block("h1").unwrap().timestamp, 2);
    assert_eq!(storage.get_block("h2").unwrap().timestamp, 1000);
    assert_eq!(storage.get_transaction("t1").unwrap().value, 42);
    assert_eq!(storage.blocks.entries().len(), 2);
    assert_eq!(storage.transactions.entries().len(), 1);
    storage.ingest_all(vec![]);
    assert_eq!(storage.blocks.entries().len(), 2);
}

#[test]
fn redelivered_batch_changes_nothing() {
    let batch = || {
        let mut early = wire_block();
        early.number = "0x5".to_string();
        let mut fork = wire_block();
        fork.hash = "h1b".to_string();
        vec![
            WireRecord::Block(early),
            WireRecord::Block(fork),
            WireRecord::Transaction(wire_transaction()),
            WireRecord::Block(wire_block()),
        ]
    };
    let mut storage = Storage::new();
    storage.ingest(WireRecord::Block(BlockData {
        hash: "kept".to_string(),
        number: "0x9".to_string(),
        timestamp: "0x9".to_string(),
        transactions: vec![],
    }));
    storage.ingest_all(batch());
    let blocks_once = storage.blocks.entries().clone();
    let transactions_once = storage.transactions.entries().clone();
    storage.ingest_all(batch());
    assert_eq!(storage.blocks.entries(), &blocks_once);
    assert_eq!(storage.transactions.entries(), &transactions_once);
    assert_eq!(blocks_once.len(), 3);
    assert_eq!(storage.get_block("h1").unwrap().number, 1);
}

#[test]
fn consumer_settings() {
    let hosts = vec!["localhost:9092".to_string()];
    let topics = vec!["tx".to_string(), "block".to_string()];
    let consumer = KafkaConsumer::new(hosts.clone(), topics.clone());
    assert_eq!(consumer.hosts, hosts);
    assert_eq!(consumer.topics, topics);
    assert_eq!(consumer.group, "group");
    assert_eq!(consumer.fallback_offset, FetchOffset::Earliest);
    assert_eq!(consumer.offset_storage, GroupOffsetStorage::Kafka);
}
