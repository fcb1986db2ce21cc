use chain_crawler::crawler::{Action, Crawler, Phase, Verdict, BUFFER_SIZE};
use chain_crawler::filter::FilterOption;
use chain_crawler::provider::{Fetched, FetchedBlock, FetchedTransaction};
use chain_crawler::hash::Hash256;

fn hash(tag: u8) -> Hash256 {
    let mut bytes = [0u8; 32];
    bytes[0] = tag;
    bytes[31] = tag;
    Hash256 { bytes }
}

fn no_filters() -> FilterOption {
    FilterOption { tx_hash_filter: None, block_hash_filter: None }
}

/// What a crawl did, as its driver saw it.
#[derive(Debug, Default)]
struct Trace {
    height_queries: usize,
    block_fetches: Vec<u64>,
    transaction_fetches: Vec<Hash256>,
    delays: Vec<u64>,
    published_blocks: Vec<u64>,
    published_transactions: Vec<Hash256>,
    skipped_blocks: Vec<u64>,
    skipped_transactions: Vec<Hash256>,
    most_blocks_outstanding: usize,
    most_transactions_outstanding: usize,
    failed: bool,
    fetched: Vec<String>,
}

enum Outstanding {
    Block(u64),
    Transaction(u64, Hash256),
}

/// Drives a crawl to its end. `pick` chooses which outstanding fetch
/// completes next, given how many are outstanding.
fn drive(
    from_block: u64,
    height: Option<u64>,
    filters: FilterOption,
    block_of: &dyn Fn(u64) -> Fetched<FetchedBlock>,
    transaction_of: &dyn Fn(Hash256) -> Fetched<FetchedTransaction<String>>,
    pick: &mut dyn FnMut(usize) -> usize,
) -> Trace {
    let mut trace = Trace::default();
    let mut crawler: Crawler<String> = Crawler::new(from_block, 25, filters);
    let mut outstanding: Vec<Outstanding> = Vec::new();
    let mut steps = 0;
    loop {
        steps += 1;
        assert!(steps < 100_000, "the crawl does not end");
        match crawler.poll() {
            Action::QueryHeight => {
                trace.height_queries += 1;
                assert_eq!(crawler.poll(), Action::Wait);
                crawler.height(height);
            }
            Action::FetchBlock { number, delay_ms } => {
                trace.block_fetches.push(number);
                trace.delays.push(delay_ms);
                outstanding.push(Outstanding::Block(number));
            }
            Action::FetchTransaction { ticket, hash, delay_ms } => {
                trace.transaction_fetches.push(hash);
                trace.delays.push(delay_ms);
                outstanding.push(Outstanding::Transaction(ticket, hash));
            }
            Action::Wait => {
                assert!(!outstanding.is_empty(), "waiting for nothing");
                let blocks =
                    outstanding.iter().filter(|o| matches!(o, Outstanding::Block(_))).count();
                let transactions = outstanding.len() - blocks;
                trace.most_blocks_outstanding = trace.most_blocks_outstanding.max(blocks);
                trace.most_transactions_outstanding =
                    trace.most_transactions_outstanding.max(transactions);
                let chosen = pick(outstanding.len());
                match outstanding.remove(chosen) {
                    Outstanding::Block(number) => {
                        match crawler.block_fetched(number, block_of(number)) {
                            Verdict::Publish => trace.published_blocks.push(number),
                            Verdict::Skip => trace.skipped_blocks.push(number),
                            Verdict::Absent => {}
                            Verdict::Ignored => panic!("block {} was not expected", number),
                        }
                    }
                    Outstanding::Transaction(ticket, hash) => {
                        match crawler.transaction_fetched(ticket, transaction_of(hash)) {
                            Verdict::Publish => trace.published_transactions.push(hash),
                            Verdict::Skip => trace.skipped_transactions.push(hash),
                            Verdict::Absent => {}
                            Verdict::Ignored => panic!("ticket {} was not expected", ticket),
                        }
                    }
                }
            }
            Action::Finished => {
                assert!(outstanding.is_empty());
                assert_eq!(crawler.poll(), Action::Finished);
                break;
            }
            Action::Failed => {
                assert!(outstanding.is_empty());
                assert_eq!(crawler.phase(), Phase::Failed);
                assert_eq!(crawler.poll(), Action::Failed);
                trace.failed = true;
                break;
            }
        }
    }
    trace.fetched = crawler.into_transactions();
    trace
}

fn oldest_first() -> impl FnMut(usize) -> usize {
    |_| 0
}

fn newest_first() -> impl FnMut(usize) -> usize {
    |outstanding| outstanding - 1
}

fn shuffled(seed: u64) -> impl FnMut(usize) -> usize {
    let mut state = seed;
    move |outstanding| {
        state = state.wrapping_mul(6364136223846793005).wrapping_add(1442695040888963407);
        ((state >> 33) as usize) % outstanding
    }
}

/// Blocks 1 to 3; block 2 lists two transactions, the others one each.
fn three_blocks(number: u64) -> Fetched<FetchedBlock> {
    let transactions = match number {
        1 => vec![hash(0x11)],
        2 => vec![hash(0x21), hash(0x22)],
        3 => vec![hash(0x31)],
        _ => return Fetched::NotFound,
    };
    Fetched::Found(FetchedBlock { hash: Some(hash(number as u8)), transactions })
}

fn named(hash: Hash256) -> Fetched<FetchedTransaction<String>> {
    Fetched::Found(FetchedTransaction { hash, record: format!("tx-{:02x}", hash.bytes[0]) })
}

#[test]
fn test_crawler_success() {
    let crawler: Crawler<()> = Crawler::new(
        1,
        0,
        FilterOption {
            tx_hash_filter: None,
            block_hash_filter: None,
        },
    );
    assert_eq!(crawler.phase(), Phase::Start);
    assert!(crawler.into_transactions().is_empty());
}

#[test]
fn test_fetch_block() {
    let block = FetchedBlock { hash: None, transactions: vec![] };
    let fetched = Fetched::Found(FetchedBlock { hash: None, transactions: vec![] }).found();
    assert_eq!(fetched, Some(block));
    assert_eq!(Fetched::<FetchedBlock>::NotFound.found(), None);
    assert_eq!(Fetched::<FetchedBlock>::Failed.found(), None);
}

#[test]
fn test_fetch_transaction() {
    let zero = Hash256 { bytes: [0u8; 32] };
    let fetched = Fetched::Found(FetchedTransaction { hash: zero, record: 0u8 }).found();
    assert_eq!(fetched, Some(FetchedTransaction { hash: zero, record: 0u8 }));
    assert_eq!(Fetched::<FetchedTransaction<u8>>::NotFound.found(), None);
    assert_eq!(Fetched::<FetchedTransaction<u8>>::Failed.found(), None);
}

#[test]
fn three_blocks_and_four_transactions() {
    assert!(BUFFER_SIZE >= 3);
    let orders: Vec<Box<dyn FnMut(usize) -> usize>> = vec![
        Box::new(oldest_first()),
        Box::new(newest_first()),
        Box::new(shuffled(1)),
        Box::new(shuffled(2)),
        Box::new(shuffled(3)),
    ];
    for mut order in orders {
        let trace = drive(1, Some(3), no_filters(), &three_blocks, &named, &mut *order);
        assert_eq!(trace.height_queries, 1);
        assert_eq!(trace.block_fetches, vec![1, 2, 3]);
        assert_eq!(
            trace.transaction_fetches,
            vec![hash(0x11), hash(0x21), hash(0x22), hash(0x31)]
        );
        let mut published = trace.published_blocks.clone();
        published.sort();
        assert_eq!(published, vec![1, 2, 3]);
        let mut published: Vec<u8> =
            trace.published_transactions.iter().map(|h| h.bytes[0]).collect();
        published.sort();
        assert_eq!(published, vec![0x11, 0x21, 0x22, 0x31]);
        assert!(trace.skipped_blocks.is_empty());
        assert!(trace.skipped_transactions.is_empty());
        assert_eq!(trace.fetched, vec!["tx-11", "tx-21", "tx-22", "tx-31"]);
        assert_eq!(trace.delays, vec![25; 7]);
        assert!(!trace.failed);
    }
}

#[test]
fn first_steps_of_a_crawl() {
    let mut crawler: Crawler<u8> = Crawler::new(7, 1000, no_filters());
    assert_eq!(crawler.phase(), Phase::Start);
    assert_eq!(crawler.poll(), Action::QueryHeight);
    assert_eq!(crawler.phase(), Phase::AwaitingHeight);
    assert_eq!(crawler.poll(), Action::Wait);
    crawler.height(Some(8));
    assert_eq!(crawler.phase(), Phase::Running);
    assert_eq!(crawler.poll(), Action::FetchBlock { number: 7, delay_ms: 1000 });
    assert_eq!(crawler.poll(), Action::FetchBlock { number: 8, delay_ms: 1000 });
    assert_eq!(crawler.poll(), Action::Wait);
    let listed = FetchedBlock { hash: Some(hash(8)), transactions: vec![hash(0x81)] };
    assert_eq!(crawler.block_fetched(8, Fetched::Found(listed)), Verdict::Publish);
    // Block 7 is still outstanding: the hashes of block 8 wait behind it.
    assert_eq!(crawler.poll(), Action::Wait);
    assert_eq!(crawler.block_fetched(7, Fetched::Failed), Verdict::Absent);
    assert_eq!(
        crawler.poll(),
        Action::FetchTransaction { ticket: 0, hash: hash(0x81), delay_ms: 1000 }
    );
    assert_eq!(crawler.poll(), Action::Wait);
    let record = FetchedTransaction { hash: hash(0x81), record: 9u8 };
    assert_eq!(crawler.transaction_fetched(0, Fetched::Found(record)), Verdict::Publish);
    assert_eq!(crawler.poll(), Action::Finished);
    assert_eq!(crawler.into_transactions(), vec![9u8]);
}

#[test]
fn failed_height_query_ends_the_crawl() {
    let trace = drive(1, None, no_filters(), &three_blocks, &named, &mut oldest_first());
    assert!(trace.failed);
    assert_eq!(trace.height_queries, 1);
    assert!(trace.block_fetches.is_empty());
    assert!(trace.transaction_fetches.is_empty());
    assert!(trace.fetched.is_empty());
}

#[test]
fn height_is_taken_once_and_only_when_asked() {
    let mut crawler: Crawler<u8> = Crawler::new(1, 0, no_filters());
    crawler.height(Some(5));
    assert_eq!(crawler.phase(), Phase::Start);
    assert_eq!(crawler.poll(), Action::QueryHeight);
    crawler.height(Some(1));
    crawler.height(Some(9));
    crawler.height(None);
    assert_eq!(crawler.phase(), Phase::Running);
    assert_eq!(crawler.poll(), Action::FetchBlock { number: 1, delay_ms: 0 });
    assert_eq!(crawler.poll(), Action::Wait);
    assert_eq!(crawler.block_fetched(1, Fetched::NotFound), Verdict::Absent);
    assert_eq!(crawler.poll(), Action::Finished);

    let mut crawler: Crawler<u8> = Crawler::new(1, 0, no_filters());
    assert_eq!(crawler.poll(), Action::QueryHeight);
    crawler.height(None);
    crawler.height(Some(3));
    assert_eq!(crawler.phase(), Phase::Failed);
    assert_eq!(crawler.poll(), Action::Failed);
}

#[test]
fn empty_range_finishes_at_once() {
    let trace = drive(4, Some(3), no_filters(), &three_blocks, &named, &mut oldest_first());
    assert!(!trace.failed);
    assert!(trace.block_fetches.is_empty());
    assert!(trace.transaction_fetches.is_empty());
    assert!(trace.fetched.is_empty());
}

#[test]
fn single_block_range_at_the_top_of_the_numbers() {
    let top = |number: u64| {
        Fetched::Found(FetchedBlock {
            hash: Some(hash(1)),
            transactions: vec![hash((number % 256) as u8)],
        })
    };
    let trace =
        drive(u64::MAX - 1, Some(u64::MAX), no_filters(), &top, &named, &mut newest_first());
    assert_eq!(trace.block_fetches, vec![u64::MAX - 1, u64::MAX]);
    assert_eq!(trace.fetched, vec!["tx-fe", "tx-ff"]);

    let trace = drive(u64::MAX, Some(u64::MAX), no_filters(), &top, &named, &mut oldest_first());
    assert_eq!(trace.block_fetches, vec![u64::MAX]);
    let trace = drive(0, Some(0), no_filters(), &top, &named, &mut oldest_first());
    assert_eq!(trace.block_fetches, vec![0]);
}

#[test]
fn absent_blocks_and_transactions_are_passed_over() {
    let blocks = |number: u64| match number {
        2 => Fetched::NotFound,
        4 => Fetched::Failed,
        _ => Fetched::Found(FetchedBlock {
            hash: Some(hash(number as u8)),
            transactions: vec![hash(number as u8 * 16), hash(number as u8 * 16 + 1)],
        }),
    };
    let transactions = |hash: Hash256| match hash.bytes[0] {
        0x11 => Fetched::NotFound,
        0x50 => Fetched::Failed,
        _ => named(hash),
    };
    for seed in 0..20 {
        let trace = drive(1, Some(5), no_filters(), &blocks, &transactions, &mut shuffled(seed));
        assert_eq!(trace.block_fetches, vec![1, 2, 3, 4, 5]);
        let fetched: Vec<u8> = trace.transaction_fetches.iter().map(|h| h.bytes[0]).collect();
        assert_eq!(fetched, vec![0x10, 0x11, 0x30, 0x31, 0x50, 0x51]);
        let mut published = trace.published_blocks.clone();
        published.sort();
        assert_eq!(published, vec![1, 3, 5]);
        assert_eq!(trace.published_transactions.len(), 4);
        assert_eq!(trace.fetched, vec!["tx-10", "tx-30", "tx-31", "tx-51"]);
    }
}

#[test]
fn filters_decide_publishing_not_fetching() {
    // Block hashes are 0x01.., 0x02.., 0x03..; only block 2 passes. Of the
    // transaction hashes only 0x21.. holds the transaction filter.
    let filters = FilterOption {
        tx_hash_filter: Some("0x21".to_string()),
        block_hash_filter: Some("0x02".to_string()),
    };
    let trace = drive(1, Some(3), filters, &three_blocks, &named, &mut shuffled(7));
    assert_eq!(trace.block_fetches, vec![1, 2, 3]);
    assert_eq!(trace.published_blocks, vec![2]);
    let mut skipped = trace.skipped_blocks.clone();
    skipped.sort();
    assert_eq!(skipped, vec![1, 3]);
    assert_eq!(
        trace.transaction_fetches,
        vec![hash(0x11), hash(0x21), hash(0x22), hash(0x31)]
    );
    assert_eq!(trace.published_transactions, vec![hash(0x21)]);
    assert_eq!(trace.skipped_transactions.len(), 3);
    // What was fetched is collected whether or not it was published.
    assert_eq!(trace.fetched, vec!["tx-11", "tx-21", "tx-22", "tx-31"]);
}

#[test]
fn pending_block_is_published_only_without_a_filter() {
    let pending = |_: u64| {
        Fetched::Found(FetchedBlock { hash: None, transactions: vec![hash(0x42)] })
    };
    let trace = drive(1, Some(1), no_filters(), &pending, &named, &mut oldest_first());
    assert_eq!(trace.published_blocks, vec![1]);
    let filters = FilterOption { tx_hash_filter: None, block_hash_filter: Some(String::new()) };
    let trace = drive(1, Some(1), filters, &pending, &named, &mut oldest_first());
    assert!(trace.published_blocks.is_empty());
    assert_eq!(trace.skipped_blocks, vec![1]);
    assert_eq!(trace.fetched, vec!["tx-42"]);
}

#[test]
fn windows_bound_what_is_outstanding() {
    let wide = |number: u64| {
        let transactions = (0..(number % 7)).map(|k| hash((number * 7 + k) as u8)).collect();
        Fetched::Found(FetchedBlock { hash: Some(hash(number as u8)), transactions })
    };
    let mut expected: Vec<String> = Vec::new();
    for number in 1..=60u64 {
        for k in 0..(number % 7) {
            expected.push(format!("tx-{:02x}", (number * 7 + k) as u8));
        }
    }
    let orders: Vec<Box<dyn FnMut(usize) -> usize>> = vec![
        Box::new(oldest_first()),
        Box::new(newest_first()),
        Box::new(shuffled(11)),
        Box::new(shuffled(12)),
    ];
    for mut order in orders {
        let trace = drive(1, Some(60), no_filters(), &wide, &named, &mut *order);
        assert_eq!(trace.block_fetches, (1..=60).collect::<Vec<u64>>());
        assert!(trace.most_blocks_outstanding <= BUFFER_SIZE);
        assert!(trace.most_transactions_outstanding <= BUFFER_SIZE);
        assert_eq!(trace.most_blocks_outstanding, BUFFER_SIZE);
        assert_eq!(trace.fetched, expected);
        assert_eq!(trace.transaction_fetches.len(), expected.len());
    }
}

#[test]
fn stage_one_stalls_behind_its_oldest_fetch() {
    let mut crawler: Crawler<u8> = Crawler::new(1, 0, no_filters());
    assert_eq!(crawler.poll(), Action::QueryHeight);
    crawler.height(Some(100));
    for number in 1..=BUFFER_SIZE as u64 {
        assert_eq!(crawler.poll(), Action::FetchBlock { number, delay_ms: 0 });
    }
    assert_eq!(crawler.poll(), Action::Wait);
    // Everything but the oldest completes: nothing is released, nothing issued.
    for number in 2..=BUFFER_SIZE as u64 {
        let block = FetchedBlock { hash: Some(hash(1)), transactions: vec![hash(number as u8)] };
        assert_eq!(crawler.block_fetched(number, Fetched::Found(block)), Verdict::Publish);
        assert_eq!(crawler.poll(), Action::Wait);
    }
    // The oldest completes: all are released, in block order.
    assert_eq!(crawler.block_fetched(1, Fetched::NotFound), Verdict::Absent);
    for ticket in 0..(BUFFER_SIZE as u64 - 1) {
        assert_eq!(
            crawler.poll(),
            Action::FetchTransaction { ticket, hash: hash(ticket as u8 + 2), delay_ms: 0 }
        );
    }
    assert_eq!(
        crawler.poll(),
        Action::FetchBlock { number: BUFFER_SIZE as u64 + 1, delay_ms: 0 }
    );
}

#[test]
fn unexpected_reports_are_ignored() {
    let mut crawler: Crawler<u8> = Crawler::new(5, 0, no_filters());
    assert_eq!(crawler.block_fetched(5, Fetched::NotFound), Verdict::Ignored);
    assert_eq!(crawler.poll(), Action::QueryHeight);
    assert_eq!(crawler.block_fetched(5, Fetched::NotFound), Verdict::Ignored);
    crawler.height(Some(6));
    assert_eq!(crawler.block_fetched(5, Fetched::NotFound), Verdict::Ignored);
    assert_eq!(crawler.poll(), Action::FetchBlock { number: 5, delay_ms: 0 });
    assert_eq!(crawler.block_fetched(4, Fetched::NotFound), Verdict::Ignored);
    assert_eq!(crawler.block_fetched(6, Fetched::NotFound), Verdict::Ignored);
    assert_eq!(crawler.block_fetched(u64::MAX, Fetched::NotFound), Verdict::Ignored);
    let record = FetchedTransaction { hash: hash(1), record: 1u8 };
    assert_eq!(crawler.transaction_fetched(0, Fetched::Found(record)), Verdict::Ignored);
    let block = FetchedBlock { hash: Some(hash(5)), transactions: vec![hash(1), hash(2)] };
    assert_eq!(crawler.block_fetched(5, Fetched::Found(block)), Verdict::Publish);
    let again = FetchedBlock { hash: Some(hash(5)), transactions: vec![hash(9)] };
    assert_eq!(crawler.block_fetched(5, Fetched::Found(again)), Verdict::Ignored);
    assert_eq!(
        crawler.poll(),
        Action::FetchTransaction { ticket: 0, hash: hash(1), delay_ms: 0 }
    );
    let record = FetchedTransaction { hash: hash(2), record: 2u8 };
    assert_eq!(crawler.transaction_fetched(1, Fetched::Found(record)), Verdict::Ignored);
    assert_eq!(
        crawler.poll(),
        Action::FetchTransaction { ticket: 1, hash: hash(2), delay_ms: 0 }
    );
    let record = FetchedTransaction { hash: hash(2), record: 2u8 };
    assert_eq!(crawler.transaction_fetched(1, Fetched::Found(record)), Verdict::Publish);
    let record = FetchedTransaction { hash: hash(2), record: 3u8 };
    assert_eq!(crawler.transaction_fetched(1, Fetched::Found(record)), Verdict::Ignored);
    assert_eq!(crawler.transaction_fetched(0, Fetched::Failed), Verdict::Absent);
    assert_eq!(crawler.transaction_fetched(0, Fetched::Failed), Verdict::Ignored);
    assert_eq!(crawler.poll(), Action::FetchBlock { number: 6, delay_ms: 0 });
    assert_eq!(crawler.block_fetched(6, Fetched::Failed), Verdict::Absent);
    assert_eq!(crawler.poll(), Action::Finished);
    assert_eq!(crawler.into_transactions(), vec![2u8]);
}

#[test]
fn transactions_are_published_by_the_full_text_of_their_hash() {
    let one_block = |_: u64| {
        let mut bytes = [0u8; 32];
        bytes[15] = 0xab;
        bytes[16] = 0xcd;
        Fetched::Found(FetchedBlock {
            hash: Some(hash(1)),
            transactions: vec![Hash256 { bytes }, Hash256 { bytes: [0u8; 32] }],
        })
    };
    let carried = |hash: Hash256| {
        Fetched::Found(FetchedTransaction { hash, record: format!("tx-{:02x}", hash.bytes[15]) })
    };
    let with = |filter: &str| FilterOption {
        tx_hash_filter: Some(filter.to_string()),
        block_hash_filter: None,
    };

    // Digits from the middle of the hash.
    let trace = drive(1, Some(1), with("00abcd00"), &one_block, &carried, &mut oldest_first());
    assert_eq!(trace.published_transactions.len(), 1);
    assert_eq!(trace.published_transactions[0].bytes[15], 0xab);
    assert_eq!(trace.skipped_transactions, vec![Hash256 { bytes: [0u8; 32] }]);
    assert_eq!(trace.fetched, vec!["tx-ab", "tx-00"]);

    // A run of zeros is part of both hashes.
    let trace = drive(1, Some(1), with("00000"), &one_block, &carried, &mut oldest_first());
    assert_eq!(trace.published_transactions.len(), 2);
    assert!(trace.skipped_transactions.is_empty());

    // No hash is written with an ellipsis.
    let trace = drive(1, Some(1), with("\u{2026}"), &one_block, &carried, &mut oldest_first());
    assert!(trace.published_transactions.is_empty());
    assert_eq!(trace.skipped_transactions.len(), 2);
    assert_eq!(trace.fetched, vec!["tx-ab", "tx-00"]);
}
