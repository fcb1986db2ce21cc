//! The crawl pipeline as a state machine: it decides which block or
//! transaction to fetch next, judges what came back, and collects the
//! transactions that were fetched. Whoever drives it performs the fetches
//! and the publishing, and hands the outcomes back.
//!
//! Stage one walks the block numbers from the starting block to the chain
//! height captured at the start; stage two walks the transaction hashes of
//! the fetched blocks, in block order. Each stage keeps at most
//! [`BUFFER_SIZE`] fetches issued and not yet released, and releases their
//! results in the order of issue, whatever the order of completion.

use crate::filter::{
    block_accepted, filter_block, filter_transaction, transaction_accepted, FilterOption,
};
use crate::hash::Hash256;
use crate::provider::{Fetched, FetchedBlock, FetchedTransaction};
use vstd::prelude::*;

verus! {

/// The number of fetches that one stage may have issued and not yet
/// released.
pub const BUFFER_SIZE: usize = 10;

/// What the driver is to do next.
#[derive(Clone, Copy, Debug, PartialEq, Eq)]
pub enum Action {
    /// Ask the provider for the current chain height and report it with
    /// [`Crawler::height`].
    QueryHeight,
    /// Wait `delay_ms` milliseconds, fetch block `number` and report the
    /// outcome with [`Crawler::block_fetched`].
    FetchBlock { number: u64, delay_ms: u64 },
    /// Wait `delay_ms` milliseconds, fetch the transaction `hash` and report
    /// the outcome with [`Crawler::transaction_fetched`] under `ticket`.
    FetchTransaction { ticket: u64, hash: Hash256, delay_ms: u64 },
    /// Nothing can be issued before an outstanding call is reported.
    Wait,
    /// The whole range was crawled.
    Finished,
    /// The chain height could not be had: the crawl ended abnormally.
    Failed,
}

/// What is to be done with a reported record.
#[derive(Clone, Copy, Debug, PartialEq, Eq, Structural)]
pub enum Verdict {
    /// The record passed the filter: publish it.
    Publish,
    /// The record was fetched but did not pass the filter.
    Skip,
    /// There was no record.
    Absent,
    /// No such fetch is outstanding; the report was ignored.
    Ignored,
}

/// Where the crawl stands.
#[derive(Clone, Copy, Debug, PartialEq, Eq, Structural)]
pub enum Phase {
    /// Nothing was asked yet.
    Start,
    /// The chain height was asked for.
    AwaitingHeight,
    /// The range is being crawled.
    Running,
    /// The chain height could not be had.
    Failed,
}

/// One issued fetch: `result` is `None` while the fetch is outstanding.
pub struct Slot<R> {
    pub ticket: u64,
    pub result: Option<R>,
}

/// The verdict on a reported block under `filter`.
pub open spec fn block_verdict(found: Option<FetchedBlock>, filter: Option<String>) -> Verdict {
    match found {
        Some(block) => if block_accepted(block.hash, filter) {
            Verdict::Publish
        } else {
            Verdict::Skip
        },
        None => Verdict::Absent,
    }
}

/// The verdict on a reported transaction under `filter`.
pub open spec fn transaction_verdict<T>(
    found: Option<FetchedTransaction<T>>,
    filter: Option<String>,
) -> Verdict {
    match found {
        Some(transaction) => if transaction_accepted(transaction.hash, filter) {
            Verdict::Publish
        } else {
            Verdict::Skip
        },
        None => Verdict::Absent,
    }
}

/// The transaction hashes that a reported block adds to stage two: its own
/// list, whether or not the block passed the filter, and none where there
/// was no block.
pub open spec fn listed_hashes(found: Option<FetchedBlock>) -> Seq<Hash256> {
    match found {
        Some(block) => block.transactions@,
        None => Seq::empty(),
    }
}

/// The record that a reported transaction leaves in its slot.
pub open spec fn carried_record<T>(found: Option<FetchedTransaction<T>>) -> Option<T> {
    match found {
        Some(transaction) => Some(transaction.record),
        None => None,
    }
}

/// The state of a crawl, as plain mathematics.
pub struct CrawlState<T> {
    pub phase: Phase,
    /// The first block number of the range.
    pub from_block: u64,
    /// The pacing delay before each fetch, in milliseconds.
    pub delay_time: u64,
    pub filter_options: FilterOption,
    /// The chain height captured at the start: the last block number of the
    /// range.
    pub to_block: u64,
    /// Whether `next_block` is still to be issued.
    pub blocks_left: bool,
    /// The next block number to issue.
    pub next_block: u64,
    /// The block fetches issued and not yet released, oldest first. A
    /// finished slot holds the block's transaction hashes.
    pub blocks: Seq<Slot<Seq<Hash256>>>,
    /// The transaction hashes of the released blocks, in block order.
    pub hashes: Seq<Hash256>,
    /// How many of `hashes` were issued to stage two.
    pub cursor: nat,
    /// The transaction fetches issued and not yet released, oldest first.
    /// The ticket of a fetch is the position of its hash in `hashes`.
    pub transactions: Seq<Slot<Option<T>>>,
    /// The records of the released transactions that were fetched, in the
    /// order of `hashes`.
    pub fetched: Seq<T>,
}

impl<T> CrawlState<T> {
    /// The state before anything was asked.
    pub open spec fn initial(from_block: u64, delay_time: u64, filter_options: FilterOption) -> Self {
        CrawlState {
            phase: Phase::Start,
            from_block,
            delay_time,
            filter_options,
            to_block: 0,
            blocks_left: false,
            next_block: from_block,
            blocks: Seq::empty(),
            hashes: Seq::empty(),
            cursor: 0,
            transactions: Seq::empty(),
            fetched: Seq::empty(),
        }
    }

    /// What holds of every state that a crawl goes through.
    pub open spec fn wf(self) -> bool {
        &&& self.blocks.len() <= BUFFER_SIZE
        &&& self.transactions.len() <= BUFFER_SIZE
        &&& self.cursor <= self.hashes.len() <= usize::MAX
        &&& forall|i: int|
            0 <= i < self.blocks.len() ==> (#[trigger] self.blocks[i]).ticket
                == self.blocks[0].ticket + i
        &&& forall|i: int|
            0 <= i < self.transactions.len() ==> (#[trigger] self.transactions[i]).ticket
                == self.cursor - self.transactions.len() + i
        &&& self.blocks_left ==> self.from_block <= self.next_block <= self.to_block
        &&& self.blocks_left && self.blocks.len() > 0 ==> self.blocks.last().ticket + 1
            == self.next_block
        &&& self.phase != Phase::Running ==> {
            &&& !self.blocks_left
            &&& self.blocks.len() == 0
            &&& self.transactions.len() == 0
            &&& self.hashes.len() == 0
            &&& self.fetched.len() == 0
        }
    }

    /// The state after the chain height was reported. A report that was not
    /// asked for changes nothing; a failed query ends the crawl.
    pub open spec fn after_height(self, height: Option<u64>) -> Self {
        if self.phase != Phase::AwaitingHeight {
            self
        } else {
            match height {
                Some(to_block) => CrawlState {
                    phase: Phase::Running,
                    to_block,
                    blocks_left: self.from_block <= to_block,
                    next_block: self.from_block,
                    ..self
                },
                None => CrawlState { phase: Phase::Failed, ..self },
            }
        }
    }

    /// Whether the oldest transaction fetch is finished.
    pub open spec fn transaction_ready(self) -> bool {
        self.transactions.len() > 0 && self.transactions[0].result is Some
    }

    /// Whether the oldest block fetch is finished.
    pub open spec fn block_ready(self) -> bool {
        self.blocks.len() > 0 && self.blocks[0].result is Some
    }

    /// Releases the oldest transaction fetch: its record, if one was
    /// fetched, joins the collected ones.
    pub open spec fn release_transaction(self) -> Self {
        CrawlState {
            transactions: self.transactions.drop_first(),
            fetched: match self.transactions[0].result {
                Some(Some(record)) => self.fetched.push(record),
                _ => self.fetched,
            },
            ..self
        }
    }

    /// Releases the oldest block fetch: its transaction hashes join the
    /// input of stage two.
    pub open spec fn release_block(self) -> Self {
        CrawlState {
            blocks: self.blocks.drop_first(),
            hashes: self.hashes + self.blocks[0].result->0,
            ..self
        }
    }

    /// Whether stage two can issue a fetch.
    pub open spec fn can_issue_transaction(self) -> bool {
        self.transactions.len() < BUFFER_SIZE && self.cursor < self.hashes.len()
    }

    /// Whether stage one can issue a fetch.
    pub open spec fn can_issue_block(self) -> bool {
        self.blocks.len() < BUFFER_SIZE && self.blocks_left
    }

    /// Issues the next transaction fetch.
    pub open spec fn issue_transaction(self) -> (Self, Action) {
        (
            CrawlState {
                transactions: self.transactions.push(
                    Slot { ticket: self.cursor as u64, result: None },
                ),
                cursor: self.cursor + 1,
                ..self
            },
            Action::FetchTransaction {
                ticket: self.cursor as u64,
                hash: self.hashes[self.cursor as int],
                delay_ms: self.delay_time,
            },
        )
    }

    /// Issues the next block fetch.
    pub open spec fn issue_block(self) -> (Self, Action) {
        (
            CrawlState {
                blocks: self.blocks.push(Slot { ticket: self.next_block, result: None }),
                blocks_left: self.next_block < self.to_block,
                next_block: if self.next_block < self.to_block {
                    (self.next_block + 1) as u64
                } else {
                    self.next_block
                },
                ..self
            },
            Action::FetchBlock { number: self.next_block, delay_ms: self.delay_time },
        )
    }

    /// The next step of a running crawl in which no finished fetch waits
    /// for release: a transaction fetch where stage two has room and a hash
    /// to fetch, else a block fetch where stage one has room and a block
    /// left, else the end once nothing is outstanding.
    pub open spec fn decide(self) -> (Self, Action) {
        if self.can_issue_transaction() {
            self.issue_transaction()
        } else if self.can_issue_block() {
            self.issue_block()
        } else if self.blocks.len() == 0 && self.transactions.len() == 0 {
            (self, Action::Finished)
        } else {
            (self, Action::Wait)
        }
    }

    /// The state after the driver asked what to do, and the answer.
    /// Finished fetches are released first, oldest first within a stage.
    pub open spec fn after_poll(self) -> (Self, Action)
        decreases self.transactions.len() + self.blocks.len(),
    {
        match self.phase {
            Phase::Start => (CrawlState { phase: Phase::AwaitingHeight, ..self }, Action::QueryHeight),
            Phase::AwaitingHeight => (self, Action::Wait),
            Phase::Failed => (self, Action::Failed),
            Phase::Running => if self.transaction_ready() {
                self.release_transaction().after_poll()
            } else if self.block_ready() {
                self.release_block().after_poll()
            } else {
                self.decide()
            },
        }
    }

    /// The position in `blocks` of the outstanding fetch of block `number`,
    /// if there is one.
    pub open spec fn block_slot(self, number: u64) -> Option<int> {
        if self.phase == Phase::Running && self.blocks.len() > 0 && self.blocks[0].ticket <= number
            && number - self.blocks[0].ticket < self.blocks.len() && self.blocks[number
            - self.blocks[0].ticket].result is None {
            Some(number - self.blocks[0].ticket)
        } else {
            None
        }
    }

    /// The position in `transactions` of the outstanding fetch with
    /// `ticket`, if there is one.
    pub open spec fn transaction_slot(self, ticket: u64) -> Option<int> {
        if self.phase == Phase::Running && self.transactions.len() > 0
            && self.transactions[0].ticket <= ticket && ticket - self.transactions[0].ticket
            < self.transactions.len() && self.transactions[ticket
            - self.transactions[0].ticket].result is None {
            Some(ticket - self.transactions[0].ticket)
        } else {
            None
        }
    }

    /// The state after a block report: the slot of its fetch holds the
    /// hashes that the block lists, or none where there was no block. A
    /// report for a block whose fetch is not outstanding changes nothing.
    pub open spec fn after_block(self, number: u64, found: Option<FetchedBlock>) -> Self {
        match self.block_slot(number) {
            Some(at) => CrawlState {
                blocks: self.blocks.update(
                    at,
                    Slot { ticket: number, result: Some(listed_hashes(found)) },
                ),
                ..self
            },
            None => self,
        }
    }

    /// The state after a transaction report: the slot of its fetch holds
    /// the record, or nothing where there was none. A report under a ticket
    /// whose fetch is not outstanding changes nothing.
    pub open spec fn after_transaction(self, ticket: u64, found: Option<FetchedTransaction<T>>) -> Self {
        match self.transaction_slot(ticket) {
            Some(at) => CrawlState {
                transactions: self.transactions.update(
                    at,
                    Slot { ticket, result: Some(carried_record(found)) },
                ),
                ..self
            },
            None => self,
        }
    }
}

/// What a poll of a sound state comes to, given that the transaction
/// hashes still fit the machine afterwards.
spec fn poll_law<T>(before: CrawlState<T>, after: CrawlState<T>, action: Action) -> bool {
    &&& after.wf()
    &&& after.from_block == before.from_block
    &&& after.to_block == before.to_block
    &&& after.delay_time == before.delay_time
    &&& after.filter_options == before.filter_options
    &&& before.hashes.is_prefix_of(after.hashes)
    &&& before.fetched.is_prefix_of(after.fetched)
    &&& match action {
        Action::QueryHeight => before.phase == Phase::Start && after.phase
            == Phase::AwaitingHeight,
        Action::FetchBlock { number, delay_ms } => {
            &&& after.phase == Phase::Running
            &&& before.blocks_left
            &&& number == before.next_block
            &&& delay_ms == before.delay_time
            &&& after.blocks.len() > 0
            &&& after.blocks.last() == Slot::<Seq<Hash256>> { ticket: number, result: None }
            &&& after.blocks_left == (number < before.to_block)
            &&& after.blocks_left ==> after.next_block == number + 1
            &&& after.cursor == before.cursor
        },
        Action::FetchTransaction { ticket, hash, delay_ms } => {
            &&& after.phase == Phase::Running
            &&& ticket == before.cursor
            &&& after.cursor == before.cursor + 1
            &&& ticket < after.hashes.len()
            &&& hash == after.hashes[ticket as int]
            &&& delay_ms == before.delay_time
            &&& after.transactions.len() > 0
            &&& after.transactions.last() == Slot::<Option<T>> { ticket, result: None }
            &&& after.blocks_left == before.blocks_left
            &&& after.next_block == before.next_block
        },
        Action::Wait => {
            &&& after.phase == before.phase
            &&& after.cursor == before.cursor
            &&& after.blocks_left == before.blocks_left
            &&& after.next_block == before.next_block
            &&& after.phase == Phase::Running ==> {
                ||| after.blocks.len() > 0 && after.blocks[0].result is None
                ||| after.transactions.len() > 0 && after.transactions[0].result is None
            }
        },
        Action::Finished => {
            &&& after.phase == Phase::Running
            &&& after.blocks.len() == 0
            &&& after.transactions.len() == 0
            &&& !after.blocks_left
            &&& after.cursor == after.hashes.len()
            &&& after.cursor == before.cursor
        },
        Action::Failed => after.phase == Phase::Failed && after == before,
    }
}

/// What a poll comes to, by induction over the releases that it starts
/// with.
proof fn lemma_poll<T>(state: CrawlState<T>)
    requires
        state.wf(),
        state.after_poll().0.hashes.len() <= usize::MAX,
    ensures
        poll_law(state, state.after_poll().0, state.after_poll().1),
    decreases state.transactions.len() + state.blocks.len(),
{
    if state.phase == Phase::Running {
        if state.transaction_ready() {
            let next = state.release_transaction();
            assert(next.wf());
            lemma_poll(next);
        } else if state.block_ready() {
            let next = state.release_block();
            assert(next.hashes.is_prefix_of(next.after_poll().0.hashes)) by {
                lemma_poll_grows(next);
            }
            assert(next.wf());
            lemma_poll(next);
        } else if !state.can_issue_transaction() && state.can_issue_block() {
            let next = state.issue_block().0;
            assert forall|i: int| 0 <= i < next.blocks.len() implies (
            #[trigger] next.blocks[i]).ticket == next.blocks[0].ticket + i by {
                if state.blocks.len() > 0 {
                    assert(state.blocks.last().ticket == state.blocks[0].ticket
                        + state.blocks.len() - 1);
                }
            }
        }
    }
}

/// A poll never takes a transaction hash back.
proof fn lemma_poll_grows<T>(state: CrawlState<T>)
    ensures
        state.hashes.is_prefix_of(state.after_poll().0.hashes),
    decreases state.transactions.len() + state.blocks.len(),
{
    if state.phase == Phase::Running {
        if state.transaction_ready() {
            lemma_poll_grows(state.release_transaction());
        } else if state.block_ready() {
            lemma_poll_grows(state.release_block());
        }
    }
}

impl<T> CrawlState<T> {
    /// Soundness is kept by a poll.
    pub proof fn lemma_poll_keeps_wf(self)
        requires
            self.wf(),
            self.after_poll().0.hashes.len() <= usize::MAX,
        ensures
            self.after_poll().0.wf(),
    {
        lemma_poll(self);
    }

    /// Soundness is kept by every report.
    pub proof fn lemma_reports_keep_wf(
        self,
        height: Option<u64>,
        number: u64,
        block: Option<FetchedBlock>,
        ticket: u64,
        transaction: Option<FetchedTransaction<T>>,
    )
        requires
            self.wf(),
        ensures
            self.after_height(height).wf(),
            self.after_block(number, block).wf(),
            self.after_transaction(ticket, transaction).wf(),
    {
    }

    /// A fetch is reported once: after its report its slot is filled, and
    /// a second report for it is ignored.
    pub proof fn lemma_reports_are_taken_once(
        self,
        number: u64,
        block: Option<FetchedBlock>,
        ticket: u64,
        transaction: Option<FetchedTransaction<T>>,
    )
        requires
            self.wf(),
        ensures
            self.after_block(number, block).block_slot(number) is None,
            self.after_transaction(ticket, transaction).transaction_slot(ticket) is None,
    {
    }

    /// No stage ever has more than `BUFFER_SIZE` fetches outstanding.
    pub proof fn lemma_windows_are_bounded(self)
        requires
            self.wf(),
        ensures
            self.blocks.filter(|slot: Slot<Seq<Hash256>>| slot.result is None).len()
                <= BUFFER_SIZE,
            self.transactions.filter(|slot: Slot<Option<T>>| slot.result is None).len()
                <= BUFFER_SIZE,
    {
        self.blocks.lemma_filter_len(|slot: Slot<Seq<Hash256>>| slot.result is None);
        self.transactions.lemma_filter_len(|slot: Slot<Option<T>>| slot.result is None);
    }

    /// Stage one walks the range in ascending order: the block that a poll
    /// asks for is the next of the range, and the one after it is next
    /// afterwards, unless it was the last.
    pub proof fn lemma_blocks_are_issued_in_order(self)
        requires
            self.wf(),
            self.after_poll().0.hashes.len() <= usize::MAX,
        ensures
            self.after_poll().1 matches Action::FetchBlock { number, delay_ms } ==> {
                &&& self.blocks_left
                &&& number == self.next_block
                &&& self.from_block <= number <= self.to_block
                &&& delay_ms == self.delay_time
                &&& self.after_poll().0.blocks_left == (number < self.to_block)
                &&& number < self.to_block ==> self.after_poll().0.next_block == number + 1
                &&& self.after_poll().0.cursor == self.cursor
            },
    {
        lemma_poll(self);
    }

    /// Stage two walks the transaction hashes in the order in which the
    /// released blocks listed them: the hash that a poll asks for is the
    /// next that was not asked for, under its position as ticket.
    pub proof fn lemma_transactions_are_issued_in_order(self)
        requires
            self.wf(),
            self.after_poll().0.hashes.len() <= usize::MAX,
        ensures
            self.after_poll().1 matches Action::FetchTransaction { ticket, hash, delay_ms } ==> {
                &&& ticket == self.cursor
                &&& self.after_poll().0.cursor == self.cursor + 1
                &&& ticket < self.after_poll().0.hashes.len()
                &&& hash == self.after_poll().0.hashes[ticket as int]
                &&& delay_ms == self.delay_time
                &&& self.after_poll().0.next_block == self.next_block
                &&& self.after_poll().0.blocks_left == self.blocks_left
            },
    {
        lemma_poll(self);
    }

    /// A poll takes nothing back: the transaction hashes and the collected
    /// records only grow at their ends, and the range, the delay and the
    /// filters stay.
    pub proof fn lemma_poll_only_adds(self)
        requires
            self.wf(),
            self.after_poll().0.hashes.len() <= usize::MAX,
        ensures
            self.hashes.is_prefix_of(self.after_poll().0.hashes),
            self.fetched.is_prefix_of(self.after_poll().0.fetched),
            self.after_poll().0.from_block == self.from_block,
            self.after_poll().0.to_block == self.to_block,
            self.after_poll().0.delay_time == self.delay_time,
            self.after_poll().0.filter_options == self.filter_options,
    {
        lemma_poll(self);
    }

    /// A crawl is finished only when every block of the range was asked
    /// for, every listed transaction was asked for, and nothing is
    /// outstanding or waiting for release.
    pub proof fn lemma_finished_leaves_nothing(self)
        requires
            self.wf(),
            self.after_poll().0.hashes.len() <= usize::MAX,
            self.after_poll().1 == Action::Finished,
        ensures
            self.after_poll().0.phase == Phase::Running,
            !self.after_poll().0.blocks_left,
            self.after_poll().0.blocks.len() == 0,
            self.after_poll().0.transactions.len() == 0,
            self.after_poll().0.cursor == self.after_poll().0.hashes.len(),
    {
        lemma_poll(self);
    }

    /// After `Wait` a fetch is outstanding at the head of a stage, or the
    /// chain height is: the driver always has a report to wait for.
    pub proof fn lemma_wait_has_something_outstanding(self)
        requires
            self.wf(),
            self.after_poll().0.hashes.len() <= usize::MAX,
            self.after_poll().1 == Action::Wait,
        ensures
            ({
                let after = self.after_poll().0;
                ||| after.phase == Phase::AwaitingHeight
                ||| after.blocks.len() > 0 && after.blocks[0].result is None
                ||| after.transactions.len() > 0 && after.transactions[0].result is None
            }),
    {
        lemma_poll(self);
    }
}

/// The working state of a crawl.
struct Pipeline<T> {
    phase: Phase,
    from_block: u64,
    delay_time: u64,
    filter_options: FilterOption,
    to_block: u64,
    blocks_left: bool,
    next_block: u64,
    blocks: Vec<Slot<Vec<Hash256>>>,
    hashes: Vec<Hash256>,
    cursor: usize,
    transactions: Vec<Slot<Option<T>>>,
    fetched: Vec<T>,
}

/// A block slot with its hashes as a sequence.
spec fn block_slot_view(slot: Slot<Vec<Hash256>>) -> Slot<Seq<Hash256>> {
    Slot {
        ticket: slot.ticket,
        result: match slot.result {
            Some(list) => Some(list@),
            None => None,
        },
    }
}

impl<T> View for Pipeline<T> {
    type V = CrawlState<T>;

    closed spec fn view(&self) -> CrawlState<T> {
        CrawlState {
            phase: self.phase,
            from_block: self.from_block,
            delay_time: self.delay_time,
            filter_options: self.filter_options,
            to_block: self.to_block,
            blocks_left: self.blocks_left,
            next_block: self.next_block,
            blocks: self.blocks@.map_values(|slot: Slot<Vec<Hash256>>| block_slot_view(slot)),
            hashes: self.hashes@,
            cursor: self.cursor as nat,
            transactions: self.transactions@,
            fetched: self.fetched@,
        }
    }
}

impl<T> Pipeline<T> {
    /// The state before anything was asked.
    fn new(from_block: u64, delay_time: u64, filter_options: FilterOption) -> (crawler: Self)
        ensures
            crawler@ == CrawlState::<T>::initial(from_block, delay_time, filter_options),
            crawler@.wf(),
    {
        let crawler = Pipeline {
            phase: Phase::Start,
            from_block,
            delay_time,
            filter_options,
            to_block: 0,
            blocks_left: false,
            next_block: from_block,
            blocks: Vec::new(),
            hashes: Vec::new(),
            cursor: 0,
            transactions: Vec::new(),
            fetched: Vec::new(),
        };
        assert(crawler@.blocks =~= Seq::empty());
        crawler
    }

    /// Where the crawl stands.
    fn phase(&self) -> (phase: Phase)
        ensures
            phase == self@.phase,
    {
        self.phase
    }

    /// Takes the chain height, or the failure to get it.
    fn height(&mut self, height: Option<u64>)
        requires
            old(self)@.wf(),
        ensures
            final(self)@ == old(self)@.after_height(height),
            final(self)@.wf(),
    {
        match self.phase {
            Phase::AwaitingHeight => {
                match height {
                    Some(to_block) => {
                        self.phase = Phase::Running;
                        self.to_block = to_block;
                        self.blocks_left = self.from_block <= to_block;
                        self.next_block = self.from_block;
                    },
                    None => {
                        self.phase = Phase::Failed;
                    },
                }
            },
            _ => {},
        }
    }

    /// Releases what is finished, oldest first, and decides the next step.
    fn poll(&mut self) -> (action: Action)
        requires
            old(self)@.wf(),
        ensures
            (final(self)@, action) == old(self)@.after_poll(),
            final(self)@.wf(),
    {
        match self.phase {
            Phase::Start => {
                self.phase = Phase::AwaitingHeight;
                return Action::QueryHeight;
            },
            Phase::AwaitingHeight => {
                return Action::Wait;
            },
            Phase::Failed => {
                return Action::Failed;
            },
            Phase::Running => {},
        }
        loop
            invariant
                self@.wf(),
                self@.phase == Phase::Running,
                self@.after_poll() == old(self)@.after_poll(),
            ensures
                !self@.transaction_ready(),
                !self@.block_ready(),
            decreases self@.transactions.len() + self@.blocks.len(),
        {
            if self.transactions.len() > 0 && self.transactions[0].result.is_some() {
                let slot = self.transactions.remove(0);
                match slot.result {
                    Some(Some(record)) => {
                        self.fetched.push(record);
                    },
                    _ => {},
                }
            } else if self.blocks.len() > 0 && self.blocks[0].result.is_some() {
                let ghost before = self@;
                let slot = self.blocks.remove(0);
                let mut list = slot.result.unwrap();
                self.hashes.append(&mut list);
                assert(self.hashes.len() == self.hashes@.len());
                assert(self@.blocks =~= before.blocks.drop_first());
            } else {
                break ;
            }
        }
        if self.transactions.len() < BUFFER_SIZE && self.cursor < self.hashes.len() {
            let ticket = self.cursor as u64;
            let hash = self.hashes[self.cursor];
            self.transactions.push(Slot { ticket, result: None });
            self.cursor = self.cursor + 1;
            Action::FetchTransaction { ticket, hash, delay_ms: self.delay_time }
        } else if self.blocks.len() < BUFFER_SIZE && self.blocks_left {
            let ghost before = self@;
            let number = self.next_block;
            self.blocks.push(Slot { ticket: number, result: None });
            if number < self.to_block {
                self.next_block = number + 1;
            } else {
                self.blocks_left = false;
            }
            assert(self@.blocks =~= before.blocks.push(Slot { ticket: number, result: None }));
            Action::FetchBlock { number, delay_ms: self.delay_time }
        } else if self.blocks.len() == 0 && self.transactions.len() == 0 {
            Action::Finished
        } else {
            Action::Wait
        }
    }

    /// Fills the slot of block `number` and judges the block.
    fn block_fetched(&mut self, number: u64, fetched: Fetched<FetchedBlock>) -> (verdict:
        Verdict)
        requires
            old(self)@.wf(),
        ensures
            final(self)@ == old(self)@.after_block(number, fetched.spec_found()),
            final(self)@.wf(),
            verdict == if old(self)@.block_slot(number) is Some {
                block_verdict(fetched.spec_found(), old(self)@.filter_options.block_hash_filter)
            } else {
                Verdict::Ignored
            },
    {
        if !(self.phase == Phase::Running && self.blocks.len() > 0 && self.blocks[0].ticket
            <= number) {
            return Verdict::Ignored;
        }
        let offset = number - self.blocks[0].ticket;
        if offset >= self.blocks.len() as u64 {
            return Verdict::Ignored;
        }
        let at = offset as usize;
        if self.blocks[at].result.is_some() {
            return Verdict::Ignored;
        }
        let ghost before = self@;
        let found = fetched.found();
        let (verdict, list) = match found {
            Some(block) => {
                let verdict = if filter_block(&block, &self.filter_options.block_hash_filter) {
                    Verdict::Publish
                } else {
                    Verdict::Skip
                };
                (verdict, block.transactions)
            },
            None => (Verdict::Absent, Vec::new()),
        };
        self.blocks.set(at, Slot { ticket: number, result: Some(list) });
        assert(self@.blocks =~= before.blocks.update(
            at as int,
            Slot { ticket: number, result: Some(listed_hashes(found)) },
        ));
        verdict
    }

    /// Fills the slot of the fetch under `ticket` and judges the transaction.
    fn transaction_fetched(
        &mut self,
        ticket: u64,
        fetched: Fetched<FetchedTransaction<T>>,
    ) -> (verdict: Verdict)
        requires
            old(self)@.wf(),
        ensures
            final(self)@ == old(self)@.after_transaction(ticket, fetched.spec_found()),
            final(self)@.wf(),
            verdict == if old(self)@.transaction_slot(ticket) is Some {
                transaction_verdict(
                    fetched.spec_found(),
                    old(self)@.filter_options.tx_hash_filter,
                )
            } else {
                Verdict::Ignored
            },
    {
        if !(self.phase == Phase::Running && self.transactions.len() > 0
            && self.transactions[0].ticket <= ticket) {
            return Verdict::Ignored;
        }
        let offset = ticket - self.transactions[0].ticket;
        if offset >= self.transactions.len() as u64 {
            return Verdict::Ignored;
        }
        let at = offset as usize;
        if self.transactions[at].result.is_some() {
            return Verdict::Ignored;
        }
        let found = fetched.found();
        let (verdict, record) = match found {
            Some(transaction) => {
                let verdict = if filter_transaction(
                    &transaction,
                    &self.filter_options.tx_hash_filter,
                ) {
                    Verdict::Publish
                } else {
                    Verdict::Skip
                };
                (verdict, Some(transaction.record))
            },
            None => (Verdict::Absent, None),
        };
        self.transactions.set(at, Slot { ticket, result: Some(record) });
        verdict
    }

    /// The collected records.
    fn into_transactions(self) -> (fetched: Vec<T>)
        ensures
            fetched@ == self@.fetched,
    {
        self.fetched
    }
}

/// The crawl pipeline. `T` is the transaction record that the driver
/// fetches; the pipeline carries it without reading it.
pub struct Crawler<T> {
    pipeline: Pipeline<T>,
}

impl<T> View for Crawler<T> {
    type V = CrawlState<T>;

    closed spec fn view(&self) -> CrawlState<T> {
        self.pipeline@
    }
}

impl<T> Crawler<T> {
    #[verifier::type_invariant]
    spec fn sound(&self) -> bool {
        self.pipeline@.wf()
    }

    /// A crawl that starts at `from_block`, waits `delay_time` milliseconds
    /// before each fetch and publishes what passes `filter_options`.
    pub fn new(from_block: u64, delay_time: u64, filter_options: FilterOption) -> (crawler: Self)
        ensures
            crawler@ == CrawlState::<T>::initial(from_block, delay_time, filter_options),
            crawler@.wf(),
    {
        Crawler { pipeline: Pipeline::new(from_block, delay_time, filter_options) }
    }

    /// Takes the working state out, leaving a fresh one in its place, so
    /// that it can be worked on step by step.
    fn take(&mut self) -> (pipeline: Pipeline<T>)
        ensures
            pipeline@ == old(self)@,
            pipeline@.wf(),
    {
        proof {
            use_type_invariant(&*self);
        }
        let mut pipeline = Pipeline::new(
            0,
            0,
            FilterOption { tx_hash_filter: None, block_hash_filter: None },
        );
        core::mem::swap(&mut self.pipeline, &mut pipeline);
        pipeline
    }

    /// Puts the working state back.
    fn put(&mut self, pipeline: Pipeline<T>)
        requires
            pipeline@.wf(),
        ensures
            final(self)@ == pipeline@,
    {
        let mut pipeline = pipeline;
        core::mem::swap(&mut self.pipeline, &mut pipeline);
    }

    /// Where the crawl stands.
    pub fn phase(&self) -> (phase: Phase)
        ensures
            phase == self@.phase,
    {
        self.pipeline.phase()
    }

    /// Reports the chain height, or `None` where the query failed.
    pub fn height(&mut self, height: Option<u64>)
        ensures
            final(self)@ == old(self)@.after_height(height),
            final(self)@.wf(),
    {
        let mut pipeline = self.take();
        pipeline.height(height);
        self.put(pipeline);
    }

    /// Asks what to do next. Call it again after every action but `Wait`,
    /// `Finished` and `Failed`; after `Wait`, report an outstanding call
    /// first.
    pub fn poll(&mut self) -> (action: Action)
        ensures
            (final(self)@, action) == old(self)@.after_poll(),
            final(self)@.wf(),
    {
        let mut pipeline = self.take();
        let action = pipeline.poll();
        self.put(pipeline);
        action
    }

    /// Reports what the fetch of block `number` came to, and says what to do
    /// with the block. Its transaction hashes go to stage two whether or not
    /// it is published.
    pub fn block_fetched(&mut self, number: u64, fetched: Fetched<FetchedBlock>) -> (verdict:
        Verdict)
        ensures
            final(self)@ == old(self)@.after_block(number, fetched.spec_found()),
            final(self)@.wf(),
            verdict == if old(self)@.block_slot(number) is Some {
                block_verdict(fetched.spec_found(), old(self)@.filter_options.block_hash_filter)
            } else {
                Verdict::Ignored
            },
    {
        let mut pipeline = self.take();
        let verdict = pipeline.block_fetched(number, fetched);
        self.put(pipeline);
        verdict
    }

    /// Reports what the transaction fetch issued under `ticket` came to, and
    /// says what to do with the transaction.
    pub fn transaction_fetched(
        &mut self,
        ticket: u64,
        fetched: Fetched<FetchedTransaction<T>>,
    ) -> (verdict: Verdict)
        ensures
            final(self)@ == old(self)@.after_transaction(ticket, fetched.spec_found()),
            final(self)@.wf(),
            verdict == if old(self)@.transaction_slot(ticket) is Some {
                transaction_verdict(
                    fetched.spec_found(),
                    old(self)@.filter_options.tx_hash_filter,
                )
            } else {
                Verdict::Ignored
            },
    {
        let mut pipeline = self.take();
        let verdict = pipeline.transaction_fetched(ticket, fetched);
        self.put(pipeline);
        verdict
    }

    /// The records of the transactions fetched and released so far, in
    /// the order in which their hashes were listed. After `Finished` these
    /// are all that were fetched.
    pub fn into_transactions(self) -> (fetched: Vec<T>)
        ensures
            fetched@ == self@.fetched,
    {
        self.pipeline.into_transactions()
    }
}

} // verus!
