//! The settings of the producer that publishes crawled records.

use vstd::prelude::*;

verus! {

/// How many acknowledgements the producer waits for before a message counts
/// as sent.
#[derive(Clone, Copy, Debug, PartialEq, Eq, Structural)]
pub enum RequiredAcks {
    /// No acknowledgement: fire and forget.
    Zero,
    /// That of the partition's leader.
    One,
    /// Those of all in-sync replicas.
    All,
}

/// The producer's settings: the brokers to connect to and how long to wait
/// for which acknowledgements.
#[derive(Debug)]
pub struct KafkaProducer {
    /// The brokers, each as `host:port`.
    pub hosts: Vec<String>,
    /// How long to wait for the acknowledgements, in seconds.
    pub ack_timeout_secs: u64,
    pub required_acks: RequiredAcks,
}

impl KafkaProducer {
    /// The settings for publishing to `hosts`: wait at most one second for
    /// the acknowledgement of the partition's leader.
    pub fn new(hosts: Vec<String>) -> (producer: Self)
        ensures
            producer.hosts == hosts,
            producer.ack_timeout_secs == 1,
            producer.required_acks == RequiredAcks::One,
    {
        KafkaProducer { hosts, ack_timeout_secs: 1, required_acks: RequiredAcks::One }
    }
}

} // verus!
