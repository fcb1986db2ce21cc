//! Crawling ledger blocks and transactions, republishing them, and serving
//! queries over what was ingested.

pub mod block;
pub mod config;
pub mod consumer;
pub mod crawler;
pub mod filter;
pub mod hash;
pub mod hex;
pub mod number;
pub mod producer;
pub mod provider;
pub mod query;
pub mod storage;
pub mod text;
pub mod transaction;
