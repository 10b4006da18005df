//! Deterministic price and risk analytics for decentralised price oracles,
//! and the median aggregation of the signals that reporting nodes reveal.
//!
//! A node derives the price of a pool from its state on chain, scores the
//! liquidity behind that price and its distance from the price of a day
//! before, sizes the largest trade that stays within a slippage bound, and
//! reveals the four results. The aggregation takes the median of each over
//! the reveals of all nodes.
//!
//! All arithmetic is integer arithmetic on 256-bit unsigned values, scaled
//! by a fixed factor of one million, so that independent nodes arrive at
//! bit-identical results.
//!
//! - [`uint256`]: 256-bit integers and the arithmetic on them.
//! - [`text`], [`codec`], [`decimal`], [`abi`]: what is read from and
//!   written to text and bytes.
//! - [`price`], [`scoring`], [`sizing`]: the analytics.
//! - [`input`], [`execution`]: the run of a node.
//! - [`median`], [`aggregator`]: the aggregation.
//! - [`pool_feed`]: the feed of a single pool.
//! - [`error`]: the failures.

pub mod abi;
pub mod aggregator;
pub mod codec;
pub mod decimal;
pub mod error;
pub mod execution;
pub mod input;
pub mod median;
pub mod pool_feed;
pub mod price;
pub mod scoring;
pub mod sizing;
pub mod text;
pub mod uint256;
