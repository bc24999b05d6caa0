//! Merging of depth-of-book snapshots from several venues into one order book
//! of fixed depth per side.
//!
//! Prices and amounts are carried as the bit patterns of IEEE-754 binary64
//! numbers and ordered by the total order on those patterns, so every
//! comparison in the library is a comparison of integers.

pub mod aggregator;
pub mod binance;
pub mod bitstamp;
pub mod bounded;
pub mod console;
pub mod feed;
pub mod market_data_source;
pub mod market_data_source_container;
pub mod merge;
pub mod merge_laws;
pub mod multi_receiver_channels;
pub mod orderbook;
pub mod outside;
pub mod text;
pub mod total_order;
