//! The verified core of a stock-tracking pipeline.
//!
//! A scheduler publishes one quote request per symbol on every tick, a
//! downloader turns each fetch outcome into exactly one result, and a
//! processor puts every non-empty result in time order and hands on what one
//! row of output is made from. The three meet only through the message bus.
//!
//! Prices are carried, never computed with: every type that holds a price is
//! generic over its representation.

pub mod bus;
pub mod calendar;
pub mod downloader;
pub mod processor;
pub mod quote;
pub mod row;
pub mod scheduler;
pub mod series;
pub mod symbols;
pub mod timeline;
