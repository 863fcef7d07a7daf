//! Verified core of an exchange market-data feed: an order-book engine with
//! price-ordering and zero-amount invariants, per-instrument book storage,
//! the OKX protocol adapter that reconciles snapshots against incremental
//! updates, the decision logic of a reconnecting websocket client, and the
//! pure part of the REST order-book poller.

pub mod basic_types;
pub mod decimal;
pub mod api;
pub mod internal;
pub mod order_book;
pub mod storage;
pub mod ws_client;
pub mod okex_model;
pub mod okex_adapter;
pub mod okex_rest;
pub mod okex_stream;
pub mod config;
