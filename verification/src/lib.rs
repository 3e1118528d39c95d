//! Matching and settlement-accounting core of a central-limit-order-book
//! exchange: order book, matching engine, bounded event queue, and the deposit
//! accounting that follows a match. Every function is verified against its
//! contract.

pub mod error;
pub mod order;
pub mod market;
pub mod position;
pub mod event_heap;
pub mod book;
pub mod matching;
pub mod engine;
pub mod transfer_fee;
pub mod place_order;
