//! A client for the public interfaces of the bitFlyer exchange, verified
//! with Verus.
//!
//! The library decides and computes; it does no input or output. Its
//! caller makes the requests, holds the connection and the store, and does
//! the arithmetic on prices.
//!
//! - `body`: the records of the exchange and their JSON.
//! - `client`: the addresses of the two REST requests.
//! - `stream`: the streaming feed, one frame at a time.
//! - `poller`: walking the history backwards, page by page.
//! - `history`, `window`, `table`: the export of the stored history.
//! - `json`, `decimal`, `error`: what the others stand on.
//!
//! JSON text is taken apart by `serde_json`, one list is sorted by `std`,
//! and `std` writes the `Debug` form of a text. What is taken on trust of
//! them is said at their wrappers, in `json`, `history` and `error`;
//! everything else is proved.

pub mod body;
pub mod client;
pub mod decimal;
pub mod error;
pub mod history;
pub mod json;
pub mod poller;
pub mod stream;
pub mod table;
pub mod window;
