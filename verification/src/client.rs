//! The two requests of the REST interface, as the lines to ask for. The
//! answers are decoded by `body::decode_board` and
//! `body::decode_executions`.

use crate::decimal::{decimal, push_decimal};
use vstd::prelude::*;

verus! {

/// Where the exchange answers.
pub const BASE_URL: &'static str = "https://api.bitflyer.com";

/// How many executions one page of the history holds at most.
pub const PAGE_SIZE: usize = 500;

/// The address of the order book.
pub open spec fn board_url_text() -> Seq<char> {
    BASE_URL@ + "/v1/board"@
}

/// The cursor that goes into the request: the given one, or zero, which
/// asks for the most recent executions.
pub open spec fn cursor_number(before: Option<i64>) -> int {
    match before {
        Some(cursor) => cursor as int,
        None => 0,
    }
}

/// The address of one page of the history: up to `PAGE_SIZE` executions
/// with ids below `before`.
pub open spec fn history_url_text(before: Option<i64>) -> Seq<char> {
    BASE_URL@ + "/v1/executions?count=500&before="@ + decimal(cursor_number(before))
}

/// The address to ask for the order book.
pub fn board_url() -> (url: String)
    ensures
        url@ == board_url_text(),
{
    let mut url = String::from_str(BASE_URL);
    url.append("/v1/board");
    url
}

/// The address to ask for one page of the history, most recent first: the
/// executions with ids below `before`, or the most recent ones if there is
/// no cursor.
pub fn history_url(before: Option<i64>) -> (url: String)
    ensures
        url@ == history_url_text(before),
{
    let cursor: i64 = match before {
        Some(cursor) => cursor,
        None => 0,
    };
    let mut url = String::from_str(BASE_URL);
    url.append("/v1/executions?count=500&before=");
    push_decimal(&mut url, cursor);
    url
}

} // verus!
