//! The records that the exchange sends, and their JSON.
//!
//! Prices and sizes are carried as the text of their number: the library
//! moves them and writes them back, and leaves arithmetic on them to its
//! caller.

use crate::decimal::{decimal, push_decimal};
use crate::error::{Cause, Error};
use crate::json::{
    integer_member, json_items, json_members, json_quoted, member, number_member, read_array,
    read_integer_member, read_number_member, read_object, read_string_member, string_member,
    read_number, same_text, write_string, find_member, json_number, missing,
};
use vstd::prelude::*;

verus! {

/// A number as written: the text of a JSON number.
#[derive(Clone, Debug, PartialEq, Eq)]
pub struct Numeral {
    pub text: String,
}

/// Whether a text is a number in the form in which `serde_json` writes it:
/// read as a JSON number and written again, it is the same text.
pub open spec fn well_written(text: Seq<char>) -> bool {
    json_number(text) == Some(text)
}

impl Numeral {
    /// Whether the numeral holds a number as it is written. The decoders
    /// hand out what `serde_json` wrote; a numeral made by hand may hold any
    /// text.
    pub open spec fn is_valid(&self) -> bool {
        well_written(self.text@)
    }

    /// Tests whether the numeral holds a number as it is written.
    pub fn check(&self) -> (valid: bool)
        ensures
            valid == self.is_valid(),
    {
        match read_number(self.text.as_str()) {
            Ok(written) => same_text(written.as_str(), self.text.as_str()),
            Err(_) => false,
        }
    }
}

impl View for Numeral {
    type V = Seq<char>;

    open spec fn view(&self) -> Seq<char> {
        self.text@
    }
}

impl DeepView for Numeral {
    type V = Seq<char>;

    open spec fn deep_view(&self) -> Seq<char> {
        self.text@
    }
}

/// One level of the order book.
#[derive(Clone, Debug, PartialEq, Eq)]
pub struct BoardOrder {
    pub price: Numeral,
    pub size: Numeral,
}

/// A `BoardOrder` as plain values.
pub struct BoardOrderView {
    pub price: Seq<char>,
    pub size: Seq<char>,
}

impl View for BoardOrder {
    type V = BoardOrderView;

    open spec fn view(&self) -> BoardOrderView {
        BoardOrderView { price: self.price@, size: self.size@ }
    }
}

impl DeepView for BoardOrder {
    type V = BoardOrderView;

    open spec fn deep_view(&self) -> BoardOrderView {
        self@
    }
}

/// A snapshot of the order book.
#[derive(Clone, Debug, PartialEq, Eq)]
pub struct Board {
    pub mid_price: Numeral,
    pub bids: Vec<BoardOrder>,
    pub asks: Vec<BoardOrder>,
}

/// A `Board` as plain values.
pub struct BoardView {
    pub mid_price: Seq<char>,
    pub bids: Seq<BoardOrderView>,
    pub asks: Seq<BoardOrderView>,
}

impl View for Board {
    type V = BoardView;

    open spec fn view(&self) -> BoardView {
        BoardView {
            mid_price: self.mid_price@,
            bids: self.bids.deep_view(),
            asks: self.asks.deep_view(),
        }
    }
}

impl DeepView for Board {
    type V = BoardView;

    open spec fn deep_view(&self) -> BoardView {
        self@
    }
}

/// One execution: a trade that the exchange has completed.
#[derive(Clone, Debug, PartialEq, Eq)]
pub struct ExchangeHistory {
    pub id: i64,
    pub side: String,
    pub price: Numeral,
    pub size: Numeral,
    pub exec_date: String,
    pub buy_child_order_acceptance_id: String,
    pub sell_child_order_acceptance_id: String,
}

/// An `ExchangeHistory` as plain values.
pub struct ExchangeHistoryView {
    pub id: i64,
    pub side: Seq<char>,
    pub price: Seq<char>,
    pub size: Seq<char>,
    pub exec_date: Seq<char>,
    pub buy_child_order_acceptance_id: Seq<char>,
    pub sell_child_order_acceptance_id: Seq<char>,
}

impl View for ExchangeHistory {
    type V = ExchangeHistoryView;

    open spec fn view(&self) -> ExchangeHistoryView {
        ExchangeHistoryView {
            id: self.id,
            side: self.side@,
            price: self.price@,
            size: self.size@,
            exec_date: self.exec_date@,
            buy_child_order_acceptance_id: self.buy_child_order_acceptance_id@,
            sell_child_order_acceptance_id: self.sell_child_order_acceptance_id@,
        }
    }
}

impl DeepView for ExchangeHistory {
    type V = ExchangeHistoryView;

    open spec fn deep_view(&self) -> ExchangeHistoryView {
        self@
    }
}

/// What each of the texts decodes to under `one`, in order; `None` as soon
/// as one of them does not decode.
pub open spec fn each_of<T>(items: Seq<Seq<char>>, one: spec_fn(Seq<char>) -> Option<T>) -> Option<
    Seq<T>,
>
    decreases items.len(),
{
    if items.len() == 0 {
        Some(Seq::empty())
    } else {
        match (each_of(items.drop_last(), one), one(items.last())) {
            (Some(rest), Some(last)) => Some(rest.push(last)),
            _ => None,
        }
    }
}

/// The order-book level that a JSON object holds: its members `price` and
/// `size`, both numbers.
pub open spec fn order_of(text: Seq<char>) -> Option<BoardOrderView> {
    match json_members(text) {
        None => None,
        Some(members) => match (number_member(members, "price"@), number_member(members, "size"@)) {
            (Some(price), Some(size)) => Some(BoardOrderView { price, size }),
            _ => None,
        },
    }
}

/// The levels that a JSON array of order-book levels holds.
pub open spec fn orders_of(text: Seq<char>) -> Option<Seq<BoardOrderView>> {
    match json_items(text) {
        None => None,
        Some(items) => each_of(items, |item: Seq<char>| order_of(item)),
    }
}

/// The levels that the member called `name` holds.
pub open spec fn orders_member(members: Seq<(Seq<char>, Seq<char>)>, name: Seq<char>) -> Option<
    Seq<BoardOrderView>,
> {
    match member(members, name) {
        Some(text) => orders_of(text),
        None => None,
    }
}

/// The order book that a JSON object holds: its members `mid_price`, a
/// number, and `bids` and `asks`, arrays of levels.
pub open spec fn board_of(text: Seq<char>) -> Option<BoardView> {
    match json_members(text) {
        None => None,
        Some(members) => match (
            number_member(members, "mid_price"@),
            orders_member(members, "bids"@),
            orders_member(members, "asks"@),
        ) {
            (Some(mid_price), Some(bids), Some(asks)) => Some(BoardView { mid_price, bids, asks }),
            _ => None,
        },
    }
}

/// The execution that a JSON object holds: its seven members, `id` an
/// integer, `price` and `size` numbers, the others strings.
pub open spec fn execution_of(text: Seq<char>) -> Option<ExchangeHistoryView> {
    match json_members(text) {
        None => None,
        Some(members) => match (
            integer_member(members, "id"@),
            string_member(members, "side"@),
            number_member(members, "price"@),
            number_member(members, "size"@),
            string_member(members, "exec_date"@),
            string_member(members, "buy_child_order_acceptance_id"@),
            string_member(members, "sell_child_order_acceptance_id"@),
        ) {
            (Some(id), Some(side), Some(price), Some(size), Some(date), Some(buy), Some(sell)) => {
                Some(
                    ExchangeHistoryView {
                        id,
                        side,
                        price,
                        size,
                        exec_date: date,
                        buy_child_order_acceptance_id: buy,
                        sell_child_order_acceptance_id: sell,
                    },
                )
            },
            _ => None,
        },
    }
}

/// The executions that a JSON array of executions holds.
pub open spec fn executions_of(text: Seq<char>) -> Option<Seq<ExchangeHistoryView>> {
    match json_items(text) {
        None => None,
        Some(items) => each_of(items, |item: Seq<char>| execution_of(item)),
    }
}

fn order_from(text: &str) -> (r: Result<BoardOrder, Cause>)
    ensures
        match r {
            Ok(order) => order_of(text@) == Some(order@),
            Err(_) => order_of(text@) is None,
        },
{
    let members = match read_object(text) {
        Ok(members) => members,
        Err(message) => {
            return Err(message);
        },
    };
    let price = match read_number_member(&members, "price") {
        Ok(price) => price,
        Err(message) => {
            return Err(message);
        },
    };
    let size = match read_number_member(&members, "size") {
        Ok(size) => size,
        Err(message) => {
            return Err(message);
        },
    };
    Ok(BoardOrder { price: Numeral { text: price }, size: Numeral { text: size } })
}

fn orders_from(text: &str) -> (r: Result<Vec<BoardOrder>, Cause>)
    ensures
        match r {
            Ok(orders) => orders_of(text@) == Some(orders.deep_view()),
            Err(_) => orders_of(text@) is None,
        },
{
    let items = match read_array(text) {
        Ok(items) => items,
        Err(message) => {
            return Err(message);
        },
    };
    let ghost texts = items.deep_view();
    let ghost one = |item: Seq<char>| order_of(item);
    let mut orders: Vec<BoardOrder> = Vec::new();
    let mut i: usize = 0;
    assert(texts.take(0) =~= Seq::empty());
    assert(orders.deep_view() =~= Seq::empty());
    while i < items.len()
        invariant
            i <= items.len(),
            texts == items.deep_view(),
            json_items(text@) == Some(texts),
            one == (|item: Seq<char>| order_of(item)),
            each_of(texts.take(i as int), one) == Some(orders.deep_view()),
        decreases items.len() - i,
    {
        let ghost before = orders.deep_view();
        assert(texts.take(i + 1).drop_last() =~= texts.take(i as int));
        assert(texts.take(i + 1).last() == items[i as int]@);
        match order_from(items[i].as_str()) {
            Ok(order) => {
                orders.push(order);
                assert(orders.deep_view() =~= before.push(order@));
            },
            Err(message) => {
                proof {
                    lemma_each_of_fails(texts, one, i as int);
                }
                return Err(message);
            },
        }
        i += 1;
    }
    assert(texts.take(items.len() as int) =~= texts);
    Ok(orders)
}

/// Where one text does not decode, the whole list does not.
pub proof fn lemma_each_of_fails<T>(
    items: Seq<Seq<char>>,
    one: spec_fn(Seq<char>) -> Option<T>,
    i: int,
)
    requires
        0 <= i < items.len(),
        one(items[i]) is None,
    ensures
        each_of(items, one) is None,
    decreases items.len(),
{
    if i < items.len() - 1 {
        lemma_each_of_fails(items.drop_last(), one, i);
    }
}

fn orders_member_from(members: &Vec<(String, String)>, name: &str) -> (r: Result<Vec<BoardOrder>, Cause>)
    ensures
        match r {
            Ok(orders) => orders_member(members.deep_view(), name@) == Some(orders.deep_view()),
            Err(_) => orders_member(members.deep_view(), name@) is None,
        },
{
    match find_member(members, name) {
        None => Err(missing(name)),
        Some(text) => orders_from(text.as_str()),
    }
}

pub(crate) fn board_from(text: &str) -> (r: Result<Board, Cause>)
    ensures
        match r {
            Ok(board) => board_of(text@) == Some(board@),
            Err(_) => board_of(text@) is None,
        },
{
    let members = match read_object(text) {
        Ok(members) => members,
        Err(message) => {
            return Err(message);
        },
    };
    let mid_price = match read_number_member(&members, "mid_price") {
        Ok(mid_price) => mid_price,
        Err(message) => {
            return Err(message);
        },
    };
    let bids = match orders_member_from(&members, "bids") {
        Ok(bids) => bids,
        Err(message) => {
            return Err(message);
        },
    };
    let asks = match orders_member_from(&members, "asks") {
        Ok(asks) => asks,
        Err(message) => {
            return Err(message);
        },
    };
    Ok(Board { mid_price: Numeral { text: mid_price }, bids, asks })
}

fn execution_from(text: &str) -> (r: Result<ExchangeHistory, Cause>)
    ensures
        match r {
            Ok(execution) => execution_of(text@) == Some(execution@),
            Err(_) => execution_of(text@) is None,
        },
{
    let members = match read_object(text) {
        Ok(members) => members,
        Err(message) => {
            return Err(message);
        },
    };
    let id = match read_integer_member(&members, "id") {
        Ok(id) => id,
        Err(message) => {
            return Err(message);
        },
    };
    let side = match read_string_member(&members, "side") {
        Ok(side) => side,
        Err(message) => {
            return Err(message);
        },
    };
    let price = match read_number_member(&members, "price") {
        Ok(price) => price,
        Err(message) => {
            return Err(message);
        },
    };
    let size = match read_number_member(&members, "size") {
        Ok(size) => size,
        Err(message) => {
            return Err(message);
        },
    };
    let exec_date = match read_string_member(&members, "exec_date") {
        Ok(exec_date) => exec_date,
        Err(message) => {
            return Err(message);
        },
    };
    let buy = match read_string_member(&members, "buy_child_order_acceptance_id") {
        Ok(buy) => buy,
        Err(message) => {
            return Err(message);
        },
    };
    let sell = match read_string_member(&members, "sell_child_order_acceptance_id") {
        Ok(sell) => sell,
        Err(message) => {
            return Err(message);
        },
    };
    Ok(
        ExchangeHistory {
            id,
            side,
            price: Numeral { text: price },
            size: Numeral { text: size },
            exec_date,
            buy_child_order_acceptance_id: buy,
            sell_child_order_acceptance_id: sell,
        },
    )
}

pub(crate) fn executions_from(text: &str) -> (r: Result<Vec<ExchangeHistory>, Cause>)
    ensures
        match r {
            Ok(executions) => executions_of(text@) == Some(executions.deep_view()),
            Err(_) => executions_of(text@) is None,
        },
{
    let items = match read_array(text) {
        Ok(items) => items,
        Err(message) => {
            return Err(message);
        },
    };
    let ghost texts = items.deep_view();
    let ghost one = |item: Seq<char>| execution_of(item);
    let mut executions: Vec<ExchangeHistory> = Vec::new();
    let mut i: usize = 0;
    assert(texts.take(0) =~= Seq::empty());
    assert(executions.deep_view() =~= Seq::empty());
    while i < items.len()
        invariant
            i <= items.len(),
            texts == items.deep_view(),
            json_items(text@) == Some(texts),
            one == (|item: Seq<char>| execution_of(item)),
            each_of(texts.take(i as int), one) == Some(executions.deep_view()),
        decreases items.len() - i,
    {
        let ghost before = executions.deep_view();
        assert(texts.take(i + 1).drop_last() =~= texts.take(i as int));
        assert(texts.take(i + 1).last() == items[i as int]@);
        match execution_from(items[i].as_str()) {
            Ok(execution) => {
                executions.push(execution);
                assert(executions.deep_view() =~= before.push(execution@));
            },
            Err(message) => {
                proof {
                    lemma_each_of_fails(texts, one, i as int);
                }
                return Err(message);
            },
        }
        i += 1;
    }
    assert(texts.take(items.len() as int) =~= texts);
    Ok(executions)
}

/// Decodes an order book from the JSON text of one object. A text that does
/// not hold one is rejected with a decoding failure that carries the text.
pub fn decode_board(text: &str) -> (r: Result<Board, Error>)
    ensures
        match r {
            Ok(board) => board_of(text@) == Some(board@),
            Err(e) => board_of(text@) is None && e.is_parse() && e.content() == text@,
        },
{
    match board_from(text) {
        Ok(board) => Ok(board),
        Err(message) => Err(Error::parse_error(message, text)),
    }
}

/// Decodes one execution from the JSON text of one object. A text that does
/// not hold one is rejected with a decoding failure that carries the text.
pub fn decode_execution(text: &str) -> (r: Result<ExchangeHistory, Error>)
    ensures
        match r {
            Ok(execution) => execution_of(text@) == Some(execution@),
            Err(e) => execution_of(text@) is None && e.is_parse() && e.content() == text@,
        },
{
    match execution_from(text) {
        Ok(execution) => Ok(execution),
        Err(message) => Err(Error::parse_error(message, text)),
    }
}

/// Decodes a list of executions from the JSON text of one array, keeping
/// their order. If the text is no array, or one element is no execution,
/// the whole text is rejected with a decoding failure that carries it.
pub fn decode_executions(text: &str) -> (r: Result<Vec<ExchangeHistory>, Error>)
    ensures
        match r {
            Ok(executions) => executions_of(text@) == Some(executions.deep_view()),
            Err(e) => executions_of(text@) is None && e.is_parse() && e.content() == text@,
        },
{
    match executions_from(text) {
        Ok(executions) => Ok(executions),
        Err(message) => Err(Error::parse_error(message, text)),
    }
}

/// The JSON object of an execution, given the JSON strings of its four
/// texts: the seven members in the order of the record, with no space
/// between them.
pub open spec fn execution_line(
    id: int,
    side: Seq<char>,
    price: Seq<char>,
    size: Seq<char>,
    date: Seq<char>,
    buy: Seq<char>,
    sell: Seq<char>,
) -> Seq<char> {
    "{\"id\":"@ + decimal(id) + ",\"side\":"@ + side + ",\"price\":"@ + price + ",\"size\":"@ + size
        + ",\"exec_date\":"@ + date + ",\"buy_child_order_acceptance_id\":"@ + buy
        + ",\"sell_child_order_acceptance_id\":"@ + sell + "}"@
}

/// The JSON text of an execution; `None` where its price or its size is
/// not a number as it is written, or one of its texts cannot be written as
/// a JSON string.
pub open spec fn execution_json(e: ExchangeHistoryView) -> Option<Seq<char>> {
    if !well_written(e.price) || !well_written(e.size) {
        None
    } else {
        match (
            json_quoted(e.side),
            json_quoted(e.exec_date),
            json_quoted(e.buy_child_order_acceptance_id),
            json_quoted(e.sell_child_order_acceptance_id),
        ) {
            (Some(side), Some(date), Some(buy), Some(sell)) => Some(
                execution_line(e.id as int, side, e.price, e.size, date, buy, sell),
            ),
            _ => None,
        }
    }
}

/// Puts the JSON object of an execution together from its id, the texts of
/// its numbers and the JSON strings of its four texts.
pub fn assemble_execution(
    id: i64,
    side: &str,
    price: &str,
    size: &str,
    date: &str,
    buy: &str,
    sell: &str,
) -> (line: String)
    ensures
        line@ == execution_line(id as int, side@, price@, size@, date@, buy@, sell@),
{
    let mut line = String::from_str("{\"id\":");
    push_decimal(&mut line, id);
    line.append(",\"side\":");
    line.append(side);
    line.append(",\"price\":");
    line.append(price);
    line.append(",\"size\":");
    line.append(size);
    line.append(",\"exec_date\":");
    line.append(date);
    line.append(",\"buy_child_order_acceptance_id\":");
    line.append(buy);
    line.append(",\"sell_child_order_acceptance_id\":");
    line.append(sell);
    line.append("}");
    assert(line@ =~= execution_line(id as int, side@, price@, size@, date@, buy@, sell@));
    line
}

/// The text of an execution that cannot be written: its price if that is
/// no number as it is written, and else its size.
pub open spec fn unwritten(e: ExchangeHistoryView) -> Seq<char> {
    if !well_written(e.price) {
        e.price
    } else {
        e.size
    }
}

/// Writes an execution as the JSON text of one object, as it is stored. An
/// execution whose price and size are numbers as they are written is always
/// written. One whose price or size is not is refused, with a decoding
/// failure that carries the text that is no number.
pub fn encode_execution(e: &ExchangeHistory) -> (r: Result<String, Error>)
    ensures
        r is Ok <==> e.price.is_valid() && e.size.is_valid(),
        match r {
            Ok(text) => execution_json(e@) == Some(text@),
            Err(err) => execution_json(e@) is None && err.is_parse() && err.content() == unwritten(
                e@,
            ),
        },
{
    if !e.price.check() {
        let cause = Cause::of_message(String::from_str("the price is not a number"));
        return Err(Error::parse_error(cause, e.price.text.as_str()));
    }
    if !e.size.check() {
        let cause = Cause::of_message(String::from_str("the size is not a number"));
        return Err(Error::parse_error(cause, e.size.text.as_str()));
    }
    let side = match write_string(e.side.as_str()) {
        Ok(side) => side,
        Err(cause) => {
            return Err(Error::parse_error(cause, e.side.as_str()));
        },
    };
    let date = match write_string(e.exec_date.as_str()) {
        Ok(date) => date,
        Err(cause) => {
            return Err(Error::parse_error(cause, e.exec_date.as_str()));
        },
    };
    let buy = match write_string(e.buy_child_order_acceptance_id.as_str()) {
        Ok(buy) => buy,
        Err(cause) => {
            return Err(Error::parse_error(cause, e.buy_child_order_acceptance_id.as_str()));
        },
    };
    let sell = match write_string(e.sell_child_order_acceptance_id.as_str()) {
        Ok(sell) => sell,
        Err(cause) => {
            return Err(Error::parse_error(cause, e.sell_child_order_acceptance_id.as_str()));
        },
    };
    Ok(
        assemble_execution(
            e.id,
            side.as_str(),
            e.price.text.as_str(),
            e.size.text.as_str(),
            date.as_str(),
            buy.as_str(),
            sell.as_str(),
        ),
    )
}

} // verus!
