//! The table that the export writes: one header line, then one line per row.

use crate::decimal::{decimal, push_decimal, push_digits};
use vstd::prelude::*;

verus! {

/// How many recent executions of each side a row looks back on.
pub const COLUMN_NUM: usize = 250;

/// The side of the market that an execution took.
#[allow(non_camel_case_types)]
#[derive(Clone, Copy, Debug, PartialEq, Eq, Structural)]
pub enum Side {
    BUY,
    SELL,
}

impl Side {
    /// The cell text of a side: `0` for a buy, `1` for a sell.
    pub open spec fn code(self) -> Seq<char> {
        match self {
            Side::BUY => seq!['0'],
            Side::SELL => seq!['1'],
        }
    }

    /// The text that the `side` column holds for this side.
    pub fn value(&self) -> (s: &'static str)
        ensures
            s@ == self.code(),
    {
        proof {
            reveal_strlit("0");
            reveal_strlit("1");
        }
        match self {
            Side::BUY => {
                assert("0"@ =~= seq!['0']);
                "0"
            },
            Side::SELL => {
                assert("1"@ =~= seq!['1']);
                "1"
            },
        }
    }
}

/// One line of the table: the relative prices of the recent sells and buys,
/// oldest first, then the side and the relative price of the execution that
/// the line is about.
#[derive(Clone, Debug, PartialEq, Eq)]
pub struct HistoryRow {
    pub sell_history: Vec<i64>,
    pub buy_history: Vec<i64>,
    pub side: Side,
    pub price: i64,
}

/// The first `n` column names that start with `prefix`, each followed by a
/// comma: `prefix0,prefix1,` and so on.
pub open spec fn labels(prefix: Seq<char>, n: nat) -> Seq<char>
    decreases n,
{
    if n == 0 {
        Seq::empty()
    } else {
        labels(prefix, (n - 1) as nat) + prefix + decimal(n - 1) + seq![',']
    }
}

/// The header line, without its line end.
pub open spec fn header_text() -> Seq<char> {
    labels("sell_"@, COLUMN_NUM as nat) + labels("buy_"@, COLUMN_NUM as nat) + "side,price"@
}

/// The decimal text of each value, each followed by a comma.
pub open spec fn cells(values: Seq<i64>) -> Seq<char>
    decreases values.len(),
{
    if values.len() == 0 {
        Seq::empty()
    } else {
        cells(values.drop_last()) + decimal(values.last() as int) + seq![',']
    }
}

/// The line of one row, without its line end.
pub open spec fn row_text(row: HistoryRow) -> Seq<char> {
    cells(row.sell_history@) + cells(row.buy_history@) + row.side.code() + seq![',']
        + decimal(row.price as int)
}

fn push_labels(out: &mut String, prefix: &str, n: usize)
    ensures
        final(out)@ == old(out)@ + labels(prefix@, n as nat),
{
    let mut i: usize = 0;
    assert(out@ =~= old(out)@ + labels(prefix@, 0));
    while i < n
        invariant
            i <= n,
            out@ == old(out)@ + labels(prefix@, i as nat),
        decreases n - i,
    {
        proof {
            reveal_strlit(",");
        }
        let ghost before = out@;
        out.append(prefix);
        push_digits(out, i as u64);
        out.append(",");
        assert(out@ =~= old(out)@ + labels(prefix@, (i + 1) as nat)) by {
            assert(","@ =~= seq![',']);
            assert(out@ =~= before + prefix@ + decimal(i as int) + seq![',']);
        }
        i += 1;
    }
}

fn push_cells(out: &mut String, values: &Vec<i64>)
    ensures
        final(out)@ == old(out)@ + cells(values@),
{
    let mut i: usize = 0;
    assert(out@ =~= old(out)@ + cells(values@.take(0)));
    while i < values.len()
        invariant
            i <= values.len(),
            out@ == old(out)@ + cells(values@.take(i as int)),
        decreases values.len() - i,
    {
        proof {
            reveal_strlit(",");
        }
        let ghost before = out@;
        push_decimal(out, values[i]);
        out.append(",");
        assert(out@ =~= old(out)@ + cells(values@.take(i + 1))) by {
            assert(","@ =~= seq![',']);
            assert(values@.take(i + 1).drop_last() =~= values@.take(i as int));
            assert(out@ =~= before + decimal(values[i as int] as int) + seq![',']);
        }
        i += 1;
    }
    assert(values@.take(values.len() as int) =~= values@);
}

/// The header line: the names of the sell columns, of the buy columns, then
/// `side` and `price`, separated by commas.
pub fn format_header() -> (line: String)
    ensures
        line@ == header_text(),
{
    let mut line = String::new();
    push_labels(&mut line, "sell_", COLUMN_NUM);
    push_labels(&mut line, "buy_", COLUMN_NUM);
    line.append("side,price");
    assert(line@ =~= header_text());
    line
}

/// The line of one row: its sell cells, its buy cells, the side's code and
/// the price, separated by commas, with no quoting.
pub fn format_row(row: &HistoryRow) -> (line: String)
    ensures
        line@ == row_text(*row),
{
    proof {
        reveal_strlit(",");
    }
    let mut line = String::new();
    push_cells(&mut line, &row.sell_history);
    push_cells(&mut line, &row.buy_history);
    line.append(row.side.value());
    line.append(",");
    push_decimal(&mut line, row.price);
    assert(line@ =~= row_text(*row)) by {
        assert(","@ =~= seq![',']);
    }
    line
}

} // verus!
